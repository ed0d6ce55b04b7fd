//! Animations of properties.
use vstd::prelude::*;

use crate::copy::copy_opt;
use crate::frame::picked;
use crate::json::{
    items, list_of, lookup, member, table_of, text_of_tree, Json, JsonMap, Members, Tree,
};
use crate::order::{draw_positions, ints, sorted_positions};
use crate::singles::{
    at_most, below, greater, is_nan, single_at_most, single_below, single_greater, total_rank,
    total_rank_of,
};
use crate::strings::{
    decimal, decimal_of_index, join2, lemma_views_push, opt_view, same_text, views,
};
use crate::value::{coerce_f64, json_number, Number, Scalar, ONE_BITS, ZERO_BITS};

verus! {

/// The bits of minus one.
pub const MINUS_ONE_BITS: u32 = 0xbf80_0000;

/// The bits of thirty.
pub const THIRTY_BITS: u32 = 0x41f0_0000;

/// How the curve leaves or reaches a key.
#[derive(Debug)]
pub struct Handle {
    pub enabled: bool,
    pub x: Scalar,
    pub y: Scalar,
}

/// What a [`Handle`] holds.
pub struct HandleModel {
    pub enabled: bool,
    pub x: Number,
    pub y: Number,
}

impl View for Handle {
    type V = HandleModel;

    open spec fn view(&self) -> HandleModel {
        HandleModel { enabled: self.enabled, x: self.x@, y: self.y@ }
    }
}

/// The flag that a member is; false where it is none.
pub open spec fn flag_in(t: Tree, key: Seq<char>) -> bool {
    member(t, key) == Some(Tree::Bool(true))
}

/// The number that a member is, or a default.
pub open spec fn number_in_or(t: Tree, key: Seq<char>, default: u32) -> Number {
    match number_at(t, key) {
        Some(n) => n,
        None => Number::Single(default),
    }
}

/// The number that a member is.
pub open spec fn number_at(t: Tree, key: Seq<char>) -> Option<Number> {
    match member(t, key) {
        Some(v) => json_number(v),
        None => None,
    }
}

/// The handle that a value describes.
pub open spec fn handle_of(t: Option<Tree>, default_x: u32) -> HandleModel {
    match t {
        Some(Tree::Table(m)) => HandleModel {
            enabled: flag_in(Tree::Table(m), "enabled"@),
            x: number_in_or(Tree::Table(m), "x"@, default_x),
            y: number_in_or(Tree::Table(m), "y"@, ZERO_BITS),
        },
        _ => HandleModel {
            enabled: false,
            x: Number::Single(default_x),
            y: Number::Single(ZERO_BITS),
        },
    }
}

fn read_flag(v: &Json, key: &str) -> (r: bool)
    ensures
        r == flag_in(v@, key@),
{
    match v.get(key) {
        Some(Json::Bool(b)) => *b,
        _ => false,
    }
}

fn read_number(v: &Json, key: &str) -> (r: Option<Scalar>)
    ensures
        opt_view(r) == number_at(v@, key@),
{
    match v.get(key) {
        Some(x) => coerce_f64(x),
        None => None,
    }
}

fn read_number_or(v: &Json, key: &str, default: u32) -> (r: Scalar)
    ensures
        r@ == number_in_or(v@, key@, default),
{
    match read_number(v, key) {
        Some(n) => n,
        None => Scalar::Single(default),
    }
}

impl Handle {
    fn parse(v: Option<&Json>, default_x: u32) -> (r: Self)
        ensures
            r@ == handle_of(
                match v {
                    Some(x) => Some(x@),
                    None => None,
                },
                default_x,
            ),
    {
        if let Some(x) = v {
            if let Some(_) = x.as_table() {
                return Handle {
                    enabled: read_flag(x, "enabled"),
                    x: read_number_or(x, "x", default_x),
                    y: read_number_or(x, "y", ZERO_BITS),
                };
            }
        }
        Handle { enabled: false, x: Scalar::Single(default_x), y: Scalar::Single(ZERO_BITS) }
    }
}

/// A key of a curve.
#[derive(Debug)]
pub struct Keyframe {
    pub frame: Scalar,
    pub value: Scalar,
    pub front: Handle,
    pub back: Handle,
    /// Whether the curve jumps to the key.
    pub step: bool,
}

/// What a [`Keyframe`] holds.
pub struct KeyModel {
    pub frame: Number,
    pub value: Number,
    pub front: HandleModel,
    pub back: HandleModel,
    pub step: bool,
}

impl View for Keyframe {
    type V = KeyModel;

    open spec fn view(&self) -> KeyModel {
        KeyModel {
            frame: self.frame@,
            value: self.value@,
            front: self.front@,
            back: self.back@,
            step: self.step,
        }
    }
}

/// The key that a value describes; none without a frame.
pub open spec fn key_of(t: Tree) -> Option<KeyModel> {
    match number_at(t, "frame"@) {
        Some(frame) => Some(
            KeyModel {
                frame,
                value: number_in_or(t, "value"@, ZERO_BITS),
                front: handle_of(member(t, "front"@), ONE_BITS),
                back: handle_of(member(t, "back"@), MINUS_ONE_BITS),
                step: flag_in(t, "step"@),
            },
        ),
        None => None,
    }
}

impl Keyframe {
    fn parse(v: &Json) -> (r: Option<Self>)
        ensures
            opt_view(r) == key_of(v@),
    {
        match read_number(v, "frame") {
            Some(frame) => Some(
                Keyframe {
                    frame,
                    value: read_number_or(v, "value", ZERO_BITS),
                    front: Handle::parse(v.get("front"), ONE_BITS),
                    back: Handle::parse(v.get("back"), MINUS_ONE_BITS),
                    step: read_flag(v, "step"),
                },
            ),
            None => None,
        }
    }
}

/// How an animation goes on at its end.
#[derive(Clone, Copy, Debug, PartialEq, Eq, Structural)]
pub enum PlayMode {
    Single,
    Loop,
    Mirror,
    TimeOfDay,
}

/// Something that scripts are told of when an animation passes a frame.
#[derive(Debug)]
pub struct AnimationEvent {
    pub frame: Scalar,
    pub name: String,
}

impl View for AnimationEvent {
    type V = (Number, Seq<char>);

    open spec fn view(&self) -> (Number, Seq<char>) {
        (self.frame@, self.name@)
    }
}

/// A channel of an animation: its keys.
#[derive(Debug)]
pub struct Channel {
    pub keys: Vec<Keyframe>,
}

impl View for Channel {
    type V = Seq<KeyModel>;

    open spec fn view(&self) -> Seq<KeyModel> {
        views(self.keys@)
    }
}

/// An animation as it is written down, its keys in the order of the document.
#[derive(Debug)]
pub struct PropertyAnimation {
    pub channels: Vec<Channel>,
    pub fps: Option<Scalar>,
    pub length: Option<Scalar>,
    pub mode: PlayMode,
    pub wraploop: bool,
    pub startpaused: bool,
    pub name: Option<String>,
    pub relative: bool,
    pub parent: Option<String>,
    pub children: Vec<String>,
    pub events: Vec<AnimationEvent>,
}

/// What a [`PropertyAnimation`] holds.
pub struct AnimationModel {
    pub channels: Seq<Seq<KeyModel>>,
    pub fps: Option<Number>,
    pub length: Option<Number>,
    pub mode: PlayMode,
    pub wraploop: bool,
    pub startpaused: bool,
    pub name: Option<Seq<char>>,
    pub relative: bool,
    pub parent: Option<Seq<char>>,
    pub children: Seq<Seq<char>>,
    pub events: Seq<(Number, Seq<char>)>,
}

impl View for PropertyAnimation {
    type V = AnimationModel;

    open spec fn view(&self) -> AnimationModel {
        AnimationModel {
            channels: views(self.channels@),
            fps: opt_view(self.fps),
            length: opt_view(self.length),
            mode: self.mode,
            wraploop: self.wraploop,
            startpaused: self.startpaused,
            name: opt_view(self.name),
            relative: self.relative,
            parent: opt_view(self.parent),
            children: views(self.children@),
            events: views(self.events@),
        }
    }
}

/// The keys among the first `k` items of a list.
pub open spec fn keys_upto(list: Seq<Tree>, k: int) -> Seq<KeyModel>
    decreases k,
{
    if k <= 0 {
        Seq::empty()
    } else {
        match key_of(list[k - 1]) {
            Some(key) => keys_upto(list, k - 1).push(key),
            None => keys_upto(list, k - 1),
        }
    }
}

/// The name of a channel.
pub open spec fn channel_name(i: int) -> Seq<char> {
    "c"@ + decimal(i)
}

/// The channels of an animation from number `i` on, up to the first number
/// that has none. There are no more of them than there are members.
pub open spec fn channels_from(m: Members, i: int) -> Seq<Seq<KeyModel>>
    decreases m.len() - i,
{
    if i < 0 || i >= m.len() {
        Seq::empty()
    } else {
        match list_of(lookup(m, channel_name(i))) {
            Some(list) => seq![keys_upto(list, list.len() as int)] + channels_from(m, i + 1),
            None => Seq::empty(),
        }
    }
}

/// Whether no channel has a key.
pub open spec fn all_empty(channels: Seq<Seq<KeyModel>>) -> bool {
    forall|i: int| 0 <= i < channels.len() ==> (#[trigger] channels[i]).len() == 0
}

/// The options of an animation; an animation without any has defaults for all.
pub open spec fn options_of(m: Members) -> Tree {
    match table_of(lookup(m, "options"@)) {
        Some(o) => Tree::Table(o),
        None => Tree::Null,
    }
}

/// The mode that a text names.
pub open spec fn mode_named(s: Option<Seq<char>>) -> PlayMode {
    if s == Some("loop"@) {
        PlayMode::Loop
    } else if s == Some("mirror"@) {
        PlayMode::Mirror
    } else if s == Some("timeofday"@) {
        PlayMode::TimeOfDay
    } else {
        PlayMode::Single
    }
}

/// The keys that the first `k` items of a list name.
pub open spec fn named_upto(list: Seq<Tree>, k: int) -> Seq<Seq<char>>
    decreases k,
{
    if k <= 0 {
        Seq::empty()
    } else {
        match text_of_tree(member(list[k - 1], "key"@)) {
            Some(s) => named_upto(list, k - 1).push(s),
            None => named_upto(list, k - 1),
        }
    }
}

/// The event that a value describes.
pub open spec fn event_of(t: Tree) -> Option<(Number, Seq<char>)> {
    match (number_at(t, "frame"@), text_of_tree(member(t, "name"@))) {
        (Some(f), Some(n)) => Some((f, n)),
        _ => None,
    }
}

/// The events among the first `k` items of a list.
pub open spec fn events_upto(list: Seq<Tree>, k: int) -> Seq<(Number, Seq<char>)>
    decreases k,
{
    if k <= 0 {
        Seq::empty()
    } else {
        match event_of(list[k - 1]) {
            Some(e) => events_upto(list, k - 1).push(e),
            None => events_upto(list, k - 1),
        }
    }
}

/// The animation of a property; none if it has no channel with a key.
pub open spec fn animation_of(property: Members) -> Option<AnimationModel> {
    match table_of(lookup(property, "animation"@)) {
        Some(m) => {
            let channels = channels_from(m, 0);
            let o = options_of(m);
            let mode = mode_named(text_of_tree(member(o, "mode"@)));
            if all_empty(channels) {
                None
            } else {
                Some(
                    AnimationModel {
                        channels,
                        fps: number_at(o, "fps"@),
                        length: number_at(o, "length"@),
                        mode,
                        wraploop: match member(o, "wraploop"@) {
                            Some(Tree::Bool(b)) => b,
                            _ => mode == PlayMode::TimeOfDay,
                        },
                        startpaused: flag_in(o, "startpaused"@),
                        name: text_of_tree(member(o, "name"@)),
                        relative: flag_in(Tree::Table(property), "relative"@),
                        parent: match member(o, "parent"@) {
                            Some(p) => text_of_tree(member(p, "key"@)),
                            None => None,
                        },
                        children: named_upto(
                            items(member(o, "children"@)),
                            items(member(o, "children"@)).len() as int,
                        ),
                        events: events_upto(
                            items(member(o, "events"@)),
                            items(member(o, "events"@)).len() as int,
                        ),
                    },
                )
            }
        },
        None => None,
    }
}

fn parse_keys(list: &Vec<Json>) -> (r: Vec<Keyframe>)
    ensures
        views(r@) == keys_upto(views(list@), list@.len() as int),
{
    let ghost all = views(list@);
    let mut out: Vec<Keyframe> = Vec::new();
    let mut i: usize = 0;
    assert(views(out@) =~= Seq::empty());
    while i < list.len()
        invariant
            i <= list@.len(),
            all == views(list@),
            views(out@) == keys_upto(all, i as int),
        decreases list@.len() - i,
    {
        broadcast use lemma_views_push;

        assert(all[i as int] == list@[i as int]@);
        if let Some(k) = Keyframe::parse(&list[i]) {
            out.push(k);
        }
        i += 1;
    }
    out
}

fn parse_channels(m: &JsonMap) -> (r: Vec<Channel>)
    ensures
        views(r@) == channels_from(m@, 0),
{
    let mut out: Vec<Channel> = Vec::new();
    let mut i: usize = 0;
    let n: usize = m.entries.len();
    assert(views(out@) + channels_from(m@, 0) =~= channels_from(m@, 0));
    while i < n
        invariant
            i <= n,
            n == m.entries@.len(),
            m@.len() == n,
            channels_from(m@, 0) == views(out@) + channels_from(m@, i as int),
        decreases n - i,
    {
        let number = decimal_of_index(i);
        let key = join2("c", number.as_str());
        assert(key@ == channel_name(i as int));
        match m.list(key.as_str()) {
            Some(list) => {
                let c = Channel { keys: parse_keys(list) };
                proof {
                    lemma_views_push(out@, c);
                    assert(views(out@) + (seq![c@] + channels_from(m@, i + 1)) =~= views(
                        out@,
                    ).push(c@) + channels_from(m@, i + 1));
                }
                out.push(c);
            },
            None => {
                assert(views(out@) =~= channels_from(m@, 0));
                return out;
            },
        }
        i += 1;
    }
    assert(views(out@) =~= channels_from(m@, 0));
    out
}

fn parse_mode(v: Option<&Json>) -> (r: PlayMode)
    ensures
        r == mode_named(
            text_of_tree(
                match v {
                    Some(x) => Some(x@),
                    None => None,
                },
            ),
        ),
{
    proof {
        reveal_strlit("loop");
        reveal_strlit("mirror");
        reveal_strlit("timeofday");
    }
    if let Some(x) = v {
        if let Some(s) = x.as_text() {
            if same_text(s.as_str(), "loop") {
                return PlayMode::Loop;
            }
            if same_text(s.as_str(), "mirror") {
                return PlayMode::Mirror;
            }
            if same_text(s.as_str(), "timeofday") {
                return PlayMode::TimeOfDay;
            }
        }
    }
    PlayMode::Single
}

fn parse_named(v: Option<&Json>) -> (r: Vec<String>)
    ensures
        ({
            let list = items(
                match v {
                    Some(x) => Some(x@),
                    None => None,
                },
            );
            views(r@) == named_upto(list, list.len() as int)
        }),
{
    let mut out: Vec<String> = Vec::new();
    assert(views(out@) =~= Seq::empty());
    if let Some(x) = v {
        if let Some(list) = x.as_list() {
            let ghost all = views(list@);
            let mut i: usize = 0;
            while i < list.len()
                invariant
                    i <= list@.len(),
                    all == views(list@),
                    views(out@) == named_upto(all, i as int),
                decreases list@.len() - i,
            {
                broadcast use lemma_views_push;

                assert(all[i as int] == list@[i as int]@);
                if let Some(k) = list[i].get("key") {
                    if let Some(s) = k.as_text() {
                        out.push(s.clone());
                    }
                }
                i += 1;
            }
        }
    }
    out
}

fn parse_events(v: Option<&Json>) -> (r: Vec<AnimationEvent>)
    ensures
        ({
            let list = items(
                match v {
                    Some(x) => Some(x@),
                    None => None,
                },
            );
            views(r@) == events_upto(list, list.len() as int)
        }),
{
    let mut out: Vec<AnimationEvent> = Vec::new();
    assert(views(out@) =~= Seq::empty());
    if let Some(x) = v {
        if let Some(list) = x.as_list() {
            let ghost all = views(list@);
            let mut i: usize = 0;
            while i < list.len()
                invariant
                    i <= list@.len(),
                    all == views(list@),
                    views(out@) == events_upto(all, i as int),
                decreases list@.len() - i,
            {
                broadcast use lemma_views_push;

                let e = &list[i];
                assert(all[i as int] == e@);
                if let Some(frame) = read_number(e, "frame") {
                    if let Some(n) = e.get("name") {
                        if let Some(name) = n.as_text() {
                            out.push(AnimationEvent { frame, name: name.clone() });
                        }
                    }
                }
                i += 1;
            }
        }
    }
    out
}

fn none_has_keys(channels: &Vec<Channel>) -> (r: bool)
    ensures
        r == all_empty(views(channels@)),
{
    let ghost all = views(channels@);
    let mut i: usize = 0;
    while i < channels.len()
        invariant
            i <= channels@.len(),
            all == views(channels@),
            forall|j: int| 0 <= j < i ==> (#[trigger] all[j]).len() == 0,
        decreases channels@.len() - i,
    {
        assert(all[i as int] == channels@[i as int]@);
        if channels[i].keys.len() > 0 {
            return false;
        }
        i += 1;
    }
    true
}

fn text_at(v: &Json, key: &str) -> (r: Option<String>)
    ensures
        opt_view(r) == text_of_tree(member(v@, key@)),
{
    match v.get(key) {
        Some(x) => match x.as_text() {
            Some(s) => Some(s.clone()),
            None => None,
        },
        None => None,
    }
}

impl PropertyAnimation {
    pub fn parse(property: &JsonMap) -> (r: Option<Self>)
        ensures
            opt_view(r) == animation_of(property@),
    {
        let m = match property.table("animation") {
            Some(m) => m,
            None => {
                return None;
            },
        };
        let channels = parse_channels(m);
        if none_has_keys(&channels) {
            return None;
        }
        let none = Json::Null;
        let o: &Json = match m.get("options") {
            Some(x) => match x.as_table() {
                Some(_) => x,
                None => &none,
            },
            None => &none,
        };
        assert(o@ == options_of(m@));
        let mode = parse_mode(o.get("mode"));
        let wraploop = match o.get("wraploop") {
            Some(Json::Bool(b)) => *b,
            _ => match mode {
                PlayMode::TimeOfDay => true,
                _ => false,
            },
        };
        let parent: Option<String> = match o.get("parent") {
            Some(p) => text_at(p, "key"),
            None => None,
        };
        let relative = match property.get("relative") {
            Some(Json::Bool(b)) => *b,
            _ => false,
        };
        Some(
            PropertyAnimation {
                channels,
                fps: read_number(o, "fps"),
                length: read_number(o, "length"),
                mode,
                wraploop,
                startpaused: read_flag(o, "startpaused"),
                name: text_at(o, "name"),
                relative,
                parent,
                children: parse_named(o.get("children")),
                events: parse_events(o.get("events")),
            },
        )
    }

    pub fn channel_count(&self) -> (n: usize)
        ensures
            n == self@.channels.len(),
    {
        self.channels.len()
    }
}

/// A handle whose numbers are read as singles, by their bits.
#[derive(Clone, Copy, Debug, PartialEq, Eq, Structural)]
pub struct TimedHandle {
    pub enabled: bool,
    pub x: u32,
    pub y: u32,
}

/// A key whose numbers are read as singles, by their bits.
#[derive(Clone, Copy, Debug, PartialEq, Eq, Structural)]
pub struct TimedKey {
    pub frame: u32,
    pub value: u32,
    pub front: TimedHandle,
    pub back: TimedHandle,
    pub step: bool,
}

/// The numbers of an animation, read as singles: its keys channel by channel
/// in the order of the document, its options, and the frames of its events.
#[derive(Debug)]
pub struct Readings {
    pub channels: Vec<Vec<TimedKey>>,
    pub fps: Option<u32>,
    pub length: Option<u32>,
    pub events: Vec<u32>,
}

/// An animation that can be played. Numbers are the bits of singles.
#[derive(Debug)]
pub struct Timeline {
    /// The keys of each channel, by frame.
    pub channels: Vec<Vec<TimedKey>>,
    pub fps: u32,
    pub length: u32,
    pub mode: PlayMode,
    pub wraploop: bool,
    pub startpaused: bool,
    pub name: Option<String>,
    pub relative: bool,
    pub parent: Option<String>,
    pub events: Vec<(u32, String)>,
}

/// What a [`Timeline`] holds.
pub struct TimelineModel {
    pub channels: Seq<Seq<TimedKey>>,
    pub fps: u32,
    pub length: u32,
    pub mode: PlayMode,
    pub wraploop: bool,
    pub startpaused: bool,
    pub name: Option<Seq<char>>,
    pub relative: bool,
    pub parent: Option<Seq<char>>,
    pub events: Seq<(u32, Seq<char>)>,
}

/// The lists of keys that a list holds.
pub open spec fn key_lists(s: Seq<Vec<TimedKey>>) -> Seq<Seq<TimedKey>> {
    Seq::new(s.len(), |i: int| s[i]@)
}

impl View for Timeline {
    type V = TimelineModel;

    open spec fn view(&self) -> TimelineModel {
        TimelineModel {
            channels: key_lists(self.channels@),
            fps: self.fps,
            length: self.length,
            mode: self.mode,
            wraploop: self.wraploop,
            startpaused: self.startpaused,
            name: opt_view(self.name),
            relative: self.relative,
            parent: opt_view(self.parent),
            events: views(self.events@),
        }
    }
}

/// Numbers by which keys are ordered as their frames are.
pub open spec fn frame_ranks(keys: Seq<TimedKey>) -> Seq<i64> {
    Seq::new(keys.len(), |i: int| total_rank(keys[i].frame) as i64)
}

/// Keys by frame; keys of one frame keep their order.
pub open spec fn keys_by_frame(keys: Seq<TimedKey>) -> Seq<TimedKey> {
    picked(keys, sorted_positions(frame_ranks(keys), keys.len() as int))
}

/// Channels with their keys by frame.
pub open spec fn channels_by_frame(channels: Seq<Seq<TimedKey>>) -> Seq<Seq<TimedKey>> {
    Seq::new(channels.len(), |i: int| keys_by_frame(channels[i]))
}

/// The greatest of zero and the last frames of the first `k` channels.
pub open spec fn last_frame(channels: Seq<Seq<TimedKey>>, k: int) -> u32
    decreases k,
{
    if k <= 0 {
        ZERO_BITS
    } else {
        let before = last_frame(channels, k - 1);
        if channels[k - 1].len() > 0 {
            greater(before, channels[k - 1].last().frame)
        } else {
            before
        }
    }
}

/// An option that is above zero, or a default.
pub open spec fn positive_or(v: Option<u32>, default: u32) -> u32 {
    match v {
        Some(b) => if below(ZERO_BITS, b) {
            b
        } else {
            default
        },
        None => default,
    }
}

/// An animation and its numbers, ready to be played. Without a length it
/// lasts to its last key, and for at least one frame.
pub open spec fn timeline_of(
    a: AnimationModel,
    channels: Seq<Seq<TimedKey>>,
    fps: Option<u32>,
    length: Option<u32>,
    events: Seq<u32>,
) -> TimelineModel {
    let sorted = channels_by_frame(channels);
    TimelineModel {
        channels: sorted,
        fps: positive_or(fps, THIRTY_BITS),
        length: positive_or(length, greater(last_frame(sorted, sorted.len() as int), ONE_BITS)),
        mode: a.mode,
        wraploop: a.wraploop,
        startpaused: a.startpaused,
        name: a.name,
        relative: a.relative,
        parent: a.parent,
        events: Seq::new(a.events.len(), |i: int| (events[i], a.events[i].1)),
    }
}

fn sort_keys(keys: &Vec<TimedKey>) -> (r: Vec<TimedKey>)
    ensures
        r@ == keys_by_frame(keys@),
{
    let mut ranks: Vec<i64> = Vec::new();
    let mut i: usize = 0;
    while i < keys.len()
        invariant
            i <= keys@.len(),
            ranks@.len() == i,
            forall|j: int| 0 <= j < i ==> #[trigger] ranks@[j] == total_rank(keys@[j].frame),
        decreases keys@.len() - i,
    {
        ranks.push(total_rank_of(keys[i].frame));
        i += 1;
    }
    assert(ranks@ =~= frame_ranks(keys@));
    let order = draw_positions(&ranks, true);
    let ghost positions = sorted_positions(frame_ranks(keys@), keys@.len() as int);
    let mut out: Vec<TimedKey> = Vec::new();
    let mut k: usize = 0;
    while k < order.len()
        invariant
            k <= order@.len(),
            order@.len() == keys@.len(),
            ints(order@) == positions,
            out@.len() == k,
            forall|j: int| 0 <= j < order@.len() ==> (#[trigger] order@[j]) < keys@.len(),
            forall|j: int| 0 <= j < k ==> #[trigger] out@[j] == keys@[positions[j]],
        decreases order@.len() - k,
    {
        assert(positions[k as int] == order@[k as int] as int);
        out.push(keys[order[k]]);
        k += 1;
    }
    assert(out@ =~= keys_by_frame(keys@));
    out
}

fn positive(v: Option<u32>, default: u32) -> (r: u32)
    ensures
        r == positive_or(v, default),
{
    match v {
        Some(b) => if single_below(ZERO_BITS, b) {
            b
        } else {
            default
        },
        None => default,
    }
}

impl Timeline {
    /// An animation that can be played, from its numbers. Every event of the
    /// animation has its frame among them.
    pub fn new(a: &PropertyAnimation, numbers: &Readings) -> (r: Self)
        requires
            numbers.events@.len() == a.events@.len(),
        ensures
            r@ == timeline_of(
                a@,
                key_lists(numbers.channels@),
                numbers.fps,
                numbers.length,
                numbers.events@,
            ),
    {
        let ghost given = key_lists(numbers.channels@);
        let ghost sorted = channels_by_frame(given);
        let mut channels: Vec<Vec<TimedKey>> = Vec::new();
        let mut end: u32 = ZERO_BITS;
        let mut i: usize = 0;
        while i < numbers.channels.len()
            invariant
                i <= numbers.channels@.len(),
                given == key_lists(numbers.channels@),
                sorted == channels_by_frame(given),
                channels@.len() == i,
                forall|j: int| 0 <= j < i ==> (#[trigger] channels@[j])@ == sorted[j],
                end == last_frame(sorted, i as int),
            decreases numbers.channels@.len() - i,
        {
            assert(given[i as int] == numbers.channels@[i as int]@);
            let keys = sort_keys(&numbers.channels[i]);
            assert(keys@ == sorted[i as int]);
            let n: usize = keys.len();
            if n > 0 {
                end = single_greater(end, keys[n - 1].frame);
            }
            channels.push(keys);
            i += 1;
        }
        assert(key_lists(channels@) =~= sorted);
        let mut events: Vec<(u32, String)> = Vec::new();
        let mut k: usize = 0;
        while k < a.events.len()
            invariant
                k <= a.events@.len(),
                numbers.events@.len() == a.events@.len(),
                events@.len() == k,
                forall|j: int|
                    0 <= j < k ==> (#[trigger] events@[j])@ == (
                        numbers.events@[j],
                        a.events@[j].name@,
                    ),
            decreases a.events@.len() - k,
        {
            events.push((numbers.events[k], a.events[k].name.clone()));
            k += 1;
        }
        let r = Timeline {
            channels,
            fps: positive(numbers.fps, THIRTY_BITS),
            length: positive(numbers.length, single_greater(end, ONE_BITS)),
            mode: a.mode,
            wraploop: a.wraploop,
            startpaused: a.startpaused,
            name: copy_opt(&a.name),
            relative: a.relative,
            parent: copy_opt(&a.parent),
            events,
        };
        assert(r@.events =~= timeline_of(
            a@,
            given,
            numbers.fps,
            numbers.length,
            numbers.events@,
        ).events) by {
            assert forall|j: int| 0 <= j < a@.events.len() implies #[trigger] a@.events[j].1
                == a.events@[j].name@ by {}
        }
        r
    }

    pub fn channel_count(&self) -> (n: usize)
        ensures
            n == self@.channels.len(),
    {
        self.channels.len()
    }

    /// What a channel is at a frame. Among keys, a frame has to be a number, and
    /// so has that of the first key; behind the last key and in a channel
    /// without keys neither matters.
    pub fn sample(&self, channel: usize, frame: u32) -> (r: Option<Sample>)
        requires
            channel < self@.channels.len() ==> can_be_placed(
                self@.channels[channel as int],
                frame,
            ),
        ensures
            r == (if channel < self@.channels.len() {
                sample_of(self@.channels[channel as int], self.wraploop, self.length, frame)
            } else {
                None
            }),
    {
        if channel >= self.channels.len() {
            return None;
        }
        let keys = &self.channels[channel];
        assert(keys@ == self@.channels[channel as int]);
        let n: usize = keys.len();
        if n == 0 {
            return None;
        }
        let first = keys[0];
        let last = keys[n - 1];
        if single_at_most(frame, first.frame) {
            return Some(Sample::Value(first.value));
        }
        if single_at_most(last.frame, frame) {
            if self.wraploop && single_below(last.frame, self.length) && !last.step {
                if single_at_most(self.length, frame) {
                    return Some(Sample::Value(first.value));
                }
                return Some(Sample::Wrap { last, first });
            }
            return Some(Sample::Value(last.value));
        }
        let mut i: usize = 0;
        while i < n && single_at_most(keys[i].frame, frame)
            invariant
                i <= n,
                n == keys@.len(),
                first_after(keys@, frame, 0) == first_after(keys@, frame, i as int),
            decreases n - i,
        {
            i += 1;
        }
        proof {
            lemma_first_after(keys@, frame, 0);
            assert(first_after(keys@, frame, 0) == i);
        }
        let g = keys[i - 1];
        let a = keys[i];
        if a.step {
            return Some(Sample::Value(g.value));
        }
        if single_at_most(a.frame, g.frame) {
            return Some(Sample::Value(a.value));
        }
        Some(Sample::Between { from: g, to: a })
    }
}

/// What a channel is at a frame: a value, or a point of the curve between two
/// keys, which may lead from the last key round to the first.
#[derive(Clone, Copy, Debug, PartialEq, Eq, Structural)]
pub enum Sample {
    Value(u32),
    Wrap { last: TimedKey, first: TimedKey },
    Between { from: TimedKey, to: TimedKey },
}

/// Whether a frame has a place among keys: there are none, it lies at or behind
/// the last, or both it and the frame of the first key are numbers.
pub open spec fn can_be_placed(keys: Seq<TimedKey>, frame: u32) -> bool {
    keys.len() == 0 || at_most(keys.last().frame, frame) || (!is_nan(frame) && !is_nan(
        keys[0].frame,
    ))
}

/// The position of the first key after a frame, at or after `from`.
pub open spec fn first_after(keys: Seq<TimedKey>, frame: u32, from: int) -> int
    decreases keys.len() - from,
{
    if from < 0 || from >= keys.len() || !at_most(keys[from].frame, frame) {
        from
    } else {
        first_after(keys, frame, from + 1)
    }
}

proof fn lemma_first_after(keys: Seq<TimedKey>, frame: u32, from: int)
    requires
        0 <= from < keys.len(),
        !at_most(keys.last().frame, frame),
    ensures
        from <= first_after(keys, frame, from) < keys.len(),
        at_most(keys[from].frame, frame) ==> first_after(keys, frame, from) > from,
    decreases keys.len() - from,
{
    if at_most(keys[from].frame, frame) && from + 1 < keys.len() {
        lemma_first_after(keys, frame, from + 1);
    }
}

/// What keys give at a frame. Before the first key it is that key's value.
/// Behind the last it is that key's, unless the animation leads round to the
/// first. A key that is stepped to is not led up to.
pub open spec fn sample_of(
    keys: Seq<TimedKey>,
    wraploop: bool,
    length: u32,
    frame: u32,
) -> Option<Sample> {
    if keys.len() == 0 {
        None
    } else {
        let first = keys[0];
        let last = keys.last();
        if at_most(frame, first.frame) {
            Some(Sample::Value(first.value))
        } else if at_most(last.frame, frame) {
            if wraploop && below(last.frame, length) && !last.step {
                if at_most(length, frame) {
                    Some(Sample::Value(first.value))
                } else {
                    Some(Sample::Wrap { last, first })
                }
            } else {
                Some(Sample::Value(last.value))
            }
        } else {
            let i = first_after(keys, frame, 0);
            let g = keys[i - 1];
            let a = keys[i];
            if a.step {
                Some(Sample::Value(g.value))
            } else if at_most(a.frame, g.frame) {
                Some(Sample::Value(a.value))
            } else {
                Some(Sample::Between { from: g, to: a })
            }
        }
    }
}

/// The keys of a channel that is ready to be played are those that were read,
/// each once, and stand by frame.
pub proof fn law_keys_stand_by_frame(keys: Seq<TimedKey>)
    ensures
        keys_by_frame(keys).len() == keys.len(),
        forall|i: int, j: int|
            0 <= i < j < keys.len() ==> total_rank((#[trigger] keys_by_frame(keys)[i]).frame)
                <= total_rank((#[trigger] keys_by_frame(keys)[j]).frame),
        forall|i: int| 0 <= i < keys.len() ==> keys.contains(#[trigger] keys_by_frame(keys)[i]),
{
    let ranks = frame_ranks(keys);
    let p = sorted_positions(ranks, keys.len() as int);
    crate::order::law_sorted_positions(ranks, keys.len() as int);
    assert forall|i: int, j: int| 0 <= i < j < keys.len() implies total_rank(
        (#[trigger] keys_by_frame(keys)[i]).frame,
    ) <= total_rank((#[trigger] keys_by_frame(keys)[j]).frame) by {
        assert(crate::order::before(ranks, p[i], p[j]));
        assert(ranks[p[i]] <= ranks[p[j]]);
    }
    assert forall|i: int| 0 <= i < keys.len() implies keys.contains(
        #[trigger] keys_by_frame(keys)[i],
    ) by {
        assert(keys_by_frame(keys)[i] == keys[p[i]]);
    }
}

/// An animation lasts for a positive time, and plays at a positive rate.
pub proof fn law_timelines_last(
    a: AnimationModel,
    channels: Seq<Seq<TimedKey>>,
    fps: Option<u32>,
    length: Option<u32>,
    events: Seq<u32>,
)
    ensures
        below(ZERO_BITS, timeline_of(a, channels, fps, length, events).fps),
        below(ZERO_BITS, timeline_of(a, channels, fps, length, events).length),
{
}

/// The curve between two keys lies between them: the first of them is not
/// after the frame, and the second is.
pub proof fn law_samples_lie_between(
    keys: Seq<TimedKey>,
    wraploop: bool,
    length: u32,
    frame: u32,
)
    requires
        can_be_placed(keys, frame),
    ensures
        match sample_of(keys, wraploop, length, frame) {
            Some(Sample::Between { from, to }) => at_most(from.frame, frame) && !at_most(
                to.frame,
                frame,
            ),
            Some(Sample::Wrap { last, first }) => at_most(last.frame, frame) && below(
                last.frame,
                length,
            ),
            Some(Sample::Value(v)) => exists|i: int| 0 <= i < keys.len() && (#[trigger] keys[i]).value == v,
            None => keys.len() == 0,
        },
{
    if keys.len() > 0 {
        assert(keys[0].value == keys[0].value);
        assert(keys[keys.len() - 1] == keys.last());
        if !at_most(frame, keys[0].frame) && !at_most(keys.last().frame, frame) {
            lemma_first_after(keys, frame, 0);
            lemma_first_after_is_after(keys, frame, 0);
            let i = first_after(keys, frame, 0);
            assert(keys[i - 1].value == keys[i - 1].value);
            assert(keys[i].value == keys[i].value);
        }
    }
}

proof fn lemma_first_after_is_after(keys: Seq<TimedKey>, frame: u32, from: int)
    requires
        0 <= from <= keys.len(),
    ensures
        first_after(keys, frame, from) < keys.len() ==> !at_most(
            keys[first_after(keys, frame, from)].frame,
            frame,
        ),
        first_after(keys, frame, from) > from ==> at_most(
            keys[first_after(keys, frame, from) - 1].frame,
            frame,
        ),
        from <= first_after(keys, frame, from) <= keys.len(),
    decreases keys.len() - from,
{
    if from < keys.len() && at_most(keys[from].frame, frame) {
        lemma_first_after_is_after(keys, frame, from + 1);
    }
}

/// A key of a track, by the bits of singles.
#[derive(Clone, Copy, Debug, PartialEq, Eq, Structural)]
pub struct TrackPoint {
    pub frame: u32,
    pub value: u32,
}

/// What a channel of a track is at a frame: a value, or a point on the line
/// between two keys.
#[derive(Clone, Copy, Debug, PartialEq, Eq, Structural)]
pub enum ChannelSample {
    Value(u32),
    Between { from: TrackPoint, to: TrackPoint },
}

/// The position of the first key, at or after `from`, that a frame does not
/// lie behind.
pub open spec fn first_not_passed(keys: Seq<TrackPoint>, frame: u32, from: int) -> int
    decreases keys.len() - from,
{
    if from < 0 || from >= keys.len() || at_most(frame, keys[from].frame) {
        from
    } else {
        first_not_passed(keys, frame, from + 1)
    }
}

/// What a channel of a track is at a frame: zero without keys, and the value
/// of the nearest key outside of them.
pub open spec fn channel_at(keys: Seq<TrackPoint>, frame: u32) -> ChannelSample {
    if keys.len() == 0 {
        ChannelSample::Value(ZERO_BITS)
    } else if at_most(frame, keys[0].frame) {
        ChannelSample::Value(keys[0].value)
    } else if at_most(keys.last().frame, frame) {
        ChannelSample::Value(keys.last().value)
    } else {
        let i = first_not_passed(keys, frame, 1);
        if i < keys.len() {
            ChannelSample::Between { from: keys[i - 1], to: keys[i] }
        } else {
            ChannelSample::Value(keys.last().value)
        }
    }
}

/// What a channel of a track is at a frame.
pub fn eval_channel(keys: &Vec<TrackPoint>, frame: u32) -> (r: ChannelSample)
    ensures
        r == channel_at(keys@, frame),
{
    let n: usize = keys.len();
    if n == 0 {
        return ChannelSample::Value(ZERO_BITS);
    }
    let first = keys[0];
    let last = keys[n - 1];
    if single_at_most(frame, first.frame) {
        return ChannelSample::Value(first.value);
    }
    if single_at_most(last.frame, frame) {
        return ChannelSample::Value(last.value);
    }
    let mut i: usize = 1;
    while i < n
        invariant
            1 <= i <= n,
            n == keys@.len(),
            last == keys@.last(),
            !at_most(frame, keys@[0].frame),
            !at_most(keys@.last().frame, frame),
            first_not_passed(keys@, frame, 1) == first_not_passed(keys@, frame, i as int),
        decreases n - i,
    {
        if single_at_most(frame, keys[i].frame) {
            return ChannelSample::Between { from: keys[i - 1], to: keys[i] };
        }
        i += 1;
    }
    ChannelSample::Value(last.value)
}

/// Whether a track moves anything: it lasts, and one of its channels has keys.
pub fn track_moves(length: u32, x: usize, y: usize, z: usize) -> (r: bool)
    ensures
        r == (!at_most(length, ZERO_BITS) && !(x == 0 && y == 0 && z == 0)),
{
    !single_at_most(length, ZERO_BITS) && !(x == 0 && y == 0 && z == 0)
}

} // verus!
