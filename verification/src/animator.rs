//! Playing the animations of a scene's properties.
use vstd::prelude::*;

use crate::animation::{PlayMode, Timeline, TimelineModel};
use crate::copy::{copy_opt, Duplicate};
use crate::script::{ScriptValue, Scripted};
use crate::scripting::{PropTarget, PropUpdate, UpdateModel};
use crate::singles::{
    at_most, below, equal, greater, single_at_most, single_below, single_equal, single_greater,
    widen, widened,
};
use crate::strings::{
    decimal, decimal_of, decimal_of_index, join2, lemma_views_push, opt_view, same_text, views,
};
use crate::value::ZERO_BITS;

verus! {

/// The id that stands for the scene as a whole.
pub const SCENE_OBJECT: i64 = -1;

/// What an animation drives.
#[derive(Debug, PartialEq, Eq)]
pub enum AnimTarget {
    Layer(PropTarget),
    EffectConstant { effect: usize, name: String },
    ParticleOverride(String),
    SceneZoom,
    TextMaxWidth,
}

/// What an [`AnimTarget`] holds.
pub enum Driven {
    Layer(PropTarget),
    EffectConstant { effect: usize, name: Seq<char> },
    ParticleOverride(Seq<char>),
    SceneZoom,
    TextMaxWidth,
}

impl View for AnimTarget {
    type V = Driven;

    open spec fn view(&self) -> Driven {
        match self {
            AnimTarget::Layer(t) => Driven::Layer(*t),
            AnimTarget::EffectConstant { effect, name } => Driven::EffectConstant {
                effect: *effect,
                name: name@,
            },
            AnimTarget::ParticleOverride(name) => Driven::ParticleOverride(name@),
            AnimTarget::SceneZoom => Driven::SceneZoom,
            AnimTarget::TextMaxWidth => Driven::TextMaxWidth,
        }
    }
}

/// A property that is animated. Numbers are the bits of singles.
#[derive(Debug)]
pub struct AnimatedProp {
    pub object_id: i64,
    pub key: String,
    pub target: AnimTarget,
    /// The value that the property has without the animation.
    pub base: Vec<u32>,
    pub anim: Timeline,
    pub pos: u32,
    pub playing: bool,
    pub finished: bool,
    pub rate: u32,
    /// The value that was last handed out.
    pub last: Option<Vec<u32>>,
    /// The position of the animation that this one goes along with.
    pub parent: Option<usize>,
}

/// What an [`AnimatedProp`] holds.
pub struct TrackModel {
    pub object_id: i64,
    pub key: Seq<char>,
    pub target: Driven,
    pub base: Seq<u32>,
    pub anim: TimelineModel,
    pub pos: u32,
    pub playing: bool,
    pub finished: bool,
    pub rate: u32,
    pub last: Option<Seq<u32>>,
    pub parent: Option<usize>,
}

impl View for AnimatedProp {
    type V = TrackModel;

    open spec fn view(&self) -> TrackModel {
        TrackModel {
            object_id: self.object_id,
            key: self.key@,
            target: self.target@,
            base: self.base@,
            anim: self.anim@,
            pos: self.pos,
            playing: self.playing,
            finished: self.finished,
            rate: self.rate,
            last: match self.last {
                Some(v) => Some(v@),
                None => None,
            },
            parent: self.parent,
        }
    }
}

impl AnimatedProp {
    /// A property at the start of its animation.
    pub fn new(object_id: i64, key: String, target: AnimTarget, base: Vec<u32>, anim: Timeline) -> (r:
        Self)
        ensures
            r@ == (TrackModel {
                object_id,
                key: key@,
                target: target@,
                base: base@,
                anim: anim@,
                pos: ZERO_BITS,
                playing: !anim@.startpaused,
                finished: false,
                rate: crate::value::ONE_BITS,
                last: None,
                parent: None,
            }),
    {
        let playing = !anim.startpaused;
        AnimatedProp {
            object_id,
            key,
            target,
            base,
            anim,
            pos: ZERO_BITS,
            playing,
            finished: false,
            rate: crate::value::ONE_BITS,
            last: None,
            parent: None,
        }
    }
}

/// The animations of a scene.
#[derive(Debug)]
pub struct PropertyAnimator {
    pub tracks: Vec<AnimatedProp>,
}

impl View for PropertyAnimator {
    type V = Seq<TrackModel>;

    open spec fn view(&self) -> Seq<TrackModel> {
        views(self.tracks@)
    }
}

/// Whether the animations are in order: one that goes along with another goes
/// along with one that goes along with none, and each has a value to change.
pub open spec fn in_order(tracks: Seq<TrackModel>) -> bool {
    forall|i: int| 0 <= i < tracks.len() ==> #[trigger] stands_right(tracks, i)
}

/// Whether an animation has a value to change, and goes along with none or
/// with one that goes along with none.
pub open spec fn stands_right(tracks: Seq<TrackModel>, i: int) -> bool {
    &&& tracks[i].base.len() > 0
    &&& tracks[i].parent matches Some(p) ==> p < tracks.len() && tracks[p as int].parent is None
}

/// The position of the animation that a property of an object names as the one
/// to go along with, at or after `from`.
pub open spec fn leader_at(
    tracks: Seq<TrackModel>,
    object_id: i64,
    key: Seq<char>,
    from: int,
) -> Option<int>
    decreases tracks.len() - from,
{
    if from < 0 || from >= tracks.len() {
        None
    } else if tracks[from].object_id == object_id && tracks[from].key == key
        && tracks[from].anim.parent is None {
        Some(from)
    } else {
        leader_at(tracks, object_id, key, from + 1)
    }
}

/// The position of the animation that another goes along with.
pub open spec fn leader_of(tracks: Seq<TrackModel>, t: TrackModel) -> Option<int> {
    match t.anim.parent {
        Some(key) => leader_at(tracks, t.object_id, key, 0),
        None => None,
    }
}

/// The position of the animation that another goes along with, and whether it
/// plays at first: as that does.
pub open spec fn link_of(tracks: Seq<TrackModel>, t: TrackModel) -> (Option<usize>, bool) {
    match leader_of(tracks, t) {
        Some(p) => (Some(p as usize), tracks[p].playing),
        None => (None, t.playing),
    }
}

/// An animation that goes along with the one it names.
pub open spec fn linked(tracks: Seq<TrackModel>, t: TrackModel) -> TrackModel {
    TrackModel { parent: link_of(tracks, t).0, playing: link_of(tracks, t).1, ..t }
}

/// All animations, linked.
pub open spec fn all_linked(tracks: Seq<TrackModel>) -> Seq<TrackModel> {
    Seq::new(tracks.len(), |i: int| linked(tracks, tracks[i]))
}

proof fn lemma_leader_at(tracks: Seq<TrackModel>, object_id: i64, key: Seq<char>, from: int)
    requires
        0 <= from,
    ensures
        leader_at(tracks, object_id, key, from) matches Some(i) ==> from <= i < tracks.len()
            && tracks[i].anim.parent is None,
    decreases tracks.len() - from,
{
    if from < tracks.len() && !(tracks[from].object_id == object_id && tracks[from].key == key
        && tracks[from].anim.parent is None) {
        lemma_leader_at(tracks, object_id, key, from + 1);
    }
}

fn find_leader(tracks: &Vec<AnimatedProp>, t: &AnimatedProp) -> (r: Option<usize>)
    ensures
        match r {
            Some(p) => leader_of(views(tracks@), t@) == Some(p as int) && p < tracks@.len(),
            None => leader_of(views(tracks@), t@) is None,
        },
{
    let ghost all = views(tracks@);
    if let Some(key) = &t.anim.parent {
        let mut i: usize = 0;
        while i < tracks.len()
            invariant
                i <= tracks@.len(),
                all == views(tracks@),
                t@.anim.parent == Some(key@),
                leader_at(all, t.object_id, key@, 0) == leader_at(
                    all,
                    t.object_id,
                    key@,
                    i as int,
                ),
            decreases tracks@.len() - i,
        {
            let p = &tracks[i];
            assert(all[i as int] == p@);
            if p.object_id == t.object_id && same_text(p.key.as_str(), key.as_str())
                && p.anim.parent.is_none() {
                return Some(i);
            }
            i += 1;
        }
    }
    None
}

fn find_link(tracks: &Vec<AnimatedProp>, i: usize) -> (r: (Option<usize>, bool))
    requires
        i < tracks@.len(),
    ensures
        r == link_of(views(tracks@), views(tracks@)[i as int]),
{
    let ghost all = views(tracks@);
    assert(all[i as int] == tracks@[i as int]@);
    match find_leader(tracks, &tracks[i]) {
        Some(p) => {
            assert(all[p as int] == tracks@[p as int]@);
            (Some(p), tracks[p].playing)
        },
        None => (None, tracks[i].playing),
    }
}

/// An animation after an order of a script. It starts, over again where it has
/// ended; is held; is taken back to its start; is taken to a frame, zero where
/// that is below it; or takes a speed. Any other word leaves it as it is.
pub open spec fn ordered(t: TrackModel, cmd: Seq<char>, amount: u32) -> TrackModel {
    if cmd == "play"@ {
        TrackModel {
            pos: if t.finished {
                ZERO_BITS
            } else {
                t.pos
            },
            finished: false,
            playing: true,
            ..t
        }
    } else if cmd == "pause"@ {
        TrackModel { playing: false, ..t }
    } else if cmd == "stop"@ {
        TrackModel { playing: false, finished: false, pos: ZERO_BITS, ..t }
    } else if cmd == "setFrame"@ {
        TrackModel { pos: greater(amount, ZERO_BITS), finished: false, ..t }
    } else if cmd == "rate"@ {
        TrackModel { rate: amount, ..t }
    } else {
        t
    }
}

/// Where its own time takes an animation that leads and plays: one that plays
/// once ends at its length.
pub open spec fn moved_to(t: TrackModel, candidate: u32) -> TrackModel {
    if !t.playing || t.parent is Some {
        t
    } else if t.anim.mode == PlayMode::Single && at_most(t.anim.length, candidate) {
        TrackModel { pos: t.anim.length, playing: false, finished: true, ..t }
    } else {
        TrackModel { pos: candidate, ..t }
    }
}

/// An animation that goes along with another is where that is.
pub open spec fn along(tracks: Seq<TrackModel>, t: TrackModel) -> TrackModel {
    match t.parent {
        Some(p) => TrackModel {
            pos: tracks[p as int].pos,
            playing: tracks[p as int].playing,
            finished: tracks[p as int].finished,
            ..t
        },
        None => t,
    }
}

/// The animations once those that lead have moved.
pub open spec fn leaders_moved(tracks: Seq<TrackModel>, candidates: Seq<u32>) -> Seq<TrackModel> {
    Seq::new(tracks.len(), |i: int| moved_to(tracks[i], candidates[i]))
}

/// The animations once those that go along with others are where those are.
pub open spec fn all_along(tracks: Seq<TrackModel>) -> Seq<TrackModel> {
    Seq::new(tracks.len(), |i: int| along(tracks, tracks[i]))
}

/// The animations once all have moved.
pub open spec fn all_moved(tracks: Seq<TrackModel>, candidates: Seq<u32>) -> Seq<TrackModel> {
    all_along(leaders_moved(tracks, candidates))
}

/// Whether a frame is passed on the way from one to another; a way back leads
/// round the end.
pub open spec fn crossed(prev: u32, now: u32, frame: u32) -> bool {
    if at_most(prev, now) {
        below(prev, frame) && at_most(frame, now)
    } else {
        below(prev, frame) || at_most(frame, now)
    }
}

/// The events that an animation passes among its first `k`.
pub open spec fn events_passed(
    object_id: i64,
    events: Seq<(u32, Seq<char>)>,
    prev: u32,
    now: u32,
    k: int,
) -> Seq<(i64, Seq<char>, u32)>
    decreases k,
{
    if k <= 0 {
        Seq::empty()
    } else {
        let before = events_passed(object_id, events, prev, now, k - 1);
        let e = events[k - 1];
        if crossed(prev, now, e.0) {
            before.push((object_id, e.1, e.0))
        } else {
            before
        }
    }
}

/// The events that the first `k` animations pass; only one that leads and
/// plays passes any.
pub open spec fn all_events(
    tracks: Seq<TrackModel>,
    prev: Seq<u32>,
    now: Seq<u32>,
    k: int,
) -> Seq<(i64, Seq<char>, u32)>
    decreases k,
{
    if k <= 0 {
        Seq::empty()
    } else {
        let before = all_events(tracks, prev, now, k - 1);
        let t = tracks[k - 1];
        if t.playing && t.parent is None {
            before + events_passed(
                t.object_id,
                t.anim.events,
                prev[k - 1],
                now[k - 1],
                t.anim.events.len() as int,
            )
        } else {
            before
        }
    }
}

/// Whether two values are equal, component by component.
pub open spec fn same_value(a: Seq<u32>, b: Seq<u32>) -> bool {
    a.len() == b.len() && forall|i: int| 0 <= i < a.len() ==> equal(#[trigger] a[i], b[i])
}

/// A value as a script sees it.
pub open spec fn track_value(target: Driven, v: Seq<u32>) -> Scripted {
    let vector = target == Driven::Layer(PropTarget::Color) || target == Driven::Layer(
        PropTarget::Origin,
    ) || target == Driven::Layer(PropTarget::Scale) || target == Driven::Layer(PropTarget::Angles);
    if v.len() >= 3 && vector {
        Scripted::Vec3([v[0], v[1], v[2]])
    } else if v.len() >= 4 {
        Scripted::Vec4([v[0], v[1], v[2], v[3]])
    } else if v.len() == 3 {
        Scripted::Vec3([v[0], v[1], v[2]])
    } else if v.len() == 2 {
        Scripted::Vec2([v[0], v[1]])
    } else if v.len() == 1 {
        Scripted::Float(widened(v[0]) as u64)
    } else {
        Scripted::Null
    }
}

/// What animations set in a frame. Numbers are the bits of singles.
#[derive(Debug)]
pub struct AnimOutput {
    pub updates: Vec<PropUpdate>,
    pub overrides: Vec<(String, ScriptValue)>,
    pub effect: Vec<(i64, usize, String, ScriptValue)>,
    pub particle: Vec<(i64, String, u32)>,
    pub zoom: Option<u32>,
    pub text_width: Vec<(i64, u32)>,
}

/// What an [`AnimOutput`] holds.
pub struct OutputModel {
    pub updates: Seq<UpdateModel>,
    pub overrides: Seq<(Seq<char>, Scripted)>,
    pub effect: Seq<(i64, usize, Seq<char>, Scripted)>,
    pub particle: Seq<(i64, Seq<char>, u32)>,
    pub zoom: Option<u32>,
    pub text_width: Seq<(i64, u32)>,
}

impl View for AnimOutput {
    type V = OutputModel;

    open spec fn view(&self) -> OutputModel {
        OutputModel {
            updates: views(self.updates@),
            overrides: views(self.overrides@),
            effect: views(self.effect@),
            particle: views(self.particle@),
            zoom: self.zoom,
            text_width: self.text_width@,
        }
    }
}

/// Nothing set.
pub open spec fn no_output() -> OutputModel {
    OutputModel {
        updates: Seq::empty(),
        overrides: Seq::empty(),
        effect: Seq::empty(),
        particle: Seq::empty(),
        zoom: None,
        text_width: Seq::empty(),
    }
}

/// The name under which scripts know an animated property.
pub open spec fn override_name(t: TrackModel) -> Seq<char> {
    match t.target {
        Driven::EffectConstant { effect, name } => "fx"@ + decimal(effect as int) + name + "_"@
            + decimal(t.object_id as int),
        _ => t.key + "_"@ + decimal(t.object_id as int),
    }
}

/// What is set once an animation hands out a value.
pub open spec fn with_track(o: OutputModel, t: TrackModel, v: Seq<u32>) -> OutputModel {
    let value = track_value(t.target, v);
    match t.target {
        Driven::Layer(target) => OutputModel {
            overrides: o.overrides.push((override_name(t), value)),
            updates: o.updates.push(
                UpdateModel { object_id: t.object_id, target, value, in_degrees: false },
            ),
            ..o
        },
        Driven::EffectConstant { effect, name } => OutputModel {
            overrides: o.overrides.push((override_name(t), value)),
            effect: o.effect.push((t.object_id, effect, name, value)),
            ..o
        },
        Driven::ParticleOverride(name) => OutputModel {
            particle: o.particle.push((t.object_id, name, v[0])),
            ..o
        },
        Driven::SceneZoom => OutputModel { zoom: Some(v[0]), ..o },
        Driven::TextMaxWidth => OutputModel {
            text_width: o.text_width.push((t.object_id, v[0])),
            ..o
        },
    }
}

/// Whether an animation hands out a value: it is not the last one again.
pub open spec fn hands_out(t: TrackModel, v: Seq<u32>) -> bool {
    !(t.last matches Some(l) && same_value(l, v))
}

/// What the first `k` animations set.
pub open spec fn output_upto(tracks: Seq<TrackModel>, values: Seq<Seq<u32>>, k: int) -> OutputModel
    decreases k,
{
    if k <= 0 {
        no_output()
    } else {
        let before = output_upto(tracks, values, k - 1);
        if hands_out(tracks[k - 1], values[k - 1]) {
            with_track(before, tracks[k - 1], values[k - 1])
        } else {
            before
        }
    }
}

/// An animation that remembers the value it handed out.
pub open spec fn remembering(t: TrackModel, v: Seq<u32>) -> TrackModel {
    if hands_out(t, v) {
        TrackModel { last: Some(v), ..t }
    } else {
        t
    }
}

/// The animations, each remembering the value it handed out.
pub open spec fn all_remembering(tracks: Seq<TrackModel>, values: Seq<Seq<u32>>) -> Seq<TrackModel> {
    Seq::new(tracks.len(), |i: int| remembering(tracks[i], values[i]))
}

/// The lists that a list of lists holds.
pub open spec fn number_lists(s: Seq<Vec<u32>>) -> Seq<Seq<u32>> {
    Seq::new(s.len(), |i: int| s[i]@)
}

fn values_agree(a: &Vec<u32>, b: &Vec<u32>) -> (r: bool)
    ensures
        r == same_value(a@, b@),
{
    if a.len() != b.len() {
        return false;
    }
    let mut i: usize = 0;
    while i < a.len()
        invariant
            i <= a@.len(),
            a@.len() == b@.len(),
            forall|j: int| 0 <= j < i ==> equal(#[trigger] a@[j], b@[j]),
        decreases a@.len() - i,
    {
        if !single_equal(a[i], b[i]) {
            return false;
        }
        i += 1;
    }
    true
}

fn value_of(target: &AnimTarget, v: &Vec<u32>) -> (r: ScriptValue)
    ensures
        r@ == track_value(target@, v@),
{
    let vector = match target {
        AnimTarget::Layer(t) => match t {
            PropTarget::Color | PropTarget::Origin | PropTarget::Scale | PropTarget::Angles => true,
            _ => false,
        },
        _ => false,
    };
    let n: usize = v.len();
    if n >= 3 && vector {
        ScriptValue::Vec3([v[0], v[1], v[2]])
    } else if n >= 4 {
        ScriptValue::Vec4([v[0], v[1], v[2], v[3]])
    } else if n == 3 {
        ScriptValue::Vec3([v[0], v[1], v[2]])
    } else if n == 2 {
        ScriptValue::Vec2([v[0], v[1]])
    } else if n == 1 {
        ScriptValue::Float(widen(v[0]))
    } else {
        ScriptValue::Null
    }
}

impl AnimOutput {
    fn new() -> (r: Self)
        ensures
            r@ == no_output(),
    {
        let r = AnimOutput {
            updates: Vec::new(),
            overrides: Vec::new(),
            effect: Vec::new(),
            particle: Vec::new(),
            zoom: None,
            text_width: Vec::new(),
        };
        assert(views(r.updates@) =~= Seq::empty());
        assert(views(r.overrides@) =~= Seq::empty());
        assert(views(r.effect@) =~= Seq::empty());
        assert(views(r.particle@) =~= Seq::empty());
        assert(r.text_width@ =~= Seq::empty());
        r
    }

    fn record(&mut self, t: &AnimatedProp, v: &Vec<u32>)
        requires
            v@.len() > 0,
        ensures
            final(self)@ == with_track(old(self)@, t@, v@),
    {
        broadcast use lemma_views_push;

        let value = value_of(&t.target, v);
        let id = decimal_of(t.object_id);
        match &t.target {
            AnimTarget::Layer(target) => {
                let stem = join2(t.key.as_str(), "_");
                let name = join2(stem.as_str(), id.as_str());
                assert(name@ == override_name(t@));
                let told = (name, value.duplicate());
                assert(told@ == (name@, value@));
                self.overrides.push(told);
                self.updates.push(
                    PropUpdate { object_id: t.object_id, target: *target, value, in_degrees: false },
                );
            },
            AnimTarget::EffectConstant { effect, name } => {
                let number = decimal_of_index(*effect);
                let a = join2("fx", number.as_str());
                let b = join2(a.as_str(), name.as_str());
                let c = join2(b.as_str(), "_");
                let d = join2(c.as_str(), id.as_str());
                assert(d@ == override_name(t@));
                let told = (d, value.duplicate());
                assert(told@ == (d@, value@));
                self.overrides.push(told);
                let set = (t.object_id, *effect, name.clone(), value);
                assert(set@ == (t.object_id, *effect, name@, value@));
                self.effect.push(set);
            },
            AnimTarget::ParticleOverride(name) => {
                let set = (t.object_id, name.clone(), v[0]);
                assert(set@ == (t.object_id, name@, v@[0]));
                self.particle.push(set);
            },
            AnimTarget::SceneZoom => {
                self.zoom = Some(v[0]);
            },
            AnimTarget::TextMaxWidth => {
                self.text_width.push((t.object_id, v[0]));
            },
        }
    }
}

impl AnimatedProp {
    fn move_to(&mut self, candidate: u32)
        ensures
            final(self)@ == moved_to(old(self)@, candidate),
    {
        if self.playing && self.parent.is_none() {
            let length = self.anim.length;
            let ends = match self.anim.mode {
                PlayMode::Single => single_at_most(length, candidate),
                _ => false,
            };
            if ends {
                self.pos = length;
                self.playing = false;
                self.finished = true;
            } else {
                self.pos = candidate;
            }
        }
    }

    fn follow(&mut self, pos: u32, playing: bool, finished: bool)
        ensures
            final(self)@ == (TrackModel { pos, playing, finished, ..old(self)@ }),
    {
        self.pos = pos;
        self.playing = playing;
        self.finished = finished;
    }

    fn has_news(&self, v: &Vec<u32>) -> (r: bool)
        ensures
            r == hands_out(self@, v@),
    {
        match &self.last {
            Some(l) => !values_agree(l, v),
            None => true,
        }
    }

    fn remember(&mut self, v: &Vec<u32>)
        ensures
            final(self)@ == remembering(old(self)@, v@),
    {
        if self.has_news(v) {
            let kept = v.clone();
            assert(kept@ =~= v@);
            self.last = Some(kept);
        }
    }
}

/// The position of the animation that leads one: itself, or the one that it
/// goes along with.
pub open spec fn root_of(tracks: Seq<TrackModel>, i: int) -> int {
    if 0 <= i < tracks.len() {
        match tracks[i].parent {
            Some(p) => p as int,
            None => i,
        }
    } else {
        i
    }
}

/// The animations with one of them changed, if it is there.
pub open spec fn with_changed(tracks: Seq<TrackModel>, i: int, t: TrackModel) -> Seq<TrackModel> {
    if 0 <= i < tracks.len() {
        tracks.update(i, t)
    } else {
        tracks
    }
}

/// Whether an animation is a match for a name; every one is for none.
pub open spec fn answers_to(t: TrackModel, name: Option<Seq<char>>) -> bool {
    match name {
        Some(n) => t.anim.name == Some(n),
        None => true,
    }
}

/// The positions of the leading animations among the first `k`, of an object
/// or of all, that answer to a name.
pub open spec fn found_upto(
    tracks: Seq<TrackModel>,
    object_id: Option<i64>,
    name: Option<Seq<char>>,
    k: int,
) -> Seq<usize>
    decreases k,
{
    if k <= 0 {
        Seq::empty()
    } else {
        let before = found_upto(tracks, object_id, name, k - 1);
        let t = tracks[k - 1];
        if t.parent is None && answers_to(t, name) && (object_id matches Some(id) ==> t.object_id
            == id) {
            before.push((k - 1) as usize)
        } else {
            before
        }
    }
}

fn move_leaders(tracks: &mut Vec<AnimatedProp>, candidates: &Vec<u32>)
    requires
        candidates@.len() == old(tracks)@.len(),
    ensures
        views(final(tracks)@) == leaders_moved(views(old(tracks)@), candidates@),
{
    let ghost start = views(tracks@);
    let n: usize = tracks.len();
    let mut i: usize = 0;
    while i < n
        invariant
            i <= n,
            n == tracks@.len(),
            n == start.len(),
            candidates@.len() == n,
            forall|j: int|
                0 <= j < i ==> (#[trigger] tracks@[j])@ == moved_to(start[j], candidates@[j]),
            forall|j: int| i <= j < n ==> (#[trigger] tracks@[j])@ == start[j],
        decreases n - i,
    {
        assert(tracks@[i as int]@ == start[i as int]);
        tracks[i].move_to(candidates[i]);
        i += 1;
    }
    assert(views(tracks@) =~= leaders_moved(start, candidates@));
}

fn follow_leaders(tracks: &mut Vec<AnimatedProp>)
    requires
        in_order(views(old(tracks)@)),
    ensures
        views(final(tracks)@) == all_along(views(old(tracks)@)),
{
    let ghost led = views(tracks@);
    let n: usize = tracks.len();
    let mut k: usize = 0;
    while k < n
        invariant
            k <= n,
            n == tracks@.len(),
            n == led.len(),
            in_order(led),
            forall|j: int| 0 <= j < k ==> (#[trigger] tracks@[j])@ == along(led, led[j]),
            forall|j: int| k <= j < n ==> (#[trigger] tracks@[j])@ == led[j],
        decreases n - k,
    {
        assert(tracks@[k as int]@ == led[k as int]);
        if let Some(p) = tracks[k].parent {
            assert(stands_right(led, k as int));
            assert(led[k as int].parent == Some(p));
            assert(tracks@[p as int]@ == led[p as int]);
            let pos = tracks[p].pos;
            let playing = tracks[p].playing;
            let finished = tracks[p].finished;
            tracks[k].follow(pos, playing, finished);
        }
        k += 1;
    }
    assert(views(tracks@) =~= all_along(led));
}

fn remember_all(tracks: &mut Vec<AnimatedProp>, values: &Vec<Vec<u32>>)
    requires
        values@.len() == old(tracks)@.len(),
    ensures
        views(final(tracks)@) == all_remembering(views(old(tracks)@), number_lists(values@)),
{
    let ghost start = views(tracks@);
    let ghost lists = number_lists(values@);
    let ghost goal = all_remembering(start, lists);
    let n: usize = tracks.len();
    let mut i: usize = 0;
    while i < n
        invariant
            i <= n,
            n == tracks@.len(),
            n == start.len(),
            values@.len() == n,
            lists == number_lists(values@),
            goal == all_remembering(start, lists),
            forall|j: int| 0 <= j < i ==> (#[trigger] tracks@[j])@ == goal[j],
            forall|j: int| i <= j < n ==> (#[trigger] tracks@[j])@ == start[j],
        decreases n - i,
    {
        assert(tracks@[i as int]@ == start[i as int]);
        let v = &values[i];
        assert(lists[i as int] == v@);
        tracks[i].remember(v);
        i += 1;
    }
    assert(views(tracks@) =~= goal);
}

impl PropertyAnimator {
    /// Puts animations together; none if there is none. Those that name
    /// another to go along with do.
    pub fn build(tracks: Vec<AnimatedProp>) -> (r: Option<Self>)
        requires
            forall|i: int| 0 <= i < tracks@.len() ==> (#[trigger] tracks@[i])@.base.len() > 0,
        ensures
            match r {
                Some(a) => tracks@.len() > 0 && a@ == all_linked(views(tracks@)) && in_order(a@),
                None => tracks@.len() == 0,
            },
    {
        let mut tracks = tracks;
        let ghost start = views(tracks@);
        let n: usize = tracks.len();
        if n == 0 {
            return None;
        }
        let mut links: Vec<(Option<usize>, bool)> = Vec::new();
        let mut i: usize = 0;
        while i < n
            invariant
                i <= n,
                n == tracks@.len(),
                start == views(tracks@),
                links@.len() == i,
                forall|j: int| 0 <= j < i ==> #[trigger] links@[j] == link_of(start, start[j]),
            decreases n - i,
        {
            let link = find_link(&tracks, i);
            links.push(link);
            i += 1;
        }
        let mut k: usize = 0;
        while k < n
            invariant
                k <= n,
                n == tracks@.len(),
                n == start.len(),
                links@.len() == n,
                forall|j: int| 0 <= j < n ==> #[trigger] links@[j] == link_of(start, start[j]),
                forall|j: int| 0 <= j < k ==> (#[trigger] tracks@[j])@ == linked(start, start[j]),
                forall|j: int| k <= j < n ==> (#[trigger] tracks@[j])@ == start[j],
            decreases n - k,
        {
            assert(tracks@[k as int]@ == start[k as int]);
            assert(links@[k as int] == link_of(start, start[k as int]));
            let (parent, playing) = links[k];
            tracks[k].parent = parent;
            tracks[k].playing = playing;
            k += 1;
        }
        proof {
            assert(views(tracks@) =~= all_linked(start));
            assert forall|j: int| 0 <= j < n implies (#[trigger] all_linked(start)[j]).base.len() > 0
                && (all_linked(start)[j].parent matches Some(p) ==> p < n && all_linked(
                start,
            )[p as int].parent is None) by {
                if let Some(key) = start[j].anim.parent {
                    lemma_leader_at(start, start[j].object_id, key, 0);
                }
            }
        }
        Some(PropertyAnimator { tracks })
    }

    /// Moves the animations: `candidates` holds, for each, where its own time
    /// would take it. One that plays once stops at its end; one that goes
    /// along with another goes where that goes.
    pub fn advance(&mut self, candidates: &Vec<u32>)
        requires
            in_order(old(self)@),
            candidates@.len() == old(self)@.len(),
        ensures
            final(self)@ == all_moved(old(self)@, candidates@),
            in_order(final(self)@),
    {
        let ghost start = self@;
        move_leaders(&mut self.tracks, candidates);
        let ghost led = self@;
        proof {
            lemma_in_order_stays(start, led);
        }
        follow_leaders(&mut self.tracks);
        proof {
            assert(self@ =~= all_moved(start, candidates@));
            lemma_in_order_stays(led, self@);
        }
    }

    /// The events that the animations pass on their way from one frame to
    /// another; asked of them as they were before they moved.
    pub fn events(&self, prev: &Vec<u32>, now: &Vec<u32>) -> (r: Vec<(i64, String, u32)>)
        requires
            prev@.len() == self@.len(),
            now@.len() == self@.len(),
        ensures
            views(r@) == all_events(self@, prev@, now@, self@.len() as int),
    {
        let ghost all = self@;
        let mut out: Vec<(i64, String, u32)> = Vec::new();
        let mut i: usize = 0;
        assert(views(out@) =~= Seq::empty());
        while i < self.tracks.len()
            invariant
                i <= self.tracks@.len(),
                all == views(self.tracks@),
                prev@.len() == all.len(),
                now@.len() == all.len(),
                views(out@) == all_events(all, prev@, now@, i as int),
            decreases self.tracks@.len() - i,
        {
            let t = &self.tracks[i];
            assert(all[i as int] == t@);
            if t.playing && t.parent.is_none() {
                let ghost before = views(out@);
                let (from, to) = (prev[i], now[i]);
                let mut k: usize = 0;
                assert(before + events_passed(t.object_id, t@.anim.events, from, to, 0) =~= before);
                while k < t.anim.events.len()
                    invariant
                        k <= t.anim.events@.len(),
                        t@.anim.events == views(t.anim.events@),
                        views(out@) == before + events_passed(
                            t.object_id,
                            t@.anim.events,
                            from,
                            to,
                            k as int,
                        ),
                    decreases t.anim.events@.len() - k,
                {
                    let frame = t.anim.events[k].0;
                    assert(t@.anim.events[k as int] == (frame, t.anim.events@[k as int].1@));
                    let passes = if single_at_most(from, to) {
                        single_below(from, frame) && single_at_most(frame, to)
                    } else {
                        single_below(from, frame) || single_at_most(frame, to)
                    };
                    if passes {
                        let e = (t.object_id, t.anim.events[k].1.clone(), frame);
                        proof {
                            lemma_views_push(out@, e);
                            assert((before + events_passed(
                                t.object_id,
                                t@.anim.events,
                                from,
                                to,
                                k as int,
                            )).push(e@) =~= before + events_passed(
                                t.object_id,
                                t@.anim.events,
                                from,
                                to,
                                k + 1,
                            ));
                        }
                        out.push(e);
                    }
                    k += 1;
                }
            }
            i += 1;
        }
        out
    }

    /// Hands out the values that have changed. `values` holds, for each
    /// animation, what it is now.
    pub fn publish(&mut self, values: &Vec<Vec<u32>>) -> (r: AnimOutput)
        requires
            in_order(old(self)@),
            values@.len() == old(self)@.len(),
            forall|i: int| 0 <= i < values@.len() ==> (#[trigger] values@[i])@.len() > 0,
        ensures
            r@ == output_upto(old(self)@, number_lists(values@), old(self)@.len() as int),
            final(self)@ == all_remembering(old(self)@, number_lists(values@)),
            in_order(final(self)@),
    {
        let ghost start = self@;
        let out = self.output(values);
        remember_all(&mut self.tracks, values);
        proof {
            lemma_in_order_stays(start, self@);
        }
        out
    }

    fn output(&self, values: &Vec<Vec<u32>>) -> (out: AnimOutput)
        requires
            values@.len() == self@.len(),
            forall|i: int| 0 <= i < values@.len() ==> (#[trigger] values@[i])@.len() > 0,
        ensures
            out@ == output_upto(self@, number_lists(values@), self@.len() as int),
    {
        let ghost all = self@;
        let ghost lists = number_lists(values@);
        let mut out = AnimOutput::new();
        let mut i: usize = 0;
        while i < self.tracks.len()
            invariant
                i <= self.tracks@.len(),
                all == views(self.tracks@),
                values@.len() == all.len(),
                lists == number_lists(values@),
                forall|j: int| 0 <= j < values@.len() ==> (#[trigger] values@[j])@.len() > 0,
                out@ == output_upto(all, lists, i as int),
            decreases self.tracks@.len() - i,
        {
            let t = &self.tracks[i];
            let v = &values[i];
            assert(all[i as int] == t@);
            assert(lists[i as int] == v@);
            if t.has_news(v) {
                out.record(t, v);
            }
            i += 1;
        }
        out
    }

    /// The positions of the leading animations of an object that answer to a
    /// name, or of all of them without one.
    pub fn find(&self, object_id: i64, name: Option<&str>) -> (r: Vec<usize>)
        ensures
            r@ == found_upto(
                self@,
                Some(object_id),
                match name {
                    Some(n) => Some(n@),
                    None => None,
                },
                self@.len() as int,
            ),
    {
        let ghost all = self@;
        let ghost wanted: Option<Seq<char>> = match name {
            Some(n) => Some(n@),
            None => None,
        };
        let mut out: Vec<usize> = Vec::new();
        let mut i: usize = 0;
        while i < self.tracks.len()
            invariant
                i <= self.tracks@.len(),
                all == views(self.tracks@),
                wanted == (match name {
                    Some(n) => Some(n@),
                    None => None,
                }),
                out@ == found_upto(all, Some(object_id), wanted, i as int),
            decreases self.tracks@.len() - i,
        {
            let t = &self.tracks[i];
            assert(all[i as int] == t@);
            let named = match name {
                Some(n) => match &t.anim.name {
                    Some(own) => same_text(own.as_str(), n),
                    None => false,
                },
                None => true,
            };
            if t.object_id == object_id && t.parent.is_none() && named {
                out.push(i);
            }
            i += 1;
        }
        out
    }

    /// The positions of the leading animations that answer to a name.
    pub fn find_by_name(&self, name: &str) -> (r: Vec<usize>)
        ensures
            r@ == found_upto(self@, None, Some(name@), self@.len() as int),
    {
        let ghost all = self@;
        let mut out: Vec<usize> = Vec::new();
        let mut i: usize = 0;
        while i < self.tracks.len()
            invariant
                i <= self.tracks@.len(),
                all == views(self.tracks@),
                out@ == found_upto(all, None, Some(name@), i as int),
            decreases self.tracks@.len() - i,
        {
            let t = &self.tracks[i];
            assert(all[i as int] == t@);
            let named = match &t.anim.name {
                Some(own) => same_text(own.as_str(), name),
                None => false,
            };
            if t.parent.is_none() && named {
                out.push(i);
            }
            i += 1;
        }
        out
    }

    fn root(&self, idx: usize) -> (r: usize)
        requires
            in_order(self@),
        ensures
            r == root_of(self@, idx as int),
    {
        if idx < self.tracks.len() {
            assert(self@[idx as int] == self.tracks@[idx as int]@);
            if let Some(p) = self.tracks[idx].parent {
                return p;
            }
        }
        idx
    }

    /// Starts an animation; one that has ended starts over.
    pub fn play(&mut self, idx: usize)
        requires
            in_order(old(self)@),
        ensures
            final(self)@ == ({
                let r = root_of(old(self)@, idx as int);
                let t = old(self)@[r];
                with_changed(
                    old(self)@,
                    r,
                    TrackModel {
                        pos: if t.finished {
                            ZERO_BITS
                        } else {
                            t.pos
                        },
                        finished: false,
                        playing: true,
                        ..t
                    },
                )
            }),
            in_order(final(self)@),
    {
        let ghost start = self@;
        let r = self.root(idx);
        if r < self.tracks.len() {
            assert(start[r as int] == self.tracks@[r as int]@);
            if self.tracks[r].finished {
                self.tracks[r].pos = ZERO_BITS;
                self.tracks[r].finished = false;
            }
            self.tracks[r].playing = true;
            assert(self@ =~= start.update(r as int, self.tracks@[r as int]@));
            proof {
                lemma_in_order_stays(start, self@);
            }
        }
    }

    /// Holds an animation where it is.
    pub fn pause(&mut self, idx: usize)
        requires
            in_order(old(self)@),
        ensures
            final(self)@ == ({
                let r = root_of(old(self)@, idx as int);
                with_changed(old(self)@, r, TrackModel { playing: false, ..old(self)@[r] })
            }),
            in_order(final(self)@),
    {
        let ghost start = self@;
        let r = self.root(idx);
        if r < self.tracks.len() {
            assert(start[r as int] == self.tracks@[r as int]@);
            self.tracks[r].playing = false;
            assert(self@ =~= start.update(r as int, self.tracks@[r as int]@));
            proof {
                lemma_in_order_stays(start, self@);
            }
        }
    }

    /// Takes an animation back to its start, and holds it there.
    pub fn stop(&mut self, idx: usize)
        requires
            in_order(old(self)@),
        ensures
            final(self)@ == ({
                let r = root_of(old(self)@, idx as int);
                with_changed(
                    old(self)@,
                    r,
                    TrackModel {
                        playing: false,
                        finished: false,
                        pos: ZERO_BITS,
                        ..old(self)@[r]
                    },
                )
            }),
            in_order(final(self)@),
    {
        let ghost start = self@;
        let r = self.root(idx);
        if r < self.tracks.len() {
            assert(start[r as int] == self.tracks@[r as int]@);
            self.tracks[r].playing = false;
            self.tracks[r].finished = false;
            self.tracks[r].pos = ZERO_BITS;
            assert(self@ =~= start.update(r as int, self.tracks@[r as int]@));
            proof {
                lemma_in_order_stays(start, self@);
            }
        }
    }

    /// Takes an animation to a frame, zero where that is below it.
    pub fn set_frame(&mut self, idx: usize, frame: u32)
        requires
            in_order(old(self)@),
        ensures
            final(self)@ == ({
                let r = root_of(old(self)@, idx as int);
                with_changed(
                    old(self)@,
                    r,
                    TrackModel {
                        pos: greater(frame, ZERO_BITS),
                        finished: false,
                        ..old(self)@[r]
                    },
                )
            }),
            in_order(final(self)@),
    {
        let ghost start = self@;
        let r = self.root(idx);
        if r < self.tracks.len() {
            assert(start[r as int] == self.tracks@[r as int]@);
            self.tracks[r].pos = single_greater(frame, ZERO_BITS);
            self.tracks[r].finished = false;
            assert(self@ =~= start.update(r as int, self.tracks@[r as int]@));
            proof {
                lemma_in_order_stays(start, self@);
            }
        }
    }

    pub fn set_rate(&mut self, idx: usize, rate: u32)
        requires
            in_order(old(self)@),
        ensures
            final(self)@ == ({
                let r = root_of(old(self)@, idx as int);
                with_changed(old(self)@, r, TrackModel { rate, ..old(self)@[r] })
            }),
            in_order(final(self)@),
    {
        let ghost start = self@;
        let r = self.root(idx);
        if r < self.tracks.len() {
            assert(start[r as int] == self.tracks@[r as int]@);
            self.tracks[r].rate = rate;
            assert(self@ =~= start.update(r as int, self.tracks@[r as int]@));
            proof {
                lemma_in_order_stays(start, self@);
            }
        }
    }

    /// Does to an animation what a script orders. `amount` is the frame or the
    /// speed that goes with the order, as the bits of a single.
    pub fn command(&mut self, track: u32, cmd: &str, amount: u32)
        requires
            in_order(old(self)@),
        ensures
            final(self)@ == ({
                let r = root_of(old(self)@, track as int);
                with_changed(old(self)@, r, ordered(old(self)@[r], cmd@, amount))
            }),
            in_order(final(self)@),
    {
        let ghost start = self@;
        let idx: usize = track as usize;
        if same_text(cmd, "play") {
            self.play(idx);
        } else if same_text(cmd, "pause") {
            self.pause(idx);
        } else if same_text(cmd, "stop") {
            self.stop(idx);
        } else if same_text(cmd, "setFrame") {
            self.set_frame(idx, amount);
        } else if same_text(cmd, "rate") {
            self.set_rate(idx, amount);
        } else {
            let ghost r = root_of(start, idx as int);
            assert(with_changed(start, r, start[r]) =~= start);
        }
    }

    pub fn is_playing(&self, idx: usize) -> (b: bool)
        requires
            in_order(self@),
        ensures
            b == ({
                let r = root_of(self@, idx as int);
                r < self@.len() && self@[r].playing
            }),
    {
        let r = self.root(idx);
        if r < self.tracks.len() {
            assert(self@[r as int] == self.tracks@[r as int]@);
            self.tracks[r].playing
        } else {
            false
        }
    }

    /// The rate of frames, the length, the speed and the name of an animation.
    pub fn info(&self, idx: usize) -> (i: Option<(u32, u32, u32, Option<String>)>)
        requires
            in_order(self@),
        ensures
            ({
                let r = root_of(self@, idx as int);
                match i {
                    Some(x) => r < self@.len() && x.0 == self@[r].anim.fps && x.1
                        == self@[r].anim.length && x.2 == self@[r].rate && opt_view(x.3)
                        == self@[r].anim.name,
                    None => r >= self@.len(),
                }
            }),
    {
        let r = self.root(idx);
        if r < self.tracks.len() {
            assert(self@[r as int] == self.tracks@[r as int]@);
            let t = &self.tracks[r];
            Some((t.anim.fps, t.anim.length, t.rate, copy_opt(&t.anim.name)))
        } else {
            None
        }
    }
}

proof fn lemma_in_order_stays(before: Seq<TrackModel>, now: Seq<TrackModel>)
    requires
        in_order(before),
        now.len() == before.len(),
        forall|i: int|
            0 <= i < now.len() ==> (#[trigger] now[i]).parent == before[i].parent && now[i].base
                == before[i].base,
    ensures
        in_order(now),
{
    assert forall|j: int| 0 <= j < now.len() implies #[trigger] stands_right(now, j) by {
        assert(stands_right(before, j));
        assert(now[j].parent == before[j].parent);
        if let Some(p) = before[j].parent {
            assert(before[p as int].parent is None);
            assert(now[p as int].parent == before[p as int].parent);
        }
    }
}

/// An animation that goes along with another is, after every move, where that
/// one is, and plays or has ended as that has.
pub proof fn law_followers_go_along(tracks: Seq<TrackModel>, candidates: Seq<u32>, i: int)
    requires
        in_order(tracks),
        candidates.len() == tracks.len(),
        0 <= i < tracks.len(),
        tracks[i].parent is Some,
    ensures
        ({
            let now = all_moved(tracks, candidates);
            let p = tracks[i].parent->0 as int;
            now[i].pos == now[p].pos && now[i].playing == now[p].playing && now[i].finished
                == now[p].finished
        }),
{
    let p = tracks[i].parent->0 as int;
    assert(stands_right(tracks, i));
    let led = leaders_moved(tracks, candidates);
    assert(led[p].parent is None);
    assert(led[i].parent == tracks[i].parent);
}

/// An animation that is held stays where it is, whatever its time would make
/// of it.
pub proof fn law_held_animations_stay(tracks: Seq<TrackModel>, candidates: Seq<u32>, i: int)
    requires
        in_order(tracks),
        candidates.len() == tracks.len(),
        0 <= i < tracks.len(),
        tracks[i].parent is None,
        !tracks[i].playing,
    ensures
        all_moved(tracks, candidates)[i] == tracks[i],
{
}

/// An animation that plays once ends at its length and holds there; started
/// again, it is back at its start.
pub proof fn law_single_animations_end(t: TrackModel, candidate: u32, later: u32)
    requires
        t.anim.mode == PlayMode::Single,
        t.playing,
        t.parent is None,
        at_most(t.anim.length, candidate),
    ensures
        ({
            let ended = moved_to(t, candidate);
            ended.pos == t.anim.length && !ended.playing && ended.finished && moved_to(ended, later)
                == ended
        }),
{
}

/// A value that has been handed out is not handed out again while it stays
/// the same, unless a component of it is not a number.
pub proof fn law_values_are_handed_out_once(t: TrackModel, v: Seq<u32>)
    requires
        forall|i: int| 0 <= i < v.len() ==> !crate::singles::is_nan(#[trigger] v[i]),
    ensures
        !hands_out(remembering(t, v), v),
{
    let now = remembering(t, v);
    if hands_out(t, v) {
        assert(same_value(v, v));
    }
}

} // verus!
