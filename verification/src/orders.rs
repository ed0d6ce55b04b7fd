//! What scripts order videos and particle systems to do.
use vstd::prelude::*;

use crate::copy::Duplicate;
use crate::frame::VideoState;
use crate::items::{ItemModel, SceneItem};
use crate::script::{as_f32, as_vec3, number_of, vector_of};
use crate::scripting::{ParticleOp, ParticleRequest};
use crate::strings::{
    chars_of, digit_char, has_prefix, is_digit, lemma_views_push, same_text, starts_with, views,
};
use crate::value::{digits_value, Number, Scalar, Vec3};

verus! {

/// The index that decimal digits stand for, if they are some and it is one.
pub open spec fn plain_index(d: Seq<char>) -> Option<usize> {
    if d.len() > 0 && (forall|i: int| 0 <= i < d.len() ==> digit_char(#[trigger] d[i]))
        && digits_value(d) <= usize::MAX {
        Some(digits_value(d) as usize)
    } else {
        None
    }
}

/// The index that a text stands for: digits, after an optional plus sign.
pub open spec fn index_text(s: Seq<char>) -> Option<usize> {
    plain_index(
        if s.len() > 0 && s[0] == '+' {
            s.skip(1)
        } else {
            s
        },
    )
}

fn digit_of(c: char) -> (r: usize)
    requires
        digit_char(c),
    ensures
        r == c as u32 - '0' as u32,
        r <= 9,
{
    (c as u32 - 48) as usize
}

proof fn lemma_digits_value_grows(s: Seq<char>, i: int)
    requires
        0 <= i <= s.len(),
        forall|j: int| 0 <= j < s.len() ==> digit_char(#[trigger] s[j]),
    ensures
        digits_value(s.take(i)) <= digits_value(s),
    decreases s.len() - i,
{
    if i < s.len() {
        lemma_digits_value_grows(s, i + 1);
        assert(s.take(i + 1).drop_last() =~= s.take(i));
        assert(s.take(i + 1).last() == s[i]);
    } else {
        assert(s.take(i) =~= s);
    }
}

/// Reads an index.
pub fn parse_index(s: &[char]) -> (r: Option<usize>)
    ensures
        r == index_text(s@),
{
    let start: usize = if s.len() > 0 && s[0] == '+' {
        1
    } else {
        0
    };
    let ghost d = if s@.len() > 0 && s@[0] == '+' {
        s@.skip(1)
    } else {
        s@
    };
    assert(d =~= s@.skip(start as int));
    assert(index_text(s@) == plain_index(d));
    if start >= s.len() {
        return None;
    }
    let mut n: usize = 0;
    let mut over = false;
    let mut i: usize = start;
    assert(d.take(0) =~= Seq::empty());
    while i < s.len()
        invariant
            start <= i <= s@.len(),
            d == s@.skip(start as int),
            forall|j: int| 0 <= j < i - start ==> digit_char(#[trigger] d[j]),
            !over ==> n == digits_value(d.take(i - start)),
            over ==> digits_value(d.take(i - start)) > usize::MAX,
            d.len() > 0,
            index_text(s@) == plain_index(d),
        decreases s@.len() - i,
    {
        let c = s[i];
        assert(d[i - start] == c);
        if !is_digit(c) {
            return None;
        }
        let v = digit_of(c);
        proof {
            let t = d.take(i + 1 - start);
            assert(t.drop_last() =~= d.take(i - start));
            assert(t.last() == c);
        }
        if !over {
            if n > usize::MAX / 10 {
                over = true;
            } else if n * 10 > usize::MAX - v {
                over = true;
            } else {
                n = n * 10 + v;
            }
        }
        i += 1;
    }
    assert(d.take(s@.len() - start) =~= d);
    if over {
        None
    } else {
        Some(n)
    }
}

/// What a particle system is told.
#[derive(Debug)]
pub enum ParticleAct {
    Play,
    Pause,
    Stop,
    Emit(u32),
    /// Moves a control point; the y axis of the point is turned round.
    ControlPoint { index: usize, at: Vec3 },
    Color(Vec3),
    Scalar { name: String, value: Scalar },
}

/// What a [`ParticleAct`] holds.
pub enum Act {
    Play,
    Pause,
    Stop,
    Emit(u32),
    ControlPoint { index: usize, at: (Number, Number, Number) },
    Color((Number, Number, Number)),
    Scalar { name: Seq<char>, value: Number },
}

impl View for ParticleAct {
    type V = Act;

    open spec fn view(&self) -> Act {
        match self {
            ParticleAct::Play => Act::Play,
            ParticleAct::Pause => Act::Pause,
            ParticleAct::Stop => Act::Stop,
            ParticleAct::Emit(n) => Act::Emit(*n),
            ParticleAct::ControlPoint { index, at } => Act::ControlPoint { index: *index, at: at@ },
            ParticleAct::Color(c) => Act::Color(c@),
            ParticleAct::Scalar { name, value } => Act::Scalar { name: name@, value: value@ },
        }
    }
}

/// The object that an order is for.
pub open spec fn order_target(op: ParticleRequest) -> i64 {
    match op {
        ParticleRequest::Command { id, cmd } => id,
        ParticleRequest::Emit { id, count } => id,
        ParticleRequest::Instance { id, name, value } => id,
    }
}

/// What an order tells a particle system; none if it means nothing.
pub open spec fn act_of(op: ParticleRequest) -> Option<Act> {
    match op {
        ParticleRequest::Command { id, cmd } => if cmd == "play"@ {
            Some(Act::Play)
        } else if cmd == "pause"@ {
            Some(Act::Pause)
        } else if cmd == "stop"@ {
            Some(Act::Stop)
        } else {
            None
        },
        ParticleRequest::Emit { id, count } => Some(Act::Emit(count)),
        ParticleRequest::Instance { id, name, value } => if has_prefix(name, "controlpoint"@) {
            match (index_text(name.skip("controlpoint"@.len() as int)), vector_of(value)) {
                (Some(index), Some(at)) => Some(Act::ControlPoint { index, at }),
                _ => None,
            }
        } else if name == "colorn"@ {
            match vector_of(value) {
                Some(c) => Some(Act::Color(c)),
                None => None,
            }
        } else {
            match number_of(value) {
                Some(v) => Some(Act::Scalar { name, value: v }),
                None => None,
            }
        },
    }
}

fn particle_act(op: &ParticleOp) -> (r: Option<ParticleAct>)
    ensures
        match r {
            Some(a) => act_of(op@) == Some(a@),
            None => act_of(op@) is None,
        },
{
    match op {
        ParticleOp::Command { id: _, cmd } => if same_text(cmd.as_str(), "play") {
            Some(ParticleAct::Play)
        } else if same_text(cmd.as_str(), "pause") {
            Some(ParticleAct::Pause)
        } else if same_text(cmd.as_str(), "stop") {
            Some(ParticleAct::Stop)
        } else {
            None
        },
        ParticleOp::Emit { id: _, count } => Some(ParticleAct::Emit(*count)),
        ParticleOp::Instance { id: _, name, value } => {
            proof {
                reveal_strlit("controlpoint");
            }
            if starts_with(name.as_str(), "controlpoint") {
                let chars = chars_of(name.as_str());
                let rest = chars.as_slice();
                let tail = vstd::slice::slice_subrange(rest, 12, rest.len());
                assert(tail@ =~= name@.skip(12));
                match (parse_index(tail), as_vec3(value)) {
                    (Some(index), Some(at)) => Some(ParticleAct::ControlPoint { index, at }),
                    _ => None,
                }
            } else if same_text(name.as_str(), "colorn") {
                match as_vec3(value) {
                    Some(c) => Some(ParticleAct::Color(c)),
                    None => None,
                }
            } else {
                match as_f32(value) {
                    Some(v) => Some(ParticleAct::Scalar { name: name.clone(), value: v }),
                    None => None,
                }
            }
        },
    }
}

impl Duplicate for ParticleAct {
    fn duplicate(&self) -> (r: Self) {
        match self {
            ParticleAct::Play => ParticleAct::Play,
            ParticleAct::Pause => ParticleAct::Pause,
            ParticleAct::Stop => ParticleAct::Stop,
            ParticleAct::Emit(n) => ParticleAct::Emit(*n),
            ParticleAct::ControlPoint { index, at } => ParticleAct::ControlPoint {
                index: *index,
                at: at.duplicate(),
            },
            ParticleAct::Color(c) => ParticleAct::Color(c.duplicate()),
            ParticleAct::Scalar { name, value } => ParticleAct::Scalar {
                name: name.clone(),
                value: value.duplicate(),
            },
        }
    }
}

/// What one of the items is told.
#[derive(Debug)]
pub struct ParticleCall {
    /// The position of the particle system among the items.
    pub item: usize,
    pub act: ParticleAct,
}

impl View for ParticleCall {
    type V = (usize, Act);

    open spec fn view(&self) -> (usize, Act) {
        (self.item, self.act@)
    }
}

/// What the particle systems of an object among the first `k` items are told.
pub open spec fn calls_upto(items: Seq<ItemModel>, id: i64, act: Act, k: int) -> Seq<(usize, Act)>
    decreases k,
{
    if k <= 0 {
        Seq::empty()
    } else {
        let before = calls_upto(items, id, act, k - 1);
        if items[k - 1] is Particle && items[k - 1].id() == id {
            before.push(((k - 1) as usize, act))
        } else {
            before
        }
    }
}

/// What the particle systems are told by the first `k` orders, in turn.
pub open spec fn particle_calls(
    items: Seq<ItemModel>,
    ops: Seq<ParticleRequest>,
    k: int,
) -> Seq<(usize, Act)>
    decreases k,
{
    if k <= 0 {
        Seq::empty()
    } else {
        let before = particle_calls(items, ops, k - 1);
        match act_of(ops[k - 1]) {
            Some(act) => before + calls_upto(
                items,
                order_target(ops[k - 1]),
                act,
                items.len() as int,
            ),
            None => before,
        }
    }
}

/// What the particle systems are told by the orders, in turn.
pub fn particle_orders(items: &Vec<SceneItem>, ops: &Vec<ParticleOp>) -> (r: Vec<ParticleCall>)
    ensures
        views(r@) == particle_calls(views(items@), views(ops@), ops@.len() as int),
{
    let ghost all = views(items@);
    let ghost asked = views(ops@);
    let mut out: Vec<ParticleCall> = Vec::new();
    let mut k: usize = 0;
    assert(views(out@) =~= Seq::empty());
    while k < ops.len()
        invariant
            k <= ops@.len(),
            all == views(items@),
            asked == views(ops@),
            views(out@) == particle_calls(all, asked, k as int),
        decreases ops@.len() - k,
    {
        let op = &ops[k];
        assert(asked[k as int] == op@);
        let target: i64 = match op {
            ParticleOp::Command { id, cmd: _ } => *id,
            ParticleOp::Emit { id, count: _ } => *id,
            ParticleOp::Instance { id, name: _, value: _ } => *id,
        };
        if let Some(act) = particle_act(op) {
            let ghost before = views(out@);
            let mut i: usize = 0;
            assert(before + calls_upto(all, target, act@, 0) =~= before);
            while i < items.len()
                invariant
                    i <= items@.len(),
                    all == views(items@),
                    views(out@) == before + calls_upto(all, target, act@, i as int),
                decreases items@.len() - i,
            {
                assert(all[i as int] == items@[i as int]@);
                if let SceneItem::Particle(p) = &items[i] {
                    if p.id == target {
                        let call = ParticleCall { item: i, act: act.duplicate() };
                        proof {
                            lemma_views_push(out@, call);
                            assert((before + calls_upto(all, target, act@, i as int)).push(call@)
                                =~= before + calls_upto(all, target, act@, i + 1));
                        }
                        out.push(call);
                    }
                }
                i += 1;
            }
        }
        k += 1;
    }
    out
}

/// The position of the first image layer of an object, at or after `from`.
pub open spec fn image_at(items: Seq<ItemModel>, id: i64, from: int) -> Option<int>
    decreases items.len() - from,
{
    if from < 0 || from >= items.len() {
        None
    } else if items[from] is Image && items[from].id() == id {
        Some(from)
    } else {
        image_at(items, id, from + 1)
    }
}

/// Whether the item at a position shows a video.
pub open spec fn shows_video(users: Seq<Seq<usize>>, video: int, item: int) -> bool {
    video < users.len() && exists|u: int|
        0 <= u < users[video].len() && (#[trigger] users[video][u]) as int == item
}

/// A video after an order of a script.
pub open spec fn ordered_video(v: VideoState, cmd: Seq<char>) -> VideoState {
    if cmd == "play"@ {
        VideoState { script_paused: false, ..v }
    } else if cmd == "pause"@ || cmd == "stop"@ {
        VideoState { script_paused: true, ..v }
    } else {
        v
    }
}

/// All videos after an order for the layer at a position.
pub open spec fn videos_ordered(
    videos: Seq<VideoState>,
    users: Seq<Seq<usize>>,
    item: int,
    cmd: Seq<char>,
) -> Seq<VideoState> {
    Seq::new(
        videos.len(),
        |v: int|
            if shows_video(users, v, item) {
                ordered_video(videos[v], cmd)
            } else {
                videos[v]
            },
    )
}

/// The speeds that an order sets on the first `k` videos.
pub open spec fn speeds_upto(
    users: Seq<Seq<usize>>,
    item: int,
    cmd: Seq<char>,
    value: u64,
    k: int,
) -> Seq<(usize, u64)>
    decreases k,
{
    if k <= 0 {
        Seq::empty()
    } else {
        let before = speeds_upto(users, item, cmd, value, k - 1);
        if cmd == "rate"@ && shows_video(users, k - 1, item) {
            before.push(((k - 1) as usize, value))
        } else {
            before
        }
    }
}

/// The videos after the first `k` orders, and the speeds that these set.
pub open spec fn after_video_ops(
    videos: Seq<VideoState>,
    users: Seq<Seq<usize>>,
    items: Seq<ItemModel>,
    ops: Seq<(i64, Seq<char>, u64)>,
    k: int,
) -> (Seq<VideoState>, Seq<(usize, u64)>)
    decreases k,
{
    if k <= 0 {
        (videos, Seq::empty())
    } else {
        let before = after_video_ops(videos, users, items, ops, k - 1);
        let op = ops[k - 1];
        match image_at(items, op.0, 0) {
            Some(item) => (
                videos_ordered(before.0, users, item, op.1),
                before.1 + speeds_upto(users, item, op.1, op.2, videos.len() as int),
            ),
            None => before,
        }
    }
}

/// The lists that a list of lists holds.
pub open spec fn lists_of(s: Seq<Vec<usize>>) -> Seq<Seq<usize>> {
    Seq::new(s.len(), |i: int| s[i]@)
}

fn find_image(items: &Vec<SceneItem>, id: i64) -> (r: Option<usize>)
    ensures
        match r {
            Some(i) => image_at(views(items@), id, 0) == Some(i as int),
            None => image_at(views(items@), id, 0) is None,
        },
{
    let ghost all = views(items@);
    let mut i: usize = 0;
    while i < items.len()
        invariant
            i <= items@.len(),
            all == views(items@),
            image_at(all, id, 0) == image_at(all, id, i as int),
        decreases items@.len() - i,
    {
        assert(all[i as int] == items@[i as int]@);
        if let SceneItem::Image(o) = &items[i] {
            if o.id == id {
                return Some(i);
            }
        }
        i += 1;
    }
    None
}

fn uses_video(users: &Vec<Vec<usize>>, video: usize, item: usize) -> (r: bool)
    ensures
        r == shows_video(lists_of(users@), video as int, item as int),
{
    if video >= users.len() {
        return false;
    }
    let list = &users[video];
    assert(lists_of(users@)[video as int] == list@);
    let mut u: usize = 0;
    while u < list.len()
        invariant
            u <= list@.len(),
            video < users@.len(),
            lists_of(users@)[video as int] == list@,
            forall|j: int| 0 <= j < u ==> #[trigger] list@[j] != item,
        decreases list@.len() - u,
    {
        if list[u] == item {
            assert(lists_of(users@)[video as int][u as int] == item);
            return true;
        }
        u += 1;
    }
    false
}

fn order_video(v: &mut VideoState, cmd: &str)
    ensures
        *final(v) == ordered_video(*old(v), cmd@),
{
    if same_text(cmd, "play") {
        v.script_paused = false;
    } else if same_text(cmd, "pause") || same_text(cmd, "stop") {
        v.script_paused = true;
    }
}

/// Starts and stops videos as scripts order, and returns the speeds that they
/// set, each with the position of its video and as the bits of a double. An
/// order is for the videos that the layer shows.
pub fn video_orders(
    videos: &mut Vec<VideoState>,
    users: &Vec<Vec<usize>>,
    items: &Vec<SceneItem>,
    ops: &Vec<(i64, String, u64)>,
) -> (speeds: Vec<(usize, u64)>)
    ensures
        (final(videos)@, speeds@) == after_video_ops(
            old(videos)@,
            lists_of(users@),
            views(items@),
            views(ops@),
            ops@.len() as int,
        ),
        final(videos)@.len() == old(videos)@.len(),
{
    let ghost start = videos@;
    let ghost shown = lists_of(users@);
    let ghost all = views(items@);
    let ghost asked = views(ops@);
    let n: usize = videos.len();
    let mut speeds: Vec<(usize, u64)> = Vec::new();
    let mut k: usize = 0;
    while k < ops.len()
        invariant
            k <= ops@.len(),
            n == start.len(),
            n == videos@.len(),
            shown == lists_of(users@),
            all == views(items@),
            asked == views(ops@),
            (videos@, speeds@) == after_video_ops(start, shown, all, asked, k as int),
        decreases ops@.len() - k,
    {
        let op = &ops[k];
        assert(asked[k as int] == (op.0, op.1@, op.2));
        if let Some(item) = find_image(items, op.0) {
            let ghost before = videos@;
            let ghost set = speeds@;
            let rate = same_text(op.1.as_str(), "rate");
            let mut v: usize = 0;
            assert(set + speeds_upto(shown, item as int, op.1@, op.2, 0) =~= set);
            while v < n
                invariant
                    v <= n,
                    n == videos@.len(),
                    n == before.len(),
                    shown == lists_of(users@),
                    rate == (op.1@ == "rate"@),
                    forall|j: int|
                        0 <= j < v ==> #[trigger] videos@[j] == videos_ordered(
                            before,
                            shown,
                            item as int,
                            op.1@,
                        )[j],
                    forall|j: int| v <= j < n ==> #[trigger] videos@[j] == before[j],
                    speeds@ == set + speeds_upto(shown, item as int, op.1@, op.2, v as int),
                decreases n - v,
            {
                if uses_video(users, v, item) {
                    order_video(&mut videos[v], op.1.as_str());
                    if rate {
                        assert((set + speeds_upto(shown, item as int, op.1@, op.2, v as int)).push(
                            (v, op.2),
                        ) =~= set + speeds_upto(shown, item as int, op.1@, op.2, v + 1));
                        speeds.push((v, op.2));
                    }
                }
                v += 1;
            }
            assert(videos@ =~= videos_ordered(before, shown, item as int, op.1@));
        }
        k += 1;
    }
    speeds
}

} // verus!
