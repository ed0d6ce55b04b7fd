//! What animations are read as, how they play, and what they drive.
use vstd::prelude::*;

use super::members::{holds, lacks, law_members_are_found_by_name};
use crate::animation::{
    animation_of, channel_at, event_of, first_after, first_not_passed, handle_of, key_of,
    mode_named, sample_of, timeline_of, AnimationModel, ChannelSample, PlayMode, Sample, TimedKey,
    TrackPoint,
};
use crate::animator::{
    crossed, events_passed, found_upto, hands_out, leader_at, linked, moved_to, ordered,
    track_value, with_track, Driven, OutputModel, TrackModel,
};
use crate::json::{tables, Members, Tree};
use crate::object::{
    section, EffectModel, ImageModel, ObjectModel, OverrideModel, ParticleModel, TextModel,
};
use crate::property::Bag;
use crate::scene::SceneModelView;
use crate::script::Scripted;
use crate::scripting::{PropTarget, UpdateModel};
use crate::singles::{at_most, below, equal, is_nan};
use crate::strings::decimal;
use crate::table::names_of;
use crate::tracks::{
    doc_at, dynamic_base, member_animation, seeds_upto, text_width, with_all_effects,
    with_constants, with_effects, with_image, with_override, with_particle, with_passes, with_place,
    with_seed, with_text, Seed,
};
use crate::value::{Dynamic, Number};

verus! {

/// A key of an animation is one that has a frame; its value, its handles and
/// whether it is a step are what its members say.
pub proof fn law_keys_say_their_fields(m: Members, f: u64, v: u64, front: Members, back: Members)
    ensures
        lacks(m, "frame"@) ==> key_of(Tree::Table(m)) is None,
        holds(m, "frame"@, Tree::Real(f)) ==> {
            let k = key_of(Tree::Table(m));
            &&& k is Some
            &&& k->0.frame == Number::Real(f)
            &&& holds(m, "value"@, Tree::Real(v)) ==> k->0.value == Number::Real(v)
            &&& lacks(m, "value"@) ==> k->0.value == Number::Single(0)
            &&& holds(m, "step"@, Tree::Bool(true)) ==> k->0.step
            &&& holds(m, "step"@, Tree::Bool(false)) || lacks(m, "step"@) ==> !k->0.step
            &&& lacks(m, "front"@) ==> !k->0.front.enabled && k->0.front.x == Number::Single(0x3f80_0000)
                && k->0.front.y == Number::Single(0)
            &&& lacks(m, "back"@) ==> !k->0.back.enabled && k->0.back.x == Number::Single(0xbf80_0000)
                && k->0.back.y == Number::Single(0)
            &&& holds(m, "front"@, Tree::Table(front)) ==> k->0.front == handle_of(
                Some(Tree::Table(front)),
                0x3f80_0000,
            )
            &&& holds(m, "back"@, Tree::Table(back)) ==> k->0.back == handle_of(
                Some(Tree::Table(back)),
                0xbf80_0000,
            )
        },
{
    law_members_are_found_by_name(m, "frame"@);
    law_members_are_found_by_name(m, "value"@);
    law_members_are_found_by_name(m, "step"@);
    law_members_are_found_by_name(m, "front"@);
    law_members_are_found_by_name(m, "back"@);
}

/// A handle of a key is where its members say, and counts where it is enabled.
pub proof fn law_handles_say_their_fields(m: Members, default_x: u32, x: u64)
    ensures
        ({
            let h = handle_of(Some(Tree::Table(m)), default_x);
            &&& holds(m, "enabled"@, Tree::Bool(true)) ==> h.enabled
            &&& lacks(m, "enabled"@) ==> !h.enabled
            &&& holds(m, "x"@, Tree::Real(x)) ==> h.x == Number::Real(x)
            &&& holds(m, "y"@, Tree::Real(x)) ==> h.y == Number::Real(x)
            &&& lacks(m, "x"@) ==> h.x == Number::Single(default_x)
            &&& lacks(m, "y"@) ==> h.y == Number::Single(0)
        }),
{
    law_members_are_found_by_name(m, "enabled"@);
    law_members_are_found_by_name(m, "x"@);
    law_members_are_found_by_name(m, "y"@);
}

/// An event of an animation has a frame and a name.
pub proof fn law_events_say_their_fields(m: Members, f: u64, name: Seq<char>)
    ensures
        holds(m, "frame"@, Tree::Real(f)) && holds(m, "name"@, Tree::Text(name)) ==> event_of(
            Tree::Table(m),
        ) == Some((Number::Real(f), name)),
        lacks(m, "frame"@) || lacks(m, "name"@) ==> event_of(Tree::Table(m)) is None,
{
    law_members_are_found_by_name(m, "frame"@);
    law_members_are_found_by_name(m, "name"@);
}

/// How an animation plays is said by a word; without one that is known it
/// plays once.
pub proof fn law_play_modes_have_a_word(s: Seq<char>)
    ensures
        mode_named(Some("loop"@)) == PlayMode::Loop,
        mode_named(Some("mirror"@)) == PlayMode::Mirror,
        mode_named(Some("timeofday"@)) == PlayMode::TimeOfDay,
        s != "loop"@ && s != "mirror"@ && s != "timeofday"@ ==> mode_named(Some(s)) == PlayMode::Single,
        mode_named(None) == PlayMode::Single,
{
    reveal_strlit("loop");
    reveal_strlit("mirror");
    reveal_strlit("timeofday");
    assert("loop"@.len() == 4 && "mirror"@.len() == 6 && "timeofday"@.len() == 9);
}

/// An animation plays as its options say.
pub proof fn law_animations_say_their_options(
    property: Members,
    m: Members,
    o: Members,
    f: u64,
    name: Seq<char>,
    p: Members,
)
    requires
        holds(property, "animation"@, Tree::Table(m)),
        holds(m, "options"@, Tree::Table(o)),
    ensures
        animation_of(property) matches Some(a) ==> {
            &&& holds(o, "fps"@, Tree::Real(f)) ==> a.fps == Some(Number::Real(f))
            &&& lacks(o, "fps"@) ==> a.fps is None
            &&& holds(o, "length"@, Tree::Real(f)) ==> a.length == Some(Number::Real(f))
            &&& lacks(o, "length"@) ==> a.length is None
            &&& holds(o, "mode"@, Tree::Text(name)) ==> a.mode == mode_named(Some(name))
            &&& lacks(o, "mode"@) ==> a.mode == PlayMode::Single
            &&& holds(o, "wraploop"@, Tree::Bool(true)) ==> a.wraploop
            &&& holds(o, "wraploop"@, Tree::Bool(false)) ==> !a.wraploop
            &&& lacks(o, "wraploop"@) ==> (a.wraploop <==> a.mode == PlayMode::TimeOfDay)
            &&& holds(o, "startpaused"@, Tree::Bool(true)) ==> a.startpaused
            &&& lacks(o, "startpaused"@) ==> !a.startpaused
            &&& holds(o, "name"@, Tree::Text(name)) ==> a.name == Some(name)
            &&& lacks(o, "name"@) ==> a.name is None
            &&& holds(property, "relative"@, Tree::Bool(true)) ==> a.relative
            &&& lacks(property, "relative"@) ==> !a.relative
            &&& lacks(o, "parent"@) ==> a.parent is None
            &&& holds(o, "parent"@, Tree::Table(p)) && holds(p, "key"@, Tree::Text(name)) ==> a.parent
                == Some(name)
            &&& lacks(o, "events"@) ==> a.events.len() == 0
            &&& lacks(o, "children"@) ==> a.children.len() == 0
        },
{
    law_members_are_found_by_name(property, "animation"@);
    law_members_are_found_by_name(property, "relative"@);
    law_members_are_found_by_name(m, "options"@);
    law_members_are_found_by_name(o, "fps"@);
    law_members_are_found_by_name(o, "length"@);
    law_members_are_found_by_name(o, "mode"@);
    law_members_are_found_by_name(o, "wraploop"@);
    law_members_are_found_by_name(o, "startpaused"@);
    law_members_are_found_by_name(o, "name"@);
    law_members_are_found_by_name(o, "parent"@);
    law_members_are_found_by_name(p, "key"@);
    law_members_are_found_by_name(o, "events"@);
    law_members_are_found_by_name(o, "children"@);
}

/// A timeline plays as its animation says: at its rate and for its length
/// where they are above zero, else at 30 frames a second and to its last key.
pub proof fn law_timelines_play_as_told(
    a: AnimationModel,
    channels: Seq<Seq<TimedKey>>,
    fps: Option<u32>,
    length: Option<u32>,
    events: Seq<u32>,
    i: int,
)
    requires
        events.len() == a.events.len(),
    ensures
        ({
            let t = timeline_of(a, channels, fps, length, events);
            &&& fps is Some && 0 < fps->0 <= 0x7f80_0000 ==> t.fps == fps->0
            &&& fps is None || fps == Some(0u32) ==> t.fps == 0x41f0_0000
            &&& length is Some && 0 < length->0 <= 0x7f80_0000 ==> t.length == length->0
            &&& t.mode == a.mode && t.wraploop == a.wraploop && t.startpaused == a.startpaused
                && t.name == a.name && t.relative == a.relative && t.parent == a.parent
            &&& t.channels.len() == channels.len()
            &&& t.events.len() == a.events.len()
            &&& 0 <= i < a.events.len() ==> t.events[i] == (events[i], a.events[i].1)
        }),
{
}

/// Before its first key a channel has the first key's value; at and behind its
/// last it has the last one's, unless it wraps round to the first.
pub proof fn law_samples_at_the_ends(keys: Seq<TimedKey>, wraploop: bool, length: u32, frame: u32)
    requires
        keys.len() > 0,
    ensures
        at_most(frame, keys[0].frame) ==> sample_of(keys, wraploop, length, frame) == Some(
            Sample::Value(keys[0].value),
        ),
        !at_most(frame, keys[0].frame) && at_most(keys.last().frame, frame) && (!wraploop || keys.last().step
            || !below(keys.last().frame, length)) ==> sample_of(keys, wraploop, length, frame) == Some(
            Sample::Value(keys.last().value),
        ),
        !at_most(frame, keys[0].frame) && at_most(keys.last().frame, frame) && wraploop && !keys.last().step
            && below(keys.last().frame, length) && below(frame, length) ==> sample_of(
            keys,
            wraploop,
            length,
            frame,
        ) == Some(Sample::Wrap { last: keys.last(), first: keys[0] }),
        !at_most(frame, keys[0].frame) && at_most(keys.last().frame, frame) && wraploop && !keys.last().step
            && below(keys.last().frame, length) && at_most(length, frame) ==> sample_of(
            keys,
            wraploop,
            length,
            frame,
        ) == Some(Sample::Value(keys[0].value)),
{
}

proof fn lemma_first_after_at(keys: Seq<TimedKey>, frame: u32, from: int, i: int)
    requires
        0 <= from <= i < keys.len(),
        forall|j: int| 0 <= j < i ==> at_most((#[trigger] keys[j]).frame, frame),
        !at_most(keys[i].frame, frame),
    ensures
        first_after(keys, frame, from) == i,
    decreases i - from,
{
    if from < i {
        assert(at_most(keys[from].frame, frame));
        lemma_first_after_at(keys, frame, from + 1, i);
    }
}

/// Between two neighbouring keys a channel runs from the first of them to the
/// second; where the second is a step, it holds the first one's value.
pub proof fn law_samples_between_neighbours(
    keys: Seq<TimedKey>,
    wraploop: bool,
    length: u32,
    frame: u32,
    i: int,
)
    requires
        0 < i < keys.len(),
        forall|j: int| 0 <= j < i ==> at_most((#[trigger] keys[j]).frame, frame),
        below(frame, keys[i].frame),
        below(keys[i - 1].frame, keys[i].frame),
        !at_most(frame, keys[0].frame),
        !at_most(keys.last().frame, frame),
    ensures
        !keys[i].step ==> sample_of(keys, wraploop, length, frame) == Some(
            Sample::Between { from: keys[i - 1], to: keys[i] },
        ),
        keys[i].step ==> sample_of(keys, wraploop, length, frame) == Some(Sample::Value(keys[i - 1].value)),
{
    lemma_first_after_at(keys, frame, 0, i);
}

proof fn lemma_first_not_passed_at(keys: Seq<TrackPoint>, frame: u32, from: int, i: int)
    requires
        0 <= from <= i < keys.len(),
        forall|j: int| 0 < j < i ==> !at_most(frame, (#[trigger] keys[j]).frame),
        from > 0,
        at_most(frame, keys[i].frame),
    ensures
        first_not_passed(keys, frame, from) == i,
    decreases i - from,
{
    if from < i {
        assert(!at_most(frame, keys[from].frame));
        lemma_first_not_passed_at(keys, frame, from + 1, i);
    }
}

/// A channel of a track has its first key's value before it and its last one's
/// behind it; between two keys it runs from the one to the other; without keys
/// it is zero.
pub proof fn law_channels_run_from_key_to_key(keys: Seq<TrackPoint>, frame: u32, i: int)
    ensures
        keys.len() == 0 ==> channel_at(keys, frame) == ChannelSample::Value(0),
        keys.len() > 0 && at_most(frame, keys[0].frame) ==> channel_at(keys, frame)
            == ChannelSample::Value(keys[0].value),
        keys.len() > 0 && !at_most(frame, keys[0].frame) && at_most(keys.last().frame, frame)
            ==> channel_at(keys, frame) == ChannelSample::Value(keys.last().value),
        0 < i < keys.len() && !at_most(frame, keys[0].frame) && !at_most(keys.last().frame, frame)
            && at_most(frame, keys[i].frame) && (forall|j: int|
            0 < j < i ==> !at_most(frame, (#[trigger] keys[j]).frame)) ==> channel_at(keys, frame)
            == (ChannelSample::Between { from: keys[i - 1], to: keys[i] }),
{
    if 0 < i < keys.len() && at_most(frame, keys[i].frame) && (forall|j: int|
        0 < j < i ==> !at_most(frame, (#[trigger] keys[j]).frame)) {
        lemma_first_not_passed_at(keys, frame, 1, i);
    }
}

/// An animation does as it is told: it plays, from its start where it had
/// ended; it holds; it stops at its start; it goes to a frame; or it changes
/// its rate. Any other word changes nothing.
pub proof fn law_animations_do_as_they_are_told(t: TrackModel, cmd: Seq<char>, amount: u32)
    ensures
        ordered(t, "play"@, amount) == (TrackModel {
            playing: true,
            finished: false,
            pos: if t.finished {
                0
            } else {
                t.pos
            },
            ..t
        }),
        ordered(t, "pause"@, amount) == (TrackModel { playing: false, ..t }),
        ordered(t, "stop"@, amount) == (TrackModel { playing: false, finished: false, pos: 0, ..t }),
        amount <= 0x7f80_0000 ==> ordered(t, "setFrame"@, amount) == (TrackModel {
            pos: amount,
            finished: false,
            ..t
        }),
        0x8000_0000 < amount <= 0xff80_0000 ==> ordered(t, "setFrame"@, amount).pos == 0,
        ordered(t, "rate"@, amount) == (TrackModel { rate: amount, ..t }),
        cmd != "play"@ && cmd != "pause"@ && cmd != "stop"@ && cmd != "setFrame"@ && cmd != "rate"@
            ==> ordered(t, cmd, amount) == t,
{
    reveal_strlit("play");
    reveal_strlit("pause");
    reveal_strlit("stop");
    reveal_strlit("setFrame");
    reveal_strlit("rate");
    assert("play"@.len() == 4 && "pause"@.len() == 5 && "stop"@.len() == 4 && "setFrame"@.len() == 8
        && "rate"@.len() == 4);
    assert("play"@[0] == 'p' && "stop"@[0] == 's' && "rate"@[0] == 'r');
}

/// An animation that plays goes where its time takes it.
pub proof fn law_playing_animations_move(t: TrackModel, candidate: u32)
    requires
        t.playing,
        t.parent is None,
    ensures
        t.anim.mode != PlayMode::Single || !at_most(t.anim.length, candidate) ==> moved_to(t, candidate)
            == (TrackModel { pos: candidate, ..t }),
{
}

/// An event is passed where the animation comes to its frame or over it; one
/// that starts over passes those behind where it was and those before where it
/// is.
pub proof fn law_events_are_passed(prev: u32, now: u32, frame: u32)
    requires
        !is_nan(prev),
        !is_nan(now),
        !is_nan(frame),
    ensures
        at_most(prev, now) ==> (crossed(prev, now, frame) <==> below(prev, frame) && at_most(frame, now)),
        below(now, prev) ==> (crossed(prev, now, frame) <==> below(prev, frame) || at_most(frame, now)),
        crossed(prev, prev, frame) <==> false,
{
}

/// Every event that is passed is told of, with its name and the object that it
/// belongs to.
pub proof fn law_passed_events_are_told(
    id: i64,
    events: Seq<(u32, Seq<char>)>,
    prev: u32,
    now: u32,
    k: int,
    i: int,
)
    requires
        0 <= i < k <= events.len(),
    ensures
        crossed(prev, now, events[i].0) ==> events_passed(id, events, prev, now, k).contains(
            (id, events[i].1, events[i].0),
        ),
        forall|j: int|
            0 <= j < events_passed(id, events, prev, now, k).len() ==> ((#[trigger] events_passed(
                id,
                events,
                prev,
                now,
                k,
            )[j]).0 == id && crossed(prev, now, events_passed(id, events, prev, now, k)[j].2)),
    decreases k,
{
    let all = events_passed(id, events, prev, now, k);
    let before = events_passed(id, events, prev, now, k - 1);
    if i < k - 1 {
        law_passed_events_are_told(id, events, prev, now, k - 1, i);
        if crossed(prev, now, events[i].0) {
            let j = before.index_of((id, events[i].1, events[i].0));
            assert(all[j] == before[j]);
        }
    } else {
        if k > 1 {
            law_passed_events_are_told(id, events, prev, now, k - 1, 0);
        }
        if crossed(prev, now, events[i].0) {
            assert(all[all.len() - 1] == (id, events[i].1, events[i].0));
        }
    }
    assert forall|j: int| 0 <= j < all.len() implies ((#[trigger] all[j]).0 == id && crossed(
        prev,
        now,
        all[j].2,
    )) by {
        if j < before.len() {
            assert(all[j] == before[j]);
        }
    }
}

/// The value of an animation is one number, or as many as it has channels, in
/// their order; a colour, a place, a size and angles are three.
pub proof fn law_animated_values_keep_their_channels(target: Driven, v: Seq<u32>)
    ensures
        v.len() == 3 ==> track_value(target, v) == Scripted::Vec3([v[0], v[1], v[2]]),
        v.len() == 2 ==> track_value(target, v) == Scripted::Vec2([v[0], v[1]]),
        v.len() == 4 && target == Driven::Layer(PropTarget::Color) ==> track_value(target, v)
            == Scripted::Vec3([v[0], v[1], v[2]]),
        v.len() == 4 && target is EffectConstant ==> track_value(target, v) == Scripted::Vec4(
            [v[0], v[1], v[2], v[3]],
        ),
        v.len() == 1 ==> track_value(target, v) is Float,
        v.len() == 1 && v[0] == 0 ==> track_value(target, v) == Scripted::Float(0),
        v.len() == 1 && v[0] == 0x3f80_0000 ==> track_value(target, v) == Scripted::Float(
            0x3ff0_0000_0000_0000,
        ),
        v.len() == 0 ==> track_value(target, v) == Scripted::Null,
{
}

/// What an animation drives gets its value: the property of its layer, the
/// constant of its effect, the setting of its particle system, the zoom of the
/// scene, or the width of its text; and nothing else does.
pub proof fn law_animations_drive_their_target(o: OutputModel, t: TrackModel, v: Seq<u32>, p: PropTarget, e: usize, n: Seq<char>)
    requires
        v.len() > 0,
    ensures
        t.target == Driven::Layer(p) ==> {
            let after = with_track(o, t, v);
            &&& after.updates == o.updates.push(
                UpdateModel { object_id: t.object_id, target: p, value: track_value(t.target, v), in_degrees: false },
            )
            &&& after.overrides == o.overrides.push(
                (t.key + "_"@ + decimal(t.object_id as int), track_value(t.target, v)),
            )
            &&& after.effect == o.effect && after.particle == o.particle && after.zoom == o.zoom
                && after.text_width == o.text_width
        },
        t.target == (Driven::EffectConstant { effect: e, name: n }) ==> {
            let after = with_track(o, t, v);
            &&& after.effect == o.effect.push((t.object_id, e, n, track_value(t.target, v)))
            &&& after.updates == o.updates && after.particle == o.particle && after.zoom == o.zoom
                && after.text_width == o.text_width
        },
        t.target == Driven::ParticleOverride(n) ==> with_track(o, t, v) == (OutputModel {
            particle: o.particle.push((t.object_id, n, v[0])),
            ..o
        }),
        t.target == Driven::SceneZoom ==> with_track(o, t, v) == (OutputModel { zoom: Some(v[0]), ..o }),
        t.target == Driven::TextMaxWidth ==> with_track(o, t, v) == (OutputModel {
            text_width: o.text_width.push((t.object_id, v[0])),
            ..o
        }),
{
}

/// A value is handed out the first time, and whenever it has changed.
pub proof fn law_changed_values_are_handed_out(t: TrackModel, l: Seq<u32>, v: Seq<u32>, i: int)
    ensures
        t.last is None ==> hands_out(t, v),
        t.last == Some(l) && l.len() != v.len() ==> hands_out(t, v),
        t.last == Some(l) && l.len() == v.len() && 0 <= i < v.len() && !equal(l[i], v[i]) ==> hands_out(t, v),
{
}

proof fn lemma_leader_at(tracks: Seq<TrackModel>, id: i64, key: Seq<char>, from: int)
    requires
        0 <= from <= tracks.len(),
    ensures
        match leader_at(tracks, id, key, from) {
            Some(i) => from <= i < tracks.len() && tracks[i].object_id == id && tracks[i].key == key
                && tracks[i].anim.parent is None,
            None => forall|j: int|
                from <= j < tracks.len() ==> !((#[trigger] tracks[j]).object_id == id && tracks[j].key
                    == key && tracks[j].anim.parent is None),
        },
    decreases tracks.len() - from,
{
    if from < tracks.len() {
        lemma_leader_at(tracks, id, key, from + 1);
    }
}

/// An animation that names another of its object goes along with that one; any
/// other goes by itself.
pub proof fn law_followers_find_their_leader(tracks: Seq<TrackModel>, t: TrackModel, key: Seq<char>)
    requires
        tracks.len() <= usize::MAX,
    ensures
        t.anim.parent is None ==> linked(tracks, t) == (TrackModel { parent: None, ..t }),
        t.anim.parent == Some(key) ==> match linked(tracks, t).parent {
            Some(p) => p < tracks.len() && tracks[p as int].object_id == t.object_id
                && tracks[p as int].key == key && tracks[p as int].anim.parent is None
                && linked(tracks, t).playing == tracks[p as int].playing,
            None => (forall|j: int|
                0 <= j < tracks.len() ==> !((#[trigger] tracks[j]).object_id == t.object_id
                    && tracks[j].key == key && tracks[j].anim.parent is None)) && linked(tracks, t).playing
                == t.playing,
        },
{
    if t.anim.parent == Some(key) {
        lemma_leader_at(tracks, t.object_id, key, 0);
    }
}

/// The animations that a script finds are those of the object and the name
/// that it asks for, but none that goes along with another.
pub proof fn law_animations_are_found(
    tracks: Seq<TrackModel>,
    id: Option<i64>,
    name: Option<Seq<char>>,
    k: int,
    i: int,
)
    requires
        0 <= i < k <= tracks.len() <= usize::MAX,
    ensures
        found_upto(tracks, id, name, k).contains(i as usize) <==> tracks[i].parent is None && (name is Some
            ==> tracks[i].anim.name == name) && (id is Some ==> tracks[i].object_id == id->0),
        forall|j: int|
            0 <= j < found_upto(tracks, id, name, k).len() ==> #[trigger] found_upto(tracks, id, name, k)[j] < k,
    decreases k,
{
    let now = found_upto(tracks, id, name, k);
    let before = found_upto(tracks, id, name, k - 1);
    if k > 1 {
        law_animations_are_found(tracks, id, name, k - 1, if i < k - 1 { i } else { 0 });
    }
    assert forall|j: int| 0 <= j < now.len() implies #[trigger] now[j] < k by {
        if j < before.len() {
            assert(now[j] == before[j]);
        }
    }
    if i < k - 1 {
        if before.contains(i as usize) {
            let j = before.index_of(i as usize);
            assert(now[j] == before[j]);
        }
        if now.contains(i as usize) {
            let j = now.index_of(i as usize);
            assert(before[j] == i as usize);
        }
    } else {
        if now.len() > before.len() {
            assert(now[now.len() - 1] == i as usize);
        } else if now.contains(i as usize) {
            let j = now.index_of(i as usize);
            assert(before[j] < k - 1);
        }
    }
}

/// Whether a list of animated properties has one of an object: under its name,
/// with what it drives, the value that it starts from and its animation.
pub open spec fn animates(
    list: Seq<Seed>,
    id: i64,
    key: Seq<char>,
    target: Driven,
    base: Seq<Number>,
    a: AnimationModel,
) -> bool {
    list.contains(Seed { object_id: id, key, target, base, animation: a })
}

proof fn lemma_seed_stays(list: Seq<Seed>, s: Seed, animation: Option<AnimationModel>, id: i64, key: Seq<char>, target: Driven, base: Seq<Number>)
    ensures
        list.contains(s) ==> with_seed(list, animation, id, key, target, base).contains(s),
        animation is Some && base.len() > 0 ==> with_seed(list, animation, id, key, target, base).contains(
            Seed { object_id: id, key, target, base, animation: animation->0 },
        ),
{
    let now = with_seed(list, animation, id, key, target, base);
    if list.contains(s) {
        let i = list.index_of(s);
        assert(now[i] == s);
    }
    if animation is Some && base.len() > 0 {
        assert(now[now.len() - 1] == (Seed { object_id: id, key, target, base, animation: animation->0 }));
    }
}

/// The place, the size and the angles of an object are animated where its
/// document says so, each from the value that it has.
pub proof fn law_places_are_animated(list: Seq<Seed>, o: ObjectModel, a: AnimationModel)
    ensures
        ({
            let now = with_place(list, o);
            let b = o.base;
            let id = b.id;
            &&& member_animation(o.extra, "origin"@) == Some(a) ==> animates(
                now,
                id,
                "origin"@,
                Driven::Layer(PropTarget::Origin),
                seq![b.origin.value.0, b.origin.value.1, b.origin.value.2],
                a,
            )
            &&& member_animation(o.extra, "scale"@) == Some(a) ==> animates(
                now,
                id,
                "scale"@,
                Driven::Layer(PropTarget::Scale),
                seq![b.scale.value.0, b.scale.value.1, b.scale.value.2],
                a,
            )
            &&& member_animation(o.extra, "angles"@) == Some(a) ==> animates(
                now,
                id,
                "angles"@,
                Driven::Layer(PropTarget::Angles),
                seq![b.angles.value.0, b.angles.value.1, b.angles.value.2],
                a,
            )
        }),
{
    let b = o.base;
    let m = o.extra;
    let x = seq![b.origin.value.0, b.origin.value.1, b.origin.value.2];
    let y = seq![b.scale.value.0, b.scale.value.1, b.scale.value.2];
    let z = seq![b.angles.value.0, b.angles.value.1, b.angles.value.2];
    let t = Driven::Layer(PropTarget::Origin);
    let u = Driven::Layer(PropTarget::Scale);
    let v = Driven::Layer(PropTarget::Angles);
    let f = member_animation(m, "origin"@);
    let g = member_animation(m, "scale"@);
    let h = member_animation(m, "angles"@);
    let one = with_seed(list, f, b.id, "origin"@, t, x);
    let two = with_seed(one, g, b.id, "scale"@, u, y);
    let first = Seed { object_id: b.id, key: "origin"@, target: t, base: x, animation: a };
    let second = Seed { object_id: b.id, key: "scale"@, target: u, base: y, animation: a };
    lemma_seed_stays(list, first, f, b.id, "origin"@, t, x);
    lemma_seed_stays(one, first, g, b.id, "scale"@, u, y);
    lemma_seed_stays(two, first, h, b.id, "angles"@, v, z);
    lemma_seed_stays(two, second, h, b.id, "angles"@, v, z);
}

/// What a constant is animated from is its value, number by number.
pub proof fn law_constants_start_from_their_value(b: bool, i: i64, f: Number, v: Seq<Number>, c: (Number, Number, Number, Number), s: Seq<char>)
    ensures
        dynamic_base(Dynamic::Float(f)) == seq![f],
        dynamic_base(Dynamic::Int(i)) == seq![Number::Int(i)],
        dynamic_base(Dynamic::Vec(v)) == v,
        dynamic_base(Dynamic::Color(c)) == seq![c.0, c.1, c.2, c.3],
        dynamic_base(Dynamic::Bool(true)) == seq![Number::Single(0x3f80_0000)],
        dynamic_base(Dynamic::Str(s)).len() == 0 && dynamic_base(Dynamic::Null).len() == 0,
{
}

/// A property is animated where it is a table with an animation, and only
/// then.
pub proof fn law_animations_are_read_where_they_stand(m: Members, key: Seq<char>, p: Members)
    ensures
        holds(m, key, Tree::Table(p)) ==> member_animation(m, key) == animation_of(p),
        lacks(m, key) ==> member_animation(m, key) is None,
        lacks(p, "animation"@) ==> animation_of(p) is None,
{
    law_members_are_found_by_name(m, key);
    law_members_are_found_by_name(p, "animation"@);
}

proof fn lemma_constants_keep(list: Seq<Seed>, constants: crate::user::Constants, names: Seq<Seq<char>>, doc: Members, id: i64, effect: usize, k: int, s: Seed)
    ensures
        list.contains(s) ==> with_constants(list, constants, names, doc, id, effect, k).contains(s),
    decreases k,
{
    if k > 0 {
        lemma_constants_keep(list, constants, names, doc, id, effect, k - 1, s);
        let name = names[k - 1];
        lemma_seed_stays(
            with_constants(list, constants, names, doc, id, effect, k - 1),
            s,
            member_animation(doc, name),
            id,
            name,
            Driven::EffectConstant { effect, name },
            dynamic_base(constants[name].value),
        );
    }
}

proof fn lemma_passes_keep(list: Seq<Seed>, passes: Seq<OverrideModel>, docs: Seq<Members>, id: i64, effect: usize, k: int, s: Seed)
    ensures
        list.contains(s) ==> with_passes(list, passes, docs, id, effect, k).contains(s),
    decreases k,
{
    if k > 0 {
        lemma_passes_keep(list, passes, docs, id, effect, k - 1, s);
        let constants = passes[k - 1].constants;
        let names = names_of(constants);
        lemma_constants_keep(
            with_passes(list, passes, docs, id, effect, k - 1),
            constants,
            names,
            section(doc_at(docs, k - 1), "constantshadervalues"@),
            id,
            effect,
            names.len() as int,
            s,
        );
    }
}

proof fn lemma_effects_keep(list: Seq<Seed>, effects: Seq<EffectModel>, docs: Seq<Members>, id: i64, k: int, s: Seed)
    ensures
        list.contains(s) ==> with_effects(list, effects, docs, id, k).contains(s),
    decreases k,
{
    if k > 0 {
        lemma_effects_keep(list, effects, docs, id, k - 1, s);
        lemma_passes_keep(
            with_effects(list, effects, docs, id, k - 1),
            effects[k - 1].passes,
            tables(doc_at(docs, k - 1), "passes"@),
            id,
            (k - 1) as usize,
            effects[k - 1].passes.len() as int,
            s,
        );
    }
}

proof fn lemma_all_effects_keep(list: Seq<Seed>, effects: Seq<EffectModel>, m: Members, id: i64, s: Seed)
    ensures
        list.contains(s) ==> with_all_effects(list, effects, m, id).contains(s),
{
    let docs = tables(m, "effects"@);
    lemma_effects_keep(
        list,
        effects,
        crate::tracks::effect_docs(docs, docs.len() as int),
        id,
        effects.len() as int,
        s,
    );
}

/// A constant of an effect is animated where the document says so, from the
/// value that the constant has.
pub proof fn law_constants_are_animated(
    list: Seq<Seed>,
    constants: crate::user::Constants,
    names: Seq<Seq<char>>,
    doc: Members,
    id: i64,
    effect: usize,
    k: int,
    i: int,
    a: AnimationModel,
)
    requires
        0 <= i < k <= names.len(),
        member_animation(doc, names[i]) == Some(a),
        dynamic_base(constants[names[i]].value).len() > 0,
    ensures
        animates(
            with_constants(list, constants, names, doc, id, effect, k),
            id,
            names[i],
            Driven::EffectConstant { effect, name: names[i] },
            dynamic_base(constants[names[i]].value),
            a,
        ),
    decreases k,
{
    let name = names[k - 1];
    let s = Seed {
        object_id: id,
        key: names[i],
        target: Driven::EffectConstant { effect, name: names[i] },
        base: dynamic_base(constants[names[i]].value),
        animation: a,
    };
    if i < k - 1 {
        law_constants_are_animated(list, constants, names, doc, id, effect, k - 1, i, a);
    }
    lemma_seed_stays(
        with_constants(list, constants, names, doc, id, effect, k - 1),
        s,
        member_animation(doc, name),
        id,
        name,
        Driven::EffectConstant { effect, name },
        dynamic_base(constants[name].value),
    );
}

/// The alpha, the brightness and the colour of an image are animated where its
/// document says so, each from the value that it has.
pub proof fn law_images_are_animated(list: Seq<Seed>, m: Members, id: i64, i: ImageModel, a: AnimationModel)
    ensures
        member_animation(m, "alpha"@) == Some(a) ==> animates(
            with_image(list, m, id, i),
            id,
            "alpha"@,
            Driven::Layer(PropTarget::Alpha),
            seq![i.alpha.value],
            a,
        ),
        member_animation(m, "brightness"@) == Some(a) ==> animates(
            with_image(list, m, id, i),
            id,
            "brightness"@,
            Driven::Layer(PropTarget::Brightness),
            seq![i.brightness.value],
            a,
        ),
        member_animation(m, "color"@) == Some(a) ==> animates(
            with_image(list, m, id, i),
            id,
            "color"@,
            Driven::Layer(PropTarget::Color),
            seq![i.color.value.0, i.color.value.1, i.color.value.2],
            a,
        ),
{
    let x = seq![i.alpha.value];
    let y = seq![i.brightness.value];
    let z = seq![i.color.value.0, i.color.value.1, i.color.value.2];
    let t = Driven::Layer(PropTarget::Alpha);
    let u = Driven::Layer(PropTarget::Brightness);
    let v = Driven::Layer(PropTarget::Color);
    let f = member_animation(m, "alpha"@);
    let g = member_animation(m, "brightness"@);
    let h = member_animation(m, "color"@);
    let one = with_seed(list, f, id, "alpha"@, t, x);
    let two = with_seed(one, g, id, "brightness"@, u, y);
    let three = with_seed(two, h, id, "color"@, v, z);
    let first = Seed { object_id: id, key: "alpha"@, target: t, base: x, animation: a };
    let second = Seed { object_id: id, key: "brightness"@, target: u, base: y, animation: a };
    let third = Seed { object_id: id, key: "color"@, target: v, base: z, animation: a };
    lemma_seed_stays(list, first, f, id, "alpha"@, t, x);
    lemma_seed_stays(one, first, g, id, "brightness"@, u, y);
    lemma_seed_stays(two, first, h, id, "color"@, v, z);
    lemma_seed_stays(two, second, h, id, "color"@, v, z);
    lemma_all_effects_keep(three, i.effects, m, id, first);
    lemma_all_effects_keep(three, i.effects, m, id, second);
    lemma_all_effects_keep(three, i.effects, m, id, third);
}

/// The alpha, the colour and the width of a text are animated where its
/// document says so, each from the value that it has.
pub proof fn law_texts_are_animated(list: Seq<Seed>, m: Members, id: i64, t: TextModel, bag: Bag, a: AnimationModel)
    ensures
        member_animation(m, "alpha"@) == Some(a) ==> animates(
            with_text(list, m, id, t, bag),
            id,
            "alpha"@,
            Driven::Layer(PropTarget::Alpha),
            seq![t.alpha.value],
            a,
        ),
        member_animation(m, "color"@) == Some(a) ==> animates(
            with_text(list, m, id, t, bag),
            id,
            "color"@,
            Driven::Layer(PropTarget::Color),
            seq![t.color.value.0, t.color.value.1, t.color.value.2],
            a,
        ),
        member_animation(m, "maxwidth"@) == Some(a) ==> animates(
            with_text(list, m, id, t, bag),
            id,
            "maxwidth"@,
            Driven::TextMaxWidth,
            seq![text_width(t, m, bag)],
            a,
        ),
{
    let x = seq![t.alpha.value];
    let y = seq![t.color.value.0, t.color.value.1, t.color.value.2];
    let z = seq![text_width(t, m, bag)];
    let p = Driven::Layer(PropTarget::Alpha);
    let q = Driven::Layer(PropTarget::Color);
    let r = Driven::TextMaxWidth;
    let f = member_animation(m, "alpha"@);
    let g = member_animation(m, "color"@);
    let h = member_animation(m, "maxwidth"@);
    let one = with_seed(list, f, id, "alpha"@, p, x);
    let two = with_seed(one, g, id, "color"@, q, y);
    let three = with_seed(two, h, id, "maxwidth"@, r, z);
    let first = Seed { object_id: id, key: "alpha"@, target: p, base: x, animation: a };
    let second = Seed { object_id: id, key: "color"@, target: q, base: y, animation: a };
    let third = Seed { object_id: id, key: "maxwidth"@, target: r, base: z, animation: a };
    let effects = crate::script_setup::text_effects(m, bag);
    lemma_seed_stays(list, first, f, id, "alpha"@, p, x);
    lemma_seed_stays(one, first, g, id, "color"@, q, y);
    lemma_seed_stays(two, first, h, id, "maxwidth"@, r, z);
    lemma_seed_stays(two, second, h, id, "maxwidth"@, r, z);
    lemma_all_effects_keep(three, effects, m, id, first);
    lemma_all_effects_keep(three, effects, m, id, second);
    lemma_all_effects_keep(three, effects, m, id, third);
}

/// The settings of a particle system are animated where its document says so,
/// each from the value that it has.
pub proof fn law_particles_are_animated(list: Seq<Seed>, m: Members, id: i64, p: ParticleModel, o: Members, a: AnimationModel)
    requires
        holds(m, "instanceoverride"@, Tree::Table(o)),
    ensures
        ({
            let now = with_particle(list, m, id, p);
            let io = p.instanceoverride;
            &&& member_animation(o, "alpha"@) == Some(a) ==> animates(now, id, "alpha"@, Driven::ParticleOverride("alpha"@), seq![io.alpha.value], a)
            &&& member_animation(o, "size"@) == Some(a) ==> animates(now, id, "size"@, Driven::ParticleOverride("size"@), seq![io.size.value], a)
            &&& member_animation(o, "lifetime"@) == Some(a) ==> animates(now, id, "lifetime"@, Driven::ParticleOverride("lifetime"@), seq![io.lifetime.value], a)
            &&& member_animation(o, "rate"@) == Some(a) ==> animates(now, id, "rate"@, Driven::ParticleOverride("rate"@), seq![io.rate.value], a)
            &&& member_animation(o, "speed"@) == Some(a) ==> animates(now, id, "speed"@, Driven::ParticleOverride("speed"@), seq![io.speed.value], a)
            &&& member_animation(o, "count"@) == Some(a) ==> animates(now, id, "count"@, Driven::ParticleOverride("count"@), seq![io.count.value], a)
        }),
{
    law_members_are_found_by_name(m, "instanceoverride"@);
    let io = p.instanceoverride;
    assert(section(m, "instanceoverride"@) == o);
    let l1 = with_override(list, o, id, "alpha"@, io.alpha.value);
    let l2 = with_override(l1, o, id, "size"@, io.size.value);
    let l3 = with_override(l2, o, id, "lifetime"@, io.lifetime.value);
    let l4 = with_override(l3, o, id, "rate"@, io.rate.value);
    let l5 = with_override(l4, o, id, "speed"@, io.speed.value);
    let s1 = lemma_override(list, o, id, "alpha"@, io.alpha.value, a);
    let s2 = lemma_override(l1, o, id, "size"@, io.size.value, a);
    let s3 = lemma_override(l2, o, id, "lifetime"@, io.lifetime.value, a);
    let s4 = lemma_override(l3, o, id, "rate"@, io.rate.value, a);
    let s5 = lemma_override(l4, o, id, "speed"@, io.speed.value, a);
    let s6 = lemma_override(l5, o, id, "count"@, io.count.value, a);
    lemma_override_keeps(l1, o, id, "size"@, io.size.value, s1);
    lemma_override_keeps(l2, o, id, "lifetime"@, io.lifetime.value, s1);
    lemma_override_keeps(l2, o, id, "lifetime"@, io.lifetime.value, s2);
    lemma_override_keeps(l3, o, id, "rate"@, io.rate.value, s1);
    lemma_override_keeps(l3, o, id, "rate"@, io.rate.value, s2);
    lemma_override_keeps(l3, o, id, "rate"@, io.rate.value, s3);
    lemma_override_keeps(l4, o, id, "speed"@, io.speed.value, s1);
    lemma_override_keeps(l4, o, id, "speed"@, io.speed.value, s2);
    lemma_override_keeps(l4, o, id, "speed"@, io.speed.value, s3);
    lemma_override_keeps(l4, o, id, "speed"@, io.speed.value, s4);
    lemma_override_keeps(l5, o, id, "count"@, io.count.value, s1);
    lemma_override_keeps(l5, o, id, "count"@, io.count.value, s2);
    lemma_override_keeps(l5, o, id, "count"@, io.count.value, s3);
    lemma_override_keeps(l5, o, id, "count"@, io.count.value, s4);
    lemma_override_keeps(l5, o, id, "count"@, io.count.value, s5);
}

proof fn lemma_override(list: Seq<Seed>, o: Members, id: i64, name: Seq<char>, base: Number, a: AnimationModel) -> (s: Seed)
    ensures
        s == (Seed { object_id: id, key: name, target: Driven::ParticleOverride(name), base: seq![base], animation: a }),
        member_animation(o, name) == Some(a) ==> with_override(list, o, id, name, base).contains(s),
{
    let s = Seed { object_id: id, key: name, target: Driven::ParticleOverride(name), base: seq![base], animation: a };
    lemma_seed_stays(list, s, member_animation(o, name), id, name, Driven::ParticleOverride(name), seq![base]);
    s
}

proof fn lemma_override_keeps(list: Seq<Seed>, o: Members, id: i64, name: Seq<char>, base: Number, s: Seed)
    ensures
        list.contains(s) ==> with_override(list, o, id, name, base).contains(s),
{
    lemma_seed_stays(list, s, member_animation(o, name), id, name, Driven::ParticleOverride(name), seq![base]);
}

/// The zoom of a scene is animated where its general section says so, from the
/// zoom that it has.
pub proof fn law_the_zoom_is_animated(s: SceneModelView, bag: Bag, a: AnimationModel)
    requires
        member_animation(s.general.extra, "zoom"@) == Some(a),
    ensures
        animates(
            seeds_upto(s, bag, 0),
            -1i64,
            "zoom"@,
            Driven::SceneZoom,
            seq![crate::tracks::scene_zoom(s.general.extra, bag)],
            a,
        ),
{
    let base = seq![crate::tracks::scene_zoom(s.general.extra, bag)];
    let x = Seed { object_id: -1i64, key: "zoom"@, target: Driven::SceneZoom, base, animation: a };
    lemma_seed_stays(Seq::empty(), x, Some(a), -1i64, "zoom"@, Driven::SceneZoom, base);
}

/// The zoom and the width of a text are the setting's own value once resolved;
/// without one the zoom is one.
pub proof fn law_zoom_and_width_are_settings(t: TextModel, m: Members, o: Members, bag: Bag, b: u64)
    ensures
        holds(m, "zoom"@, Tree::Real(b)) ==> crate::tracks::scene_zoom(m, bag) == Number::Real(b),
        lacks(m, "zoom"@) ==> crate::tracks::scene_zoom(m, bag) == Number::Single(0x3f80_0000),
        lacks(m, "maxwidth"@) ==> text_width(t, m, bag) == t.maxwidth,
        holds(m, "maxwidth"@, Tree::Real(b)) ==> text_width(t, m, bag) == t.maxwidth,
        holds(m, "maxwidth"@, Tree::Table(o)) && holds(o, "value"@, Tree::Real(b)) && lacks(o, "user"@)
            ==> text_width(t, m, bag) == Number::Real(b),
{
    law_members_are_found_by_name(m, "zoom"@);
    law_members_are_found_by_name(m, "maxwidth"@);
    law_members_are_found_by_name(o, "value"@);
    law_members_are_found_by_name(o, "user"@);
}

} // verus!
