use kirie::animation::{
    eval_channel, track_moves, ChannelSample, Keyframe, PlayMode, PropertyAnimation, Readings, Sample,
    TimedHandle, TimedKey, Timeline, TrackPoint,
};
use kirie::animator::{AnimOutput, AnimTarget, AnimatedProp, PropertyAnimator, SCENE_OBJECT};
use kirie::json::{parse, Json};
use kirie::object::ObjectKind;
use kirie::property::{PropertyBag, PropertyValue};
use kirie::resolve::SceneModel;
use kirie::scene::Scene;
use kirie::script::ScriptValue;
use kirie::scripting::PropTarget;
use kirie::singles::{single_at_most, single_below, single_equal, single_greater, widen};
use kirie::tracks::{animated_properties, max_width};
use kirie::value::Scalar;

fn single(s: &Scalar) -> f32 {
    match s {
        Scalar::Single(b) => f32::from_bits(*b),
        Scalar::Int(i) => *i as f32,
        Scalar::UInt(u) => *u as f32,
        Scalar::Real(b) => f64::from_bits(*b) as f32,
        Scalar::Lexeme(t) => t.parse().unwrap_or(0.0),
        Scalar::Wide(t) => t.parse::<f64>().unwrap_or(0.0) as f32,
        Scalar::Channel(i) => *i as f32 / 255.0,
        Scalar::Degrees(x) => single(x).to_degrees(),
        Scalar::Radians(x) => single(x).to_radians(),
    }
}

fn timed(k: &Keyframe) -> TimedKey {
    let handle = |h: &kirie::animation::Handle| TimedHandle {
        enabled: h.enabled,
        x: single(&h.x).to_bits(),
        y: single(&h.y).to_bits(),
    };
    TimedKey {
        frame: single(&k.frame).to_bits(),
        value: single(&k.value).to_bits(),
        front: handle(&k.front),
        back: handle(&k.back),
        step: k.step,
    }
}

fn timeline(a: &PropertyAnimation) -> Timeline {
    let numbers = Readings {
        channels: a
            .channels
            .iter()
            .map(|c| c.keys.iter().map(timed).collect())
            .collect(),
        fps: a.fps.as_ref().map(|s| single(s).to_bits()),
        length: a.length.as_ref().map(|s| single(s).to_bits()),
        events: a.events.iter().map(|e| single(&e.frame).to_bits()).collect(),
    };
    Timeline::new(a, &numbers)
}

fn document(text: &str) -> Json {
    parse(text.as_bytes()).expect("a document")
}

fn animation(text: &str) -> Option<PropertyAnimation> {
    PropertyAnimation::parse(document(text).as_table().expect("a table"))
}

fn anim(text: &str) -> Timeline {
    timeline(&animation(text).expect("an animation"))
}

fn cubic(p0: f32, p1: f32, p2: f32, p3: f32, t: f32) -> f32 {
    let u = 1.0 - t;
    u * u * u * p0 + 3.0 * u * u * t * p1 + 3.0 * u * t * t * p2 + t * t * t * p3
}

fn bezier_at(x: f32, p0: [f32; 2], p1: [f32; 2], p2: [f32; 2], p3: [f32; 2]) -> f32 {
    let (mut lo, mut hi) = (0.0f32, 1.0f32);
    for _ in 0..60 {
        let mid = 0.5 * (lo + hi);
        if cubic(p0[0], p1[0], p2[0], p3[0], mid) < x {
            lo = mid;
        } else {
            hi = mid;
        }
    }
    cubic(p0[1], p1[1], p2[1], p3[1], 0.5 * (lo + hi))
}

fn sample(t: &Timeline, channel: usize, frame: f32) -> Option<f32> {
    let f = f32::from_bits;
    Some(match t.sample(channel, frame.to_bits())? {
        Sample::Value(v) => f(v),
        Sample::Wrap { last, first } => {
            let length = f(t.length);
            let half = (length - f(last.frame)) * 0.5;
            let c1 = if last.front.enabled {
                [f(last.frame) + f(last.front.x) * half, f(last.value) + f(last.front.y)]
            } else {
                [f(last.frame), f(last.value)]
            };
            let c2 = if first.front.enabled {
                [length - f(first.front.x) * half, f(first.value) - f(first.front.y)]
            } else {
                [length, f(first.value)]
            };
            bezier_at(frame, [f(last.frame), f(last.value)], c1, c2, [length, f(first.value)])
        }
        Sample::Between { from: g, to: a } => {
            let half = (f(a.frame) - f(g.frame)) * 0.5;
            let c1 = if g.front.enabled {
                [f(g.frame) + f(g.front.x) * half, f(g.value) + f(g.front.y)]
            } else {
                [f(g.frame), f(g.value)]
            };
            let c2 = if a.back.enabled {
                [f(a.frame) + f(a.back.x) * half, f(a.value) + f(a.back.y)]
            } else {
                [f(a.frame), f(a.value)]
            };
            bezier_at(frame, [f(g.frame), f(g.value)], c1, c2, [f(a.frame), f(a.value)])
        }
    })
}

fn key(frame: f32, value: f32) -> String {
    format!(
        r#"{{"frame": {frame}, "value": {value},
            "front": {{"enabled": true, "x": 1, "y": 0}},
            "back": {{"enabled": true, "x": -1, "y": 0}}}}"#
    )
}

fn flat(frame: f32, value: f32) -> String {
    format!(
        r#"{{"frame": {frame}, "value": {value},
            "front": {{"enabled": false}}, "back": {{"enabled": false}}}}"#
    )
}

#[test]
fn parses_options_and_channels() {
    let source = animation(&format!(
        r#"{{
        "value": "1 2 0",
        "relative": true,
        "animation": {{
            "c0": [{}, {}],
            "c1": [{}, {}],
            "options": {{"fps": 15, "length": 60, "mode": "loop", "wraploop": true,
                        "startpaused": true, "name": "n", "parent": {{"key": "alpha"}},
                        "children": [{{"key": "scale"}}], "events": [{{"frame": 30, "name": "e"}}]}}
        }}
    }}"#,
        key(0.0, 0.0),
        key(30.0, 10.0),
        key(0.0, 0.0),
        key(30.0, -5.0)
    ))
    .unwrap();
    let a = timeline(&source);
    assert_eq!(a.channel_count(), 2);
    assert_eq!(source.channel_count(), 2);
    assert_eq!(f32::from_bits(a.fps), 15.0);
    assert_eq!(f32::from_bits(a.length), 60.0);
    assert_eq!(a.mode, PlayMode::Loop);
    assert!(a.wraploop && a.startpaused && a.relative);
    assert_eq!(a.name.as_deref(), Some("n"));
    assert_eq!(a.parent.as_deref(), Some("alpha"));
    assert_eq!(source.children, vec!["scale".to_owned()]);
    assert_eq!(a.events[0].1, "e");
}

#[test]
fn defaults_when_options_missing() {
    let a = anim(&format!(
        r#"{{"value": 1.0, "animation": {{"c0": [{}, {}]}}}}"#,
        key(0.0, 1.0),
        key(20.0, 0.0)
    ));
    assert_eq!(f32::from_bits(a.fps), 30.0);
    assert_eq!(f32::from_bits(a.length), 20.0);
    assert_eq!(a.mode, PlayMode::Single);
    assert!(!a.wraploop && !a.startpaused && !a.relative);
}

#[test]
fn no_animation_is_none() {
    assert!(animation(r#"{"value": 1.0}"#).is_none());
    assert!(animation(r#"{"value": 1.0, "animation": {"options": {}}}"#).is_none());
}

#[test]
fn eased_segment_hits_endpoints_and_midpoint() {
    let a = anim(&format!(
        r#"{{"value": 0.0, "animation": {{"c0": [{}, {}], "options": {{"length": 30}}}}}}"#,
        key(0.0, 0.0),
        key(30.0, 10.0)
    ));
    assert_eq!(sample(&a, 0, -5.0), Some(0.0));
    assert_eq!(sample(&a, 0, 0.0), Some(0.0));
    assert!((sample(&a, 0, 15.0).unwrap() - 5.0).abs() < 1e-3);
    assert!((sample(&a, 0, 30.0).unwrap() - 10.0).abs() < 1e-5);
    assert_eq!(sample(&a, 0, 40.0), Some(10.0));
    let q = sample(&a, 0, 7.5).unwrap();
    assert!(q > 0.0 && q < 2.5, "eased start should lag linear: {q}");
}

#[test]
fn linear_when_handles_disabled() {
    let a = anim(&format!(
        r#"{{"value": 0.0, "animation": {{"c0": [{}, {}]}}}}"#,
        flat(0.0, 0.0),
        flat(10.0, 10.0)
    ));
    for f in [1.0, 2.5, 6.0, 9.0] {
        assert!((sample(&a, 0, f).unwrap() - f).abs() < 1e-4);
    }
}

#[test]
fn step_holds_previous_value() {
    let stepped = key(10.0, 5.0).replacen("{\"frame\"", "{\"step\": true, \"frame\"", 1);
    let a = anim(&format!(
        r#"{{"value": 0.0, "animation": {{"c0": [{}, {stepped}]}}}}"#,
        key(0.0, 1.0)
    ));
    assert_eq!(sample(&a, 0, 9.99), Some(1.0));
    assert_eq!(sample(&a, 0, 10.0), Some(5.0));
}

#[test]
fn wraploop_returns_to_first_value_at_length() {
    let a = anim(&format!(
        r#"{{"value": 0.0, "animation": {{"c0": [{}, {}],
            "options": {{"length": 40, "mode": "loop", "wraploop": true}}}}}}"#,
        key(0.0, 2.0),
        key(20.0, 8.0)
    ));
    assert!((sample(&a, 0, 20.0).unwrap() - 8.0).abs() < 1e-5);
    assert!((sample(&a, 0, 30.0).unwrap() - 5.0).abs() < 1e-3);
    assert!((sample(&a, 0, 40.0).unwrap() - 2.0).abs() < 1e-5);
}

#[test]
fn without_wraploop_holds_last_value() {
    let a = anim(&format!(
        r#"{{"value": 0.0, "animation": {{"c0": [{}, {}],
            "options": {{"length": 40, "mode": "loop"}}}}}}"#,
        key(0.0, 2.0),
        key(20.0, 8.0)
    ));
    assert_eq!(sample(&a, 0, 30.0), Some(8.0));
}

#[test]
fn missing_channel_is_none() {
    let a = anim(&format!(
        r#"{{"value": 0.0, "animation": {{"c0": [{}, {}]}}}}"#,
        key(0.0, 2.0),
        key(20.0, 8.0)
    ));
    assert_eq!(sample(&a, 1, 5.0), None);
}

#[test]
fn keys_are_put_in_the_order_of_their_frames() {
    let a = anim(
        r#"{"animation": {"c0": [{"frame": 9, "value": 1}, {"frame": -2, "value": 2},
            {"value": 7}, {"frame": 3, "value": 3}, {"frame": 9, "value": 4}],
            "options": {"length": -5, "fps": 0, "mode": "timeofday"}}}"#,
    );
    let order: Vec<(f32, f32)> = a.channels[0]
        .iter()
        .map(|k| (f32::from_bits(k.frame), f32::from_bits(k.value)))
        .collect();
    assert_eq!(order, [(-2.0, 2.0), (3.0, 3.0), (9.0, 1.0), (9.0, 4.0)]);
    assert_eq!(f32::from_bits(a.length), 9.0);
    assert_eq!(f32::from_bits(a.fps), 30.0);
    assert!(a.wraploop);
    let short = anim(r#"{"animation": {"c0": [{"frame": 0}]}}"#);
    assert_eq!(f32::from_bits(short.length), 1.0);
}

#[test]
fn channels_end_at_the_first_gap() {
    let a = animation(
        r#"{"animation": {"c0": [{"frame": 0}], "c1": [], "c3": [{"frame": 0}], "c10": []}}"#,
    )
    .unwrap();
    assert_eq!(a.channel_count(), 2);
    let many: Vec<String> = (0..12).map(|i| format!(r#""c{i}": [{{"frame": {i}}}]"#)).collect();
    let b = animation(&format!(r#"{{"animation": {{{}}}}}"#, many.join(","))).unwrap();
    assert_eq!(b.channel_count(), 12);
    assert_eq!(single(&b.channels[11].keys[0].frame), 11.0);
}

fn frame_of(t: &AnimatedProp, pos: f32) -> f32 {
    let len = f32::from_bits(t.anim.length).max(0.0);
    match t.anim.mode {
        PlayMode::Single | PlayMode::TimeOfDay => pos.clamp(0.0, len),
        PlayMode::Loop => pos.rem_euclid(len),
        PlayMode::Mirror => {
            let p = pos.rem_euclid(2.0 * len);
            if p > len { 2.0 * len - p } else { p }
        }
    }
}

fn frames(an: &PropertyAnimator) -> Vec<u32> {
    an.tracks
        .iter()
        .map(|t| frame_of(t, f32::from_bits(t.pos)).to_bits())
        .collect()
}

fn tick(an: &mut PropertyAnimator, dt: f32, time_of_day: f32) -> (AnimOutput, Vec<(i64, String, f32)>) {
    let f = f32::from_bits;
    let prev = frames(an);
    let candidates: Vec<u32> = an
        .tracks
        .iter()
        .map(|t| match t.anim.mode {
            PlayMode::TimeOfDay => (time_of_day * f(t.anim.length)).to_bits(),
            _ => (f(t.pos) + dt * f(t.anim.fps) * f(t.rate)).to_bits(),
        })
        .collect();
    let now: Vec<u32> = an
        .tracks
        .iter()
        .zip(&candidates)
        .map(|(t, c)| frame_of(t, f(*c)).to_bits())
        .collect();
    let events = an.events(&prev, &now);
    an.advance(&candidates);
    let values: Vec<Vec<u32>> = an
        .tracks
        .iter()
        .map(|t| {
            let frame = frame_of(t, f(t.pos));
            (0..t.base.len())
                .map(|ch| match sample(&t.anim, ch, frame) {
                    Some(s) if t.anim.relative => (f(t.base[ch]) + s).to_bits(),
                    Some(s) => s.to_bits(),
                    None => t.base[ch],
                })
                .collect()
        })
        .collect();
    let out = an.publish(&values);
    let events = events.into_iter().map(|(id, n, at)| (id, n, f(at))).collect();
    (out, events)
}

fn track(anim: Timeline, base: &[f32], target: AnimTarget) -> AnimatedProp {
    AnimatedProp::new(
        7,
        "alpha".to_owned(),
        target,
        base.iter().map(|v| v.to_bits()).collect(),
        anim,
    )
}

fn float(v: &ScriptValue) -> f64 {
    match v {
        ScriptValue::Float(b) => f64::from_bits(*b),
        other => panic!("a float, not {other:?}"),
    }
}

#[test]
fn single_plays_once_and_holds() {
    let a = anim(&format!(
        r#"{{"value": 1.0, "animation": {{"c0": [{}, {}],
            "options": {{"fps": 10, "length": 10, "mode": "single"}}}}}}"#,
        flat(0.0, 1.0),
        flat(10.0, 0.0)
    ));
    let mut an =
        PropertyAnimator::build(vec![track(a, &[1.0], AnimTarget::Layer(PropTarget::Alpha))]).unwrap();
    let (first, _) = tick(&mut an, 0.0, 0.0);
    assert_eq!(first.updates.len(), 1);
    assert_eq!(float(&first.updates[0].value), 1.0);
    assert_eq!(first.overrides[0].0, "alpha_7");
    let (mid, _) = tick(&mut an, 0.5, 0.0);
    assert!((float(&mid.updates[0].value) - 0.5).abs() < 1e-4);
    tick(&mut an, 1.0, 0.0);
    assert!(!an.is_playing(0));
    assert_eq!(f32::from_bits(frames(&an)[0]), 10.0);
    assert!(tick(&mut an, 1.0, 0.0).0.updates.is_empty());
    an.play(0);
    assert!(an.is_playing(0));
    assert_eq!(f32::from_bits(frames(&an)[0]), 0.0);
}

#[test]
fn loop_wraps_and_relative_adds_offset() {
    let a = anim(&format!(
        r#"{{"value": "1 2 0", "relative": true, "animation": {{
            "c0": [{}, {}],
            "options": {{"fps": 1, "length": 4, "mode": "loop"}}}}}}"#,
        flat(0.0, 0.0),
        flat(4.0, 8.0)
    ));
    let mut an = PropertyAnimator::build(vec![track(
        a,
        &[1.0, 2.0, 0.0],
        AnimTarget::Layer(PropTarget::Origin),
    )])
    .unwrap();
    let near = |v: &ScriptValue, want: [f32; 3]| match v {
        ScriptValue::Vec3(b) => (0..3).all(|i| (f32::from_bits(b[i]) - want[i]).abs() < 1e-4),
        _ => false,
    };
    tick(&mut an, 0.0, 0.0);
    let (o, _) = tick(&mut an, 1.0, 0.0);
    assert!(near(&o.updates[0].value, [3.0, 2.0, 0.0]));
    assert!(tick(&mut an, 4.0, 0.0).0.updates.is_empty());
    let (o, _) = tick(&mut an, 1.0, 0.0);
    assert!(near(&o.updates[0].value, [5.0, 2.0, 0.0]));
}

#[test]
fn animation_mirror_ping_pongs() {
    let a = anim(&format!(
        r#"{{"value": 0.0, "animation": {{"c0": [{}, {}],
            "options": {{"fps": 1, "length": 4, "mode": "mirror"}}}}}}"#,
        flat(0.0, 0.0),
        flat(4.0, 4.0)
    ));
    let mut an = PropertyAnimator::build(vec![track(a, &[0.0], AnimTarget::SceneZoom)]).unwrap();
    let zoom = |o: AnimOutput| o.zoom.map(|b| f32::from_bits(b).round());
    tick(&mut an, 0.0, 0.0);
    assert_eq!(zoom(tick(&mut an, 3.0, 0.0).0), Some(3.0));
    assert_eq!(zoom(tick(&mut an, 2.0, 0.0).0), None);
    assert_eq!(zoom(tick(&mut an, 1.0, 0.0).0), Some(2.0));
    assert_eq!(zoom(tick(&mut an, 3.0, 0.0).0), Some(1.0));
}

#[test]
fn paused_start_still_applies_frame_zero_and_events_fire() {
    let a = anim(&format!(
        r#"{{"value": 1.0, "animation": {{"c0": [{}, {}],
            "options": {{"fps": 10, "length": 10, "mode": "single", "startpaused": true,
                        "events": [{{"frame": 5, "name": "half"}}]}}}}}}"#,
        flat(0.0, 0.0),
        flat(10.0, 1.0)
    ));
    let mut an = PropertyAnimator::build(vec![track(
        a,
        &[1.0],
        AnimTarget::ParticleOverride("alpha".into()),
    )])
    .unwrap();
    let (o, _) = tick(&mut an, 0.5, 0.0);
    assert_eq!(o.particle, vec![(7, "alpha".to_owned(), 0.0f32.to_bits())]);
    assert!(!an.is_playing(0));
    an.play(0);
    let (_, events) = tick(&mut an, 0.6, 0.0);
    assert_eq!(events, vec![(7, "half".to_owned(), 5.0)]);
    an.stop(0);
    assert_eq!(f32::from_bits(frames(&an)[0]), 0.0);
    assert!(!an.is_playing(0));
}

#[test]
fn children_follow_parent() {
    let parent = anim(&format!(
        r#"{{"value": 0.0, "animation": {{"c0": [{}, {}],
            "options": {{"fps": 10, "length": 10, "mode": "single", "startpaused": true, "name": "n",
                        "children": [{{"key": "b"}}]}}}}}}"#,
        flat(0.0, 0.0),
        flat(10.0, 10.0)
    ));
    let child = anim(&format!(
        r#"{{"value": 0.0, "animation": {{"c0": [{}, {}],
            "options": {{"fps": 10, "length": 10, "mode": "single", "parent": {{"key": "alpha"}}}}}}}}"#,
        flat(0.0, 0.0),
        flat(10.0, 20.0)
    ));
    let mut c = track(child, &[0.0], AnimTarget::TextMaxWidth);
    c.key = "b".into();
    let mut an =
        PropertyAnimator::build(vec![track(parent, &[0.0], AnimTarget::SceneZoom), c]).unwrap();
    assert_eq!(an.tracks[1].parent, Some(0));
    let round = |v: Vec<(i64, u32)>| -> Vec<(i64, f32)> {
        v.into_iter().map(|(id, b)| (id, f32::from_bits(b).round())).collect()
    };
    let (o, _) = tick(&mut an, 0.5, 0.0);
    assert_eq!(o.zoom, Some(0.0f32.to_bits()));
    assert_eq!(round(o.text_width), vec![(7, 0.0)]);
    assert_eq!(an.find(7, Some("n")), vec![0]);
    assert_eq!(an.find(7, None), vec![0]);
    an.play(1);
    let (o, _) = tick(&mut an, 0.5, 0.0);
    assert_eq!(o.zoom.map(|b| f32::from_bits(b).round()), Some(5.0));
    assert_eq!(round(o.text_width), vec![(7, 10.0)]);
}

#[test]
fn animations_are_found_and_steered() {
    let make = || {
        anim(&format!(
            r#"{{"animation": {{"c0": [{}, {}],
                "options": {{"fps": 10, "length": 10, "mode": "loop", "name": "n"}}}}}}"#,
            flat(0.0, 0.0),
            flat(10.0, 1.0)
        ))
    };
    let mut an = PropertyAnimator::build(vec![
        track(make(), &[0.0], AnimTarget::SceneZoom),
        track(make(), &[0.0], AnimTarget::SceneZoom),
    ])
    .unwrap();
    assert_eq!(an.find_by_name("n"), [0, 1]);
    assert!(an.find_by_name("m").is_empty());
    assert!(an.find(8, None).is_empty());
    an.set_frame(1, (-3.0f32).to_bits());
    assert_eq!(f32::from_bits(an.tracks[1].pos), 0.0);
    an.set_frame(1, 4.0f32.to_bits());
    an.set_rate(1, 2.0f32.to_bits());
    an.pause(0);
    assert!(!an.is_playing(0) && an.is_playing(1) && !an.is_playing(9));
    tick(&mut an, 0.1, 0.0);
    assert_eq!(f32::from_bits(an.tracks[0].pos), 0.0);
    assert_eq!(f32::from_bits(an.tracks[1].pos), 6.0);
    let (fps, length, rate, name) = an.info(1).unwrap();
    assert_eq!((f32::from_bits(fps), f32::from_bits(length), f32::from_bits(rate)), (10.0, 10.0, 2.0));
    assert_eq!(name.as_deref(), Some("n"));
    assert!(an.info(2).is_none());
    assert!(PropertyAnimator::build(vec![]).is_none());
    assert_eq!(SCENE_OBJECT, -1);
}

#[test]
fn scripts_order_animations_about() {
    let make = |mode: &str| {
        anim(&format!(
            r#"{{"animation": {{"c0": [{}, {}], "options": {{"fps": 10, "length": 10, "mode": "{mode}"}}}}}}"#,
            flat(0.0, 0.0),
            flat(10.0, 1.0)
        ))
    };
    let mut an = PropertyAnimator::build(vec![
        track(make("single"), &[0.0], AnimTarget::SceneZoom),
        track(make("loop"), &[0.0], AnimTarget::SceneZoom),
    ])
    .unwrap();
    tick(&mut an, 2.0, 0.0);
    assert!(!an.is_playing(0));
    an.command(0, "play", 0);
    assert!(an.is_playing(0));
    assert_eq!(f32::from_bits(an.tracks[0].pos), 0.0);
    an.command(0, "setFrame", 3.0f32.to_bits());
    assert_eq!(f32::from_bits(an.tracks[0].pos), 3.0);
    an.command(0, "rate", 2.0f32.to_bits());
    assert_eq!(f32::from_bits(an.tracks[0].rate), 2.0);
    an.command(0, "pause", 0);
    assert!(!an.is_playing(0));
    assert_eq!(f32::from_bits(an.tracks[0].pos), 3.0);
    an.command(0, "stop", 0);
    assert_eq!(f32::from_bits(an.tracks[0].pos), 0.0);
    let before = format!("{an:?}");
    an.command(1, "jump", 5.0f32.to_bits());
    an.command(7, "stop", 0);
    assert_eq!(format!("{an:?}"), before);
}

#[test]
fn the_animated_properties_of_a_scene_are_found() {
    let a = r#""animation": {"c0": [{"frame": 0}]}"#;
    let scene = Scene::from_slice(
        format!(
            r#"{{
        "camera": {{ "eye": "0 0 1", "center": "0 0 0", "up": "0 1 0" }},
        "general": {{ "zoom": {{ "value": 2.0, {a} }} }},
        "objects": [
            {{ "id": 1, "image": "m.json", "origin": {{ "value": "1 2 3", {a} }},
               "color": {{ "value": "1 0 0", {a} }},
               "effects": [
                   {{ "name": "no file" }},
                   {{ "file": "e.json", "passes": [ {{ "constantshadervalues": {{
                       "g_A": {{ "value": 4, {a} }}, "g_B": 5, "g_C": {{ "value": null, {a} }} }} }} ] }}
               ] }},
            {{ "id": 2, "particle": "p.json", "instanceoverride": {{ "rate": {{ "value": 3.0, {a} }} }} }},
            {{ "id": 3, "text": "x", "maxwidth": {{ "value": 9, {a} }} }}
        ]
    }}"#
        )
        .as_bytes(),
    )
    .expect("a scene");
    let seeds = animated_properties(&scene, &PropertyBag::new());
    let seen: Vec<(i64, &str, usize)> =
        seeds.iter().map(|s| (s.object_id, s.key.as_str(), s.base.len())).collect();
    assert_eq!(
        seen,
        [
            (-1, "zoom", 1),
            (1, "origin", 3),
            (1, "color", 3),
            (1, "g_A", 1),
            (2, "rate", 1),
            (3, "maxwidth", 1)
        ]
    );
    assert_eq!(single(&seeds[0].base[0]), 2.0);
    assert_eq!(single(&seeds[1].base[2]), 3.0);
    assert_eq!(
        seeds[3].target,
        AnimTarget::EffectConstant { effect: 0, name: "g_A".to_owned() }
    );
    assert_eq!(seeds[4].target, AnimTarget::ParticleOverride("rate".to_owned()));
    assert_eq!(seeds[5].target, AnimTarget::TextMaxWidth);
}

#[test]
fn animated_properties_start_from_their_resolved_values() {
    let a = r#""animation": {"c0": [{"frame": 0}]}"#;
    let json = format!(
        r#"{{
        "camera": {{ "eye": "0 0 1", "center": "0 0 0", "up": "0 1 0" }},
        "general": {{ "zoom": {{ "value": 2.0, "user": "near", {a} }} }},
        "objects": [
            {{ "id": 1, "image": "m.json", "effects": [ {{ "file": "e.json", "passes": [
                {{ "constantshadervalues": {{ "plain": 1 }} }},
                {{ "constantshadervalues": {{
                    "zeta": {{ "value": 4.0, "user": "near", {a} }},
                    "Alpha": {{ "value": 6.0, {a} }} }} }} ] }} ] }},
            {{ "id": 3, "text": "x", "maxwidth": {{ "value": 300, "user": "wide", {a} }},
               "effects": [ {{ "file": "e.json", "passes": [ {{ "constantshadervalues": {{
                   "g": {{ "value": 4.0, "user": "near", {a} }} }} }} ] }} ] }}
        ]
    }}"#
    );
    let mut bag = PropertyBag::new();
    bag.insert(
        "near",
        PropertyValue::Number {
            bits: 8.0f64.to_bits(),
            single: 8.0f32.to_bits(),
            shown: "8".to_owned(),
        },
    );
    let scene = Scene::from_slice(json.as_bytes()).expect("a scene");
    let model = SceneModel::resolve(scene, &bag);
    let seen: Vec<(String, f32)> = animated_properties(&model.scene, &bag)
        .into_iter()
        .map(|s| (s.key, single(&s.base[0])))
        .collect();
    let want = [("zoom", 8.0), ("Alpha", 6.0), ("zeta", 8.0), ("maxwidth", 300.0), ("g", 8.0)];
    assert_eq!(seen.len(), want.len());
    for ((key, base), (k, b)) in seen.iter().zip(want) {
        assert_eq!((key.as_str(), *base), (k, b));
    }
    let plain = Scene::from_slice(json.as_bytes()).expect("a scene");
    let ObjectKind::Text(t) = &plain.objects[1].kind else {
        panic!("a text");
    };
    assert_eq!(single(&max_width(t, &plain.objects[1].extra, &bag)), 300.0);
}

#[test]
fn frames_without_a_place_are_asked_of_no_keys() {
    let a = anim(r#"{"animation": {"c0": [{"frame": 0, "value": 2}, {"frame": 4, "value": 3}], "c1": []}}"#);
    assert_eq!(a.sample(1, f32::NAN.to_bits()), None);
    assert_eq!(a.sample(7, f32::NAN.to_bits()), None);
    let mut b = anim(r#"{"animation": {"c0": [{"frame": 0, "value": 2}, {"frame": 4, "value": 3}]}}"#);
    b.channels[0][0].frame = (-f32::NAN).to_bits();
    assert_eq!(b.sample(0, 4.0f32.to_bits()), Some(Sample::Value(3.0f32.to_bits())));
}

fn points(of: &[(f32, f32)]) -> Vec<TrackPoint> {
    of.iter()
        .map(|&(f, v)| TrackPoint { frame: f.to_bits(), value: v.to_bits() })
        .collect()
}

#[derive(Clone, Copy, PartialEq)]
enum Mode {
    Loop,
    Mirror,
}

fn track_sample(c0: &[(f32, f32)], length: f32, mode: Mode, time_secs: f32) -> Option<f32> {
    if !track_moves(length.to_bits(), c0.len(), 0, 0) {
        return None;
    }
    let mut frame = time_secs * 30.0;
    match mode {
        Mode::Mirror => {
            let period = 2.0 * length;
            frame = frame.rem_euclid(period);
            if frame > length {
                frame = period - frame;
            }
        }
        Mode::Loop => frame = frame.rem_euclid(length),
    }
    let f = f32::from_bits;
    Some(match eval_channel(&points(c0), frame.to_bits()) {
        ChannelSample::Value(v) => f(v),
        ChannelSample::Between { from, to } => {
            let span = f(to.frame) - f(from.frame);
            let t = if span > 0.0 { (frame - f(from.frame)) / span } else { 0.0 };
            f(from.value) + (f(to.value) - f(from.value)) * t
        }
    })
}

#[test]
fn disabled_when_length_zero_or_empty() {
    assert_eq!(track_sample(&[(0.0, 1.0)], 0.0, Mode::Loop, 1.0), None);
    assert_eq!(track_sample(&[], 100.0, Mode::Loop, 1.0), None);
}

#[test]
fn linear_interp_and_hold_outside_range() {
    let t = [(0.0, 0.0), (100.0, 10.0)];
    let at = |s: f32| track_sample(&t, 1000.0, Mode::Loop, s).unwrap();
    assert!((at(0.0) - 0.0).abs() < 1e-3);
    assert!((at(50.0 / 30.0) - 5.0).abs() < 1e-3);
    assert!((at(200.0 / 30.0) - 10.0).abs() < 1e-3);
}

#[test]
fn loop_wraps_over_length() {
    let t = [(0.0, 0.0), (100.0, 10.0)];
    let at = |s: f32| track_sample(&t, 100.0, Mode::Loop, s).unwrap();
    assert!((at(100.0 / 30.0) - 0.0).abs() < 1e-3);
    assert!((at(150.0 / 30.0) - 5.0).abs() < 1e-3);
}

#[test]
fn object_mirror_ping_pongs() {
    let t = [(0.0, 0.0), (100.0, 10.0)];
    let at = |s: f32| track_sample(&t, 100.0, Mode::Mirror, s).unwrap();
    assert!((at(150.0 / 30.0) - 5.0).abs() < 1e-3);
    assert!((at(100.0 / 30.0) - 10.0).abs() < 1e-3);
}

#[test]
fn singles_compare_and_widen_as_numbers_do() {
    let values = [
        0.0f32, -0.0, 1.0, -1.0, 1e-45, -1e-45, 1.1754942e-38, 1.1754944e-38, 0.1, -0.3, 3.4e38,
        f32::INFINITY, f32::NEG_INFINITY, f32::NAN, 123456.79,
    ];
    for a in values {
        if !a.is_nan() {
            assert_eq!(f64::from_bits(widen(a.to_bits())), f64::from(a));
        }
        for b in values {
            let (x, y) = (a.to_bits(), b.to_bits());
            assert_eq!(single_at_most(x, y), a <= b, "{a} <= {b}");
            assert_eq!(single_below(x, y), a < b, "{a} < {b}");
            assert_eq!(single_equal(x, y), a == b, "{a} == {b}");
            if !(a.is_nan() && b.is_nan()) {
                assert_eq!(f32::from_bits(single_greater(x, y)), a.max(b));
            }
        }
    }
    assert!(f64::from_bits(widen(f32::NAN.to_bits())).is_nan());
}
