use kirie::media::{hex_rgb, media_frame, parse_utc_offset, MediaEvent};
use kirie::scripting::{merge_camera, parent_update, sort_layer_apply, CameraOp, LayerState, PropTarget};
use kirie::value::Scalar;

#[test]
fn utc_offset_parses_both_signs_and_short_forms() {
    let seconds = |s: &str| parse_utc_offset(s).map(|v| v as f64);
    assert_eq!(seconds("+0200"), Some(7200.0));
    assert_eq!(seconds("-0530"), Some(-19800.0));
    assert_eq!(seconds("+00"), Some(0.0));
    assert_eq!(seconds("0200"), None);
    assert_eq!(seconds("+2b00"), None);
    assert_eq!(seconds(""), None);
}

#[test]
fn utc_offsets_at_the_edges() {
    assert_eq!(parse_utc_offset("+1"), None);
    assert_eq!(parse_utc_offset("+123"), Some(12 * 3600));
    assert_eq!(parse_utc_offset("-9999"), Some(-(99 * 3600 + 99 * 60)));
    assert_eq!(parse_utc_offset("+0130extra"), None);
    assert_eq!(parse_utc_offset("+013055"), Some(5400));
}

fn layer_list(ids: &[i64]) -> Vec<LayerState> {
    ids.iter()
        .map(|&id| LayerState::blank(id, String::new()))
        .collect()
}

fn ids(layers: &[LayerState]) -> Vec<i64> {
    layers.iter().map(|l| l.id).collect()
}

#[test]
fn sort_layer_moves_toward_bottom() {
    let mut layers = layer_list(&[10, 20, 30, 40]);
    assert!(sort_layer_apply(&mut layers, 30, 0));
    assert_eq!(ids(&layers), [30, 10, 20, 40]);
}

#[test]
fn sort_layer_moves_toward_top() {
    let mut layers = layer_list(&[10, 20, 30, 40]);
    assert!(sort_layer_apply(&mut layers, 10, 2));
    assert_eq!(ids(&layers), [20, 30, 10, 40]);
}

#[test]
fn sort_layer_negative_index_appends() {
    let mut layers = layer_list(&[10, 20, 30]);
    assert!(sort_layer_apply(&mut layers, 10, -1));
    assert_eq!(ids(&layers), [20, 30, 10]);
}

#[test]
fn sort_layer_past_end_appends() {
    let mut layers = layer_list(&[10, 20, 30]);
    assert!(sort_layer_apply(&mut layers, 20, 99));
    assert_eq!(ids(&layers), [10, 30, 20]);
}

#[test]
fn sort_layer_unknown_id_is_a_noop() {
    let mut layers = layer_list(&[10, 20, 30]);
    assert!(!sort_layer_apply(&mut layers, 77, 0));
    assert_eq!(ids(&layers), [10, 20, 30]);
}

#[test]
fn sort_layer_same_position_is_stable() {
    let mut layers = layer_list(&[10, 20, 30]);
    assert!(sort_layer_apply(&mut layers, 20, 1));
    assert_eq!(ids(&layers), [10, 20, 30]);
}

#[test]
fn set_parent_filters_like_the_reference() {
    assert_eq!(parent_update(3, Some(7)), Some((3, 7)));
    assert_eq!(parent_update(3, Some(3)), None);
    assert_eq!(parent_update(3, None), None);
}

fn bits(v: [f32; 3]) -> [u32; 3] {
    v.map(f32::to_bits)
}

#[test]
fn camera_ops_merge_last_wins_per_field() {
    let none = CameraOp { eye: None, center: None, up: None, fov: None, zoom: None };
    let mut slot = None;
    merge_camera(
        &mut slot,
        CameraOp { eye: Some(bits([1.0, 2.0, 3.0])), fov: Some(60.0f32.to_bits()), ..none },
    );
    merge_camera(
        &mut slot,
        CameraOp {
            center: Some(bits([4.0, 5.0, 6.0])),
            fov: Some(45.0f32.to_bits()),
            zoom: Some(2.0f32.to_bits()),
            ..none
        },
    );
    assert_eq!(
        slot,
        Some(CameraOp {
            eye: Some(bits([1.0, 2.0, 3.0])),
            center: Some(bits([4.0, 5.0, 6.0])),
            up: None,
            fov: Some(45.0f32.to_bits()),
            zoom: Some(2.0f32.to_bits()),
        })
    );
}

#[test]
fn fields_name_their_targets() {
    assert_eq!(PropTarget::from_field("alpha"), Some(PropTarget::Alpha));
    assert_eq!(PropTarget::from_field("nothing"), None);
}

fn channels(s: &str) -> Option<[i64; 3]> {
    hex_rgb(s).map(|v| {
        [v.x, v.y, v.z].map(|c| match c {
            Scalar::Channel(i) => i,
            other => panic!("a channel, not {other:?}"),
        })
    })
}

#[test]
fn hex_colours_are_read() {
    assert_eq!(channels("#00ff7F"), Some([0, 255, 127]));
    assert_eq!(channels("#+f0102"), Some([15, 1, 2]));
    assert_eq!(channels("00ff7f"), None);
    assert_eq!(channels("#00ff7"), None);
    assert_eq!(channels("#00ff7g"), None);
    assert_eq!(channels("#é0ff7f"), None);
}

fn event() -> MediaEvent {
    MediaEvent {
        available: true,
        state: 1,
        title: "t".to_owned(),
        artist: "a".to_owned(),
        album: "b".to_owned(),
        position: 2.0f64.to_bits(),
        duration: 3.0f64.to_bits(),
        art_key: 5,
        has_thumbnail: true,
        primary_color: Some("#010203".to_owned()),
        secondary_color: Some("#040506".to_owned()),
        text_color: Some("#070809".to_owned()),
        high_contrast_color: Some("#0a0b0c".to_owned()),
    }
}

#[test]
fn scripts_hear_of_music_only_when_it_changes() {
    let mut prev = None;
    let first = media_frame(&event(), &mut prev, false).expect("the first time all is news");
    assert!(first.changes.status && first.changes.timeline);
    assert_eq!(first.title, "t");
    let colors = first.colors.expect("all four colours are given");
    assert!(matches!(colors.tertiary.x, Scalar::Channel(4)));
    assert!(matches!(colors.high_contrast.z, Scalar::Channel(12)));
    assert!(media_frame(&event(), &mut prev, false).is_none());
    assert!(media_frame(&event(), &mut prev, true).expect("moved").changes.timeline);
    let mut other = event();
    other.artist = "c".to_owned();
    other.text_color = None;
    let told = media_frame(&other, &mut prev, false).expect("another artist");
    assert!(told.changes.properties && !told.changes.status && !told.changes.playback);
    assert!(told.colors.is_none());
}
