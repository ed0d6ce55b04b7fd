use kirie::keys::{bundle_source, push_bytes, video_file_name, video_key};

#[test]
fn assets_dir_identity_is_part_of_the_key() {
    let none = bundle_source(b"p", None, None);
    let a = bundle_source(b"p", None, Some(b"/opt/we/assets"));
    let b = bundle_source(b"p", None, Some(b"/mnt/we/assets"));
    assert_ne!(none, a);
    assert_ne!(a, b);
}

#[test]
fn source_content_is_part_of_the_key() {
    assert_ne!(
        bundle_source(b"pkg-1", Some(b"proj"), None),
        bundle_source(b"pkg-2", Some(b"proj"), None)
    );
    assert_ne!(
        bundle_source(b"pkg", Some(b"proj-1"), None),
        bundle_source(b"pkg", Some(b"proj-2"), None)
    );
    assert_ne!(
        bundle_source(b"pkg", Some(b"proj"), None),
        bundle_source(b"pkg", None, None)
    );
}

#[test]
fn a_key_is_a_tag_two_hashes_and_a_path() {
    let key = bundle_source(b"pkg", Some(b"proj"), Some(b"/a"));
    let mut expected = b"kirie-scene-bundle-src\x02".to_vec();
    expected.extend_from_slice(blake3::hash(b"pkg").as_bytes());
    expected.push(1);
    expected.extend_from_slice(blake3::hash(b"proj").as_bytes());
    expected.push(1);
    expected.extend_from_slice(&[2, 0, 0, 0]);
    expected.extend_from_slice(b"/a");
    assert_eq!(key, expected);
    assert_eq!(bundle_source(b"pkg", None, None).len(), 23 + 32 + 1 + 1);
}

#[test]
fn bytes_stand_behind_their_length() {
    let mut out = vec![9];
    push_bytes(&mut out, &[1, 2, 3]);
    assert_eq!(out, [9, 3, 0, 0, 0, 1, 2, 3]);
    let mut long = Vec::new();
    push_bytes(&mut long, &vec![0; 0x1_02_03]);
    assert_eq!(&long[..4], &[3, 2, 1, 0]);
}

#[test]
fn videos_are_kept_under_their_content() {
    assert_eq!(video_key(b""), 0xcbf2_9ce4_8422_2325);
    assert_eq!(video_key(b"a"), 0xaf63_dc4c_8601_ec8c);
    assert_eq!(video_file_name(b"a"), "kirie-vtex-af63dc4c8601ec8c.mp4");
    assert_eq!(
        video_file_name(b"foobar"),
        format!("kirie-vtex-{:016x}.mp4", 0x8594_4171_f739_67e8_u64)
    );
}
