//! What scripts are told of the music that plays, and of the time.
use vstd::prelude::*;

use crate::copy::Duplicate;
use crate::strings::{chars_of, digit_char, is_digit, opt_view, same_text};
use crate::value::{digits_value, hex_digit, Number, Scalar, Vec3};

verus! {

/// What is known of the music that plays. Times are the bits of doubles.
#[derive(Debug)]
pub struct MediaEvent {
    pub available: bool,
    pub state: i32,
    pub title: String,
    pub artist: String,
    pub album: String,
    pub position: u64,
    pub duration: u64,
    /// What stands for the picture that is shown; zero for none.
    pub art_key: usize,
    pub has_thumbnail: bool,
    pub primary_color: Option<String>,
    pub secondary_color: Option<String>,
    pub text_color: Option<String>,
    pub high_contrast_color: Option<String>,
}

/// What scripts were last told of.
#[derive(Debug)]
pub struct MediaPrev {
    pub available: bool,
    pub state: i32,
    pub title: String,
    pub artist: String,
    pub album: String,
    pub art_key: usize,
}

/// What a [`MediaPrev`] holds.
pub struct PrevModel {
    pub available: bool,
    pub state: i32,
    pub title: Seq<char>,
    pub artist: Seq<char>,
    pub album: Seq<char>,
    pub art_key: usize,
}

impl View for MediaPrev {
    type V = PrevModel;

    open spec fn view(&self) -> PrevModel {
        PrevModel {
            available: self.available,
            state: self.state,
            title: self.title@,
            artist: self.artist@,
            album: self.album@,
            art_key: self.art_key,
        }
    }
}

/// What has changed since scripts were last told.
#[derive(Clone, Copy, Debug, PartialEq, Eq, Structural)]
pub struct MediaChanges {
    pub status: bool,
    pub playback: bool,
    pub properties: bool,
    pub thumbnail: bool,
    pub timeline: bool,
}

/// The colours that go with the music: the first, the second, the second
/// again, that of texts, and one that stands out.
#[derive(Debug)]
pub struct MediaColors {
    pub primary: Vec3,
    pub secondary: Vec3,
    pub tertiary: Vec3,
    pub text: Vec3,
    pub high_contrast: Vec3,
}

/// What a [`MediaColors`] holds.
pub struct ColorsModel {
    pub primary: (Number, Number, Number),
    pub secondary: (Number, Number, Number),
    pub tertiary: (Number, Number, Number),
    pub text: (Number, Number, Number),
    pub high_contrast: (Number, Number, Number),
}

impl View for MediaColors {
    type V = ColorsModel;

    open spec fn view(&self) -> ColorsModel {
        ColorsModel {
            primary: self.primary@,
            secondary: self.secondary@,
            tertiary: self.tertiary@,
            text: self.text@,
            high_contrast: self.high_contrast@,
        }
    }
}

/// What scripts are told.
#[derive(Debug)]
pub struct MediaFrame {
    pub enabled: bool,
    pub state: i32,
    pub title: String,
    pub artist: String,
    pub album_title: String,
    pub position: u64,
    pub duration: u64,
    pub has_thumbnail: bool,
    pub colors: Option<MediaColors>,
    pub changes: MediaChanges,
}

/// The byte that two hexadecimal digits are; the first may be a plus sign.
pub open spec fn hex_pair(a: char, b: char) -> Option<nat> {
    if a == '+' {
        hex_digit(b)
    } else {
        match (hex_digit(a), hex_digit(b)) {
            (Some(x), Some(y)) => Some(x * 16 + y),
            _ => None,
        }
    }
}

/// The colour that six hexadecimal digits behind a hash are.
pub open spec fn hex_colour(s: Seq<char>) -> Option<(Number, Number, Number)> {
    if s.len() == 7 && s[0] == '#' {
        match (hex_pair(s[1], s[2]), hex_pair(s[3], s[4]), hex_pair(s[5], s[6])) {
            (Some(r), Some(g), Some(b)) => Some(
                (Number::Channel(r as i64), Number::Channel(g as i64), Number::Channel(b as i64)),
            ),
            _ => None,
        }
    } else {
        None
    }
}

fn digit_of(c: char) -> (r: Option<u8>)
    ensures
        match r {
            Some(d) => hex_digit(c) == Some(d as nat) && d < 16,
            None => hex_digit(c) is None,
        },
{
    let n: u32 = c as u32;
    if 48 <= n && n <= 57 {
        Some((n - 48) as u8)
    } else if 97 <= n && n <= 102 {
        Some((n - 87) as u8)
    } else if 65 <= n && n <= 70 {
        Some((n - 55) as u8)
    } else {
        None
    }
}

fn pair_of(a: char, b: char) -> (r: Option<u8>)
    ensures
        match r {
            Some(v) => hex_pair(a, b) == Some(v as nat),
            None => hex_pair(a, b) is None,
        },
{
    if a == '+' {
        return digit_of(b);
    }
    match (digit_of(a), digit_of(b)) {
        (Some(x), Some(y)) => Some(x * 16 + y),
        _ => None,
    }
}

/// The colour that six hexadecimal digits behind a hash are.
pub fn hex_rgb(s: &str) -> (r: Option<Vec3>)
    ensures
        opt_view(r) == hex_colour(s@),
{
    let c = chars_of(s);
    if c.len() != 7 || c[0] != '#' {
        return None;
    }
    match (pair_of(c[1], c[2]), pair_of(c[3], c[4]), pair_of(c[5], c[6])) {
        (Some(r), Some(g), Some(b)) => Some(
            Vec3 {
                x: Scalar::Channel(r as i64),
                y: Scalar::Channel(g as i64),
                z: Scalar::Channel(b as i64),
            },
        ),
        _ => None,
    }
}

/// The colour that an optional text gives.
pub open spec fn given_colour(s: Option<String>) -> Option<(Number, Number, Number)> {
    match s {
        Some(t) => hex_colour(t@),
        None => None,
    }
}

/// The colours of the music, where all of them are given.
pub open spec fn colours_of(e: MediaEvent) -> Option<ColorsModel> {
    match (
        given_colour(e.primary_color),
        given_colour(e.secondary_color),
        given_colour(e.text_color),
        given_colour(e.high_contrast_color),
    ) {
        (Some(p), Some(s), Some(t), Some(h)) => Some(
            ColorsModel { primary: p, secondary: s, tertiary: s, text: t, high_contrast: h },
        ),
        _ => None,
    }
}

/// What has changed. Everything has where scripts were told nothing yet; of
/// the position of the music `moved` says so.
pub open spec fn changes_of(prev: Option<PrevModel>, e: MediaEvent, moved: bool) -> MediaChanges {
    match prev {
        None => MediaChanges {
            status: true,
            playback: true,
            properties: true,
            thumbnail: true,
            timeline: true,
        },
        Some(p) => MediaChanges {
            status: p.available != e.available,
            playback: p.state != e.state,
            properties: p.title != e.title@ || p.artist != e.artist@ || p.album != e.album@,
            thumbnail: p.art_key != e.art_key,
            timeline: moved,
        },
    }
}

/// Whether anything has changed.
pub open spec fn any_change(c: MediaChanges) -> bool {
    c.status || c.playback || c.properties || c.thumbnail || c.timeline
}

/// What scripts are told of music.
pub open spec fn tells(f: MediaFrame, e: MediaEvent, c: MediaChanges) -> bool {
    &&& f.enabled == e.available
    &&& f.state == e.state
    &&& f.title@ == e.title@
    &&& f.artist@ == e.artist@
    &&& f.album_title@ == e.album@
    &&& f.position == e.position
    &&& f.duration == e.duration
    &&& f.has_thumbnail == e.has_thumbnail
    &&& opt_view(f.colors) == colours_of(e)
    &&& f.changes == c
}

fn read_colour(s: &Option<String>) -> (r: Option<Vec3>)
    ensures
        opt_view(r) == given_colour(*s),
{
    match s {
        Some(t) => hex_rgb(t.as_str()),
        None => None,
    }
}

fn read_colours(e: &MediaEvent) -> (r: Option<MediaColors>)
    ensures
        opt_view(r) == colours_of(*e),
{
    match (
        read_colour(&e.primary_color),
        read_colour(&e.secondary_color),
        read_colour(&e.text_color),
        read_colour(&e.high_contrast_color),
    ) {
        (Some(p), Some(s), Some(t), Some(h)) => {
            let again = s.duplicate();
            Some(
                MediaColors {
                    primary: p,
                    secondary: s,
                    tertiary: again,
                    text: t,
                    high_contrast: h,
                },
            )
        },
        _ => None,
    }
}

/// What scripts are told of the music that plays: nothing where nothing has
/// changed since the last time. `moved` says whether its position has.
pub fn media_frame(e: &MediaEvent, prev: &mut Option<MediaPrev>, moved: bool) -> (r: Option<
    MediaFrame,
>)
    ensures
        opt_view(*final(prev)) == Some(
            PrevModel {
                available: e.available,
                state: e.state,
                title: e.title@,
                artist: e.artist@,
                album: e.album@,
                art_key: e.art_key,
            },
        ),
        match r {
            Some(f) => any_change(changes_of(opt_view(*old(prev)), *e, moved)) && tells(
                f,
                *e,
                changes_of(opt_view(*old(prev)), *e, moved),
            ),
            None => !any_change(changes_of(opt_view(*old(prev)), *e, moved)),
        },
{
    let changes = match &*prev {
        None => MediaChanges {
            status: true,
            playback: true,
            properties: true,
            thumbnail: true,
            timeline: true,
        },
        Some(p) => MediaChanges {
            status: p.available != e.available,
            playback: p.state != e.state,
            properties: !same_text(p.title.as_str(), e.title.as_str()) || !same_text(
                p.artist.as_str(),
                e.artist.as_str(),
            ) || !same_text(p.album.as_str(), e.album.as_str()),
            thumbnail: p.art_key != e.art_key,
            timeline: moved,
        },
    };
    *prev =
    Some(
        MediaPrev {
            available: e.available,
            state: e.state,
            title: e.title.clone(),
            artist: e.artist.clone(),
            album: e.album.clone(),
            art_key: e.art_key,
        },
    );
    if !(changes.status || changes.playback || changes.properties || changes.thumbnail
        || changes.timeline) {
        return None;
    }
    Some(
        MediaFrame {
            enabled: e.available,
            state: e.state,
            title: e.title.clone(),
            artist: e.artist.clone(),
            album_title: e.album.clone(),
            position: e.position,
            duration: e.duration,
            has_thumbnail: e.has_thumbnail,
            colors: read_colours(e),
            changes,
        },
    )
}

/// The seconds by which a time zone is ahead, from a sign, two digits of hours
/// and two of minutes. Without the minutes these are none.
pub open spec fn utc_offset(s: Seq<char>) -> Option<int> {
    if s.len() < 3 || (s[0] != '+' && s[0] != '-') || !(forall|i: int|
        1 <= i < s.len() ==> digit_char(#[trigger] s[i])) {
        None
    } else {
        let hours = digits_value(s.subrange(1, 3)) as int;
        let minutes = if s.len() >= 5 {
            digits_value(s.subrange(3, 5)) as int
        } else {
            0
        };
        let seconds = hours * 3600 + minutes * 60;
        Some(
            if s[0] == '-' {
                -seconds
            } else {
                seconds
            },
        )
    }
}

fn two_digits(a: char, b: char) -> (r: i64)
    requires
        digit_char(a),
        digit_char(b),
    ensures
        r == digits_value(seq![a, b]),
        0 <= r <= 99,
{
    proof {
        reveal_with_fuel(digits_value, 3);
        assert(seq![a, b].drop_last() =~= seq![a]);
        assert(seq![a].drop_last() =~= Seq::empty());
    }
    (a as u32 - 48) as i64 * 10 + (b as u32 - 48) as i64
}

/// The seconds by which a time zone is ahead.
pub fn parse_utc_offset(s: &str) -> (r: Option<i64>)
    ensures
        match r {
            Some(v) => utc_offset(s@) == Some(v as int),
            None => utc_offset(s@) is None,
        },
{
    let c = chars_of(s);
    let n: usize = c.len();
    if n < 3 || (c[0] != '+' && c[0] != '-') {
        return None;
    }
    let mut i: usize = 1;
    while i < n
        invariant
            1 <= i <= n,
            n == c@.len(),
            c@ == s@,
            forall|j: int| 1 <= j < i ==> digit_char(#[trigger] s@[j]),
        decreases n - i,
    {
        if !is_digit(c[i]) {
            assert(!digit_char(s@[i as int]));
            return None;
        }
        i += 1;
    }
    assert(s@.subrange(1, 3) =~= seq![s@[1], s@[2]]);
    let hours = two_digits(c[1], c[2]);
    let minutes: i64 = if n >= 5 {
        assert(s@.subrange(3, 5) =~= seq![s@[3], s@[4]]);
        two_digits(c[3], c[4])
    } else {
        0
    };
    let seconds = hours * 3600 + minutes * 60;
    if c[0] == '-' {
        Some(-seconds)
    } else {
        Some(seconds)
    }
}

} // verus!
