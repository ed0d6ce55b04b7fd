use kirie::fonts::{BundledFonts, FontLookup};
use kirie::markup::{family_hint, h_align, is_bundled_font, v_align, without_markup, Align, VerticalAlign};
use kirie::raster::{retexts, sets_text, Block, TextRaster, TextRasterScale};

#[test]
fn markup_is_read_as_text_not_shown() {
    assert_eq!(without_markup("<u>Notepad Settings:</u>"), "Notepad Settings:");
    assert_eq!(without_markup("a<br>b"), "a\nb");
    assert_eq!(without_markup("<sup style=\"x\">hi</sup>"), "hi");
}

#[test]
fn ordinary_angle_brackets_survive() {
    assert_eq!(without_markup("a < b > c"), "a < b > c");
    assert_eq!(without_markup("5 <3"), "5 <3");
}

#[test]
fn entities_come_back_as_characters() {
    assert_eq!(without_markup("Tom &amp; Jerry"), "Tom & Jerry");
    assert_eq!(without_markup("&lt;tag&gt;"), "<tag>");
}

#[test]
fn texts_without_markup_stay_as_they_are() {
    for text in ["", "plain", "a > b", "naïve — ok\nnext"] {
        assert_eq!(without_markup(text), text);
    }
}

#[test]
fn tags_of_every_kind_are_told_apart() {
    assert_eq!(without_markup("x<BR/>y"), "x\ny");
    assert_eq!(without_markup("<//b>x"), "x");
    assert_eq!(without_markup("<a=1>x</a>"), "x");
    assert_eq!(without_markup("<é>x"), "<é>x");
    assert_eq!(without_markup("<>x"), "<>x");
    assert_eq!(without_markup("a<b<c>d"), "a<bd");
    assert_eq!(without_markup("&quot;&#39;&nbsp;&amp;lt;"), "\"' &lt;");
}

#[test]
fn family_hint_mapping() {
    assert_eq!(family_hint(""), None);
    assert_eq!(family_hint("   "), None);
    assert_eq!(family_hint("systemfont_arial").as_deref(), Some("arial"));
    assert_eq!(
        family_hint("fonts/VCR_OSD_MONO.ttf").as_deref(),
        Some("VCR_OSD_MONO")
    );
    assert_eq!(
        family_hint("workshop/123/My Font.otf").as_deref(),
        Some("My Font")
    );
}

#[test]
fn family_hints_at_the_edges() {
    assert_eq!(family_hint("systemfont_  "), None);
    assert_eq!(family_hint("fonts\\Deep\\Name.x.ttf").as_deref(), Some("Name.x"));
    assert_eq!(family_hint("fonts/"), None);
    assert_eq!(family_hint(".ttf"), None);
    assert_eq!(family_hint("plain").as_deref(), Some("plain"));
}

#[test]
fn a_font_file_is_looked_for_once() {
    let mut fonts = BundledFonts::new();
    assert!(matches!(fonts.lookup("systemfont_arial"), FontLookup::System));
    let FontLookup::Missing(file) = fonts.lookup(" fonts/A.TTF ") else {
        panic!("the file has not been read");
    };
    assert_eq!(file, "fonts/A.TTF");
    fonts.record(file, Some("A".to_owned()));
    assert!(matches!(fonts.lookup("fonts/A.TTF"), FontLookup::Known(Some(f)) if f == "A"));
    fonts.record("fonts/b.otf".to_owned(), None);
    assert!(matches!(fonts.lookup("fonts/b.otf"), FontLookup::Known(None)));
    assert!(is_bundled_font("x.ttc") && !is_bundled_font("x.woff") && !is_bundled_font("ttf"));
}

#[test]
fn texts_are_set_to_their_sides() {
    assert_eq!(h_align("left"), Align::Left);
    assert_eq!(h_align("right"), Align::Right);
    assert_eq!(h_align("middle"), Align::Center);
    assert_eq!(v_align("top"), VerticalAlign::Top);
    assert_eq!(v_align("bottom"), VerticalAlign::Bottom);
    assert_eq!(v_align(""), VerticalAlign::Center);
    assert_ne!(TextRasterScale::Screen, TextRasterScale::Engine);
}

#[test]
fn empty_text_is_none() {
    assert!(sets_text("").is_none());
    assert!(sets_text("<b></b>").is_none());
    assert_eq!(sets_text("<b>x</b>").as_deref(), Some("x"));
    assert!(retexts("a", "b") && !retexts("a", "a"));
}

fn alphas(r: &TextRaster) -> Vec<u8> {
    r.pixels.iter().skip(3).step_by(4).copied().collect()
}

#[test]
fn glyphs_are_clipped_and_keep_the_most_coverage() {
    let mut r = TextRaster::empty(3, 2, 1);
    assert!(!r.any_coverage);
    r.paint(Block { x: -1, y: -1, width: 2, height: 2, coverage: 100 });
    assert_eq!(alphas(&r), [100, 0, 0, 0, 0, 0]);
    assert!(r.any_coverage);
    r.paint(Block { x: 0, y: 0, width: 9, height: 1, coverage: 50 });
    assert_eq!(alphas(&r), [100, 50, 50, 0, 0, 0]);
    assert_eq!(&r.pixels[4..8], &[255, 255, 255, 50]);
    r.paint(Block { x: 2, y: 1, width: 1, height: 1, coverage: 7 });
    assert_eq!(alphas(&r), [100, 50, 50, 0, 0, 7]);
    r.paint(Block { x: 5, y: 5, width: 3, height: 3, coverage: 255 });
    assert_eq!(alphas(&r), [100, 50, 50, 0, 0, 7]);
}

#[test]
fn a_glyph_without_coverage_leaves_no_mark() {
    let mut r = TextRaster::blank();
    r.paint(Block { x: 0, y: 0, width: 1, height: 1, coverage: 0 });
    assert!(!r.any_coverage);
    assert_eq!(r.pixels, [0, 0, 0, 0]);
    assert_eq!((r.width, r.height, r.line_count), (1, 1, 0));
}
