//! The fonts that a scene brings along.
use vstd::prelude::*;

use crate::copy::copy_opt;
use crate::markup::{is_bundled_font, names_font_file};
use crate::strings::opt_view;
use crate::table::TextMap;
use crate::value::{trimmed, trimmed_text};

verus! {

/// The family that a file of a font gave, if it gave one.
#[derive(Debug)]
pub struct Family {
    pub name: Option<String>,
}

impl View for Family {
    type V = Option<Seq<char>>;

    open spec fn view(&self) -> Option<Seq<char>> {
        opt_view(self.name)
    }
}

/// What is known of a font that a text asks for.
#[derive(Debug)]
pub enum FontLookup {
    /// It is not one that a scene brings along.
    System,
    /// It has been looked for; this is the family that came of it.
    Known(Option<String>),
    /// It has to be read from this file.
    Missing(String),
}

/// The families of the fonts that were looked for, by their files.
#[derive(Debug)]
pub struct BundledFonts {
    pub families: TextMap<Family>,
}

impl View for BundledFonts {
    type V = Map<Seq<char>, Option<Seq<char>>>;

    open spec fn view(&self) -> Map<Seq<char>, Option<Seq<char>>> {
        self.families@
    }
}

impl BundledFonts {
    pub fn new() -> (r: Self)
        ensures
            r@ == Map::<Seq<char>, Option<Seq<char>>>::empty(),
    {
        BundledFonts { families: TextMap::new() }
    }

    /// What is known of a font. Each file is read once.
    pub fn lookup(&self, font: &str) -> (r: FontLookup)
        ensures
            match r {
                FontLookup::System => !names_font_file(font@),
                FontLookup::Known(f) => names_font_file(font@) && self@.contains_key(trimmed(font@))
                    && self@[trimmed(font@)] == opt_view(f),
                FontLookup::Missing(file) => names_font_file(font@) && !self@.contains_key(
                    trimmed(font@),
                ) && file@ == trimmed(font@),
            },
    {
        if !is_bundled_font(font) {
            return FontLookup::System;
        }
        let file = trimmed_text(font);
        match self.families.get(file.as_str()) {
            Some(f) => FontLookup::Known(copy_opt(&f.name)),
            None => FontLookup::Missing(file),
        }
    }

    /// Notes the family that came of a file.
    pub fn record(&mut self, file: String, family: Option<String>)
        ensures
            final(self)@ == old(self)@.insert(file@, opt_view(family)),
    {
        self.families.insert(file, Family { name: family });
    }
}

} // verus!
