//! Which textures have been loaded.
use vstd::prelude::*;

use crate::strings::join2;
use crate::table::TextMap;

verus! {

/// The ways in which a texture is used: as it is, repeated beyond its edges,
/// or only the first frame of it.
#[derive(Clone, Copy, Debug, PartialEq, Eq, Structural)]
pub enum Variant {
    Plain,
    Wrapping,
    FirstFrame,
}

/// The key under which a texture is kept.
pub open spec fn texture_key(variant: Variant, name: Seq<char>) -> Seq<char> {
    match variant {
        Variant::Plain => name,
        Variant::Wrapping => "\0wrap:"@ + name,
        Variant::FirstFrame => "\0f0:"@ + name,
    }
}

fn key_of(variant: Variant, name: &str) -> (r: String)
    ensures
        r@ == texture_key(variant, name@),
{
    match variant {
        Variant::Plain => name.to_owned(),
        Variant::Wrapping => join2("\0wrap:", name),
        Variant::FirstFrame => join2("\0f0:", name),
    }
}

/// What came of loading a texture: the number that it is kept by, if it could
/// be loaded.
#[derive(Debug)]
pub struct Loaded {
    pub number: Option<usize>,
}

impl View for Loaded {
    type V = Option<usize>;

    open spec fn view(&self) -> Option<usize> {
        self.number
    }
}

/// What is drawn where a texture is asked for.
#[derive(Clone, Copy, Debug, PartialEq, Eq, Structural)]
pub enum TextureLookup {
    /// The texture that is kept by this number.
    Kept(usize),
    /// Plain white: it could not be loaded.
    White,
    /// It has to be loaded in this way first.
    Load(Variant),
}

/// What is drawn where a texture is asked for, by what was loaded: a use that
/// could not be loaded falls back on the texture as it is.
pub open spec fn drawn_for(
    loaded: Map<Seq<char>, Option<usize>>,
    variant: Variant,
    name: Seq<char>,
) -> TextureLookup {
    let key = texture_key(variant, name);
    if !loaded.contains_key(key) {
        TextureLookup::Load(variant)
    } else {
        match loaded[key] {
            Some(n) => TextureLookup::Kept(n),
            None => if variant == Variant::Plain {
                TextureLookup::White
            } else if !loaded.contains_key(name) {
                TextureLookup::Load(Variant::Plain)
            } else {
                match loaded[name] {
                    Some(n) => TextureLookup::Kept(n),
                    None => TextureLookup::White,
                }
            },
        }
    }
}

/// The textures that were loaded, or could not be.
#[derive(Debug)]
pub struct TextureCache {
    pub loaded: TextMap<Loaded>,
}

impl View for TextureCache {
    type V = Map<Seq<char>, Option<usize>>;

    open spec fn view(&self) -> Map<Seq<char>, Option<usize>> {
        self.loaded@
    }
}

impl TextureCache {
    pub fn new() -> (r: Self)
        ensures
            r@ == Map::<Seq<char>, Option<usize>>::empty(),
    {
        TextureCache { loaded: TextMap::new() }
    }

    /// What is drawn where a texture is asked for.
    pub fn lookup(&self, variant: Variant, name: &str) -> (r: TextureLookup)
        ensures
            r == drawn_for(self@, variant, name@),
    {
        let key = key_of(variant, name);
        match self.loaded.get(key.as_str()) {
            None => TextureLookup::Load(variant),
            Some(l) => match l.number {
                Some(n) => TextureLookup::Kept(n),
                None => match variant {
                    Variant::Plain => TextureLookup::White,
                    _ => match self.loaded.get(name) {
                        None => TextureLookup::Load(Variant::Plain),
                        Some(p) => match p.number {
                            Some(n) => TextureLookup::Kept(n),
                            None => TextureLookup::White,
                        },
                    },
                },
            },
        }
    }

    /// Notes what came of loading a texture. What came of it first stays.
    pub fn record(&mut self, variant: Variant, name: &str, number: Option<usize>)
        ensures
            final(self)@ == (if old(self)@.contains_key(texture_key(variant, name@)) {
                old(self)@
            } else {
                old(self)@.insert(texture_key(variant, name@), number)
            }),
    {
        let key = key_of(variant, name);
        if self.loaded.get(key.as_str()).is_none() {
            self.loaded.insert(key, Loaded { number });
        }
    }
}

/// A texture is loaded in one way only once, whatever came of it: once that
/// is noted, what is asked for is there, or is white, or falls back on the
/// texture as it is.
pub proof fn law_textures_are_loaded_once(
    loaded: Map<Seq<char>, Option<usize>>,
    variant: Variant,
    name: Seq<char>,
    number: Option<usize>,
)
    requires
        drawn_for(loaded, variant, name) == TextureLookup::Load(variant),
    ensures
        ({
            let after = loaded.insert(texture_key(variant, name), number);
            &&& drawn_for(after, variant, name) != TextureLookup::Load(variant)
            &&& number matches Some(n) ==> drawn_for(after, variant, name) == TextureLookup::Kept(n)
            &&& variant == Variant::Plain && number is None ==> drawn_for(after, variant, name)
                == TextureLookup::White
        }),
{
}

} // verus!
