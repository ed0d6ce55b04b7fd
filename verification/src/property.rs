//! User properties.
use vstd::prelude::*;

use crate::copy::Duplicate;
use crate::table::TextMap;
use crate::value::{
    doubled, halved, is_true_text, saturated, says_true, trimmed, trimmed_text, Color, Dynamic,
    DynamicValue, Number, Scalar, Vec2, Vec3, ONE_BITS, ZERO_BITS,
};

verus! {

/// The value of a user property. Where a value is used as a number or as
/// text, its reading stands beside it: `single` holds the bits of the single
/// that the value reads as, `shown` its text.
#[derive(Debug)]
pub enum PropertyValue {
    Bool(bool),
    /// A number: the bits of the double.
    Number { bits: u64, single: u32, shown: String },
    /// A colour: the bits of its four channels.
    Color { rgba: [u32; 4], shown: String },
    Combo { text: String, single: u32 },
    Text { text: String, single: u32 },
}

/// What a [`PropertyValue`] holds.
pub enum Property {
    Bool(bool),
    Number { bits: u64, single: u32, shown: Seq<char> },
    Color { rgba: [u32; 4], shown: Seq<char> },
    Combo { text: Seq<char>, single: u32 },
    Text { text: Seq<char>, single: u32 },
}

impl View for PropertyValue {
    type V = Property;

    open spec fn view(&self) -> Property {
        match self {
            PropertyValue::Bool(b) => Property::Bool(*b),
            PropertyValue::Number { bits, single, shown } => Property::Number {
                bits: *bits,
                single: *single,
                shown: shown@,
            },
            PropertyValue::Color { rgba, shown } => Property::Color { rgba: *rgba, shown: shown@ },
            PropertyValue::Combo { text, single } => Property::Combo {
                text: text@,
                single: *single,
            },
            PropertyValue::Text { text, single } => Property::Text { text: text@, single: *single },
        }
    }
}

impl Duplicate for PropertyValue {
    fn duplicate(&self) -> (r: Self) {
        match self {
            PropertyValue::Bool(b) => PropertyValue::Bool(*b),
            PropertyValue::Number { bits, single, shown } => PropertyValue::Number {
                bits: *bits,
                single: *single,
                shown: shown.clone(),
            },
            PropertyValue::Color { rgba, shown } => PropertyValue::Color {
                rgba: *rgba,
                shown: shown.clone(),
            },
            PropertyValue::Combo { text, single } => PropertyValue::Combo {
                text: text.clone(),
                single: *single,
            },
            PropertyValue::Text { text, single } => PropertyValue::Text {
                text: text.clone(),
                single: *single,
            },
        }
    }
}

impl Property {
    /// The property as text, as conditions name it.
    pub open spec fn shown(self) -> Seq<char> {
        match self {
            Property::Bool(b) => if b {
                "true"@
            } else {
                "false"@
            },
            Property::Number { bits, single, shown } => shown,
            Property::Color { rgba, shown } => shown,
            Property::Combo { text, single } => text,
            Property::Text { text, single } => text,
        }
    }

    /// The bits of the single that the property reads as.
    pub open spec fn single(self) -> u32 {
        match self {
            Property::Bool(b) => if b {
                ONE_BITS
            } else {
                ZERO_BITS
            },
            Property::Number { bits, single, shown } => single,
            Property::Color { rgba, shown } => rgba[0],
            Property::Combo { text, single } => single,
            Property::Text { text, single } => single,
        }
    }
}

impl PropertyValue {
    pub fn as_condition_string(&self) -> (r: String)
        ensures
            r@ == self@.shown(),
    {
        match self {
            PropertyValue::Bool(b) => if *b {
                "true".to_owned()
            } else {
                "false".to_owned()
            },
            PropertyValue::Number { bits: _, single: _, shown } => shown.clone(),
            PropertyValue::Color { rgba: _, shown } => shown.clone(),
            PropertyValue::Combo { text, single: _ } => text.clone(),
            PropertyValue::Text { text, single: _ } => text.clone(),
        }
    }

    fn single(&self) -> (r: u32)
        ensures
            r == self@.single(),
    {
        match self {
            PropertyValue::Bool(b) => if *b {
                ONE_BITS
            } else {
                ZERO_BITS
            },
            PropertyValue::Number { bits: _, single, shown: _ } => *single,
            PropertyValue::Color { rgba, shown: _ } => rgba[0],
            PropertyValue::Combo { text: _, single } => *single,
            PropertyValue::Text { text: _, single } => *single,
        }
    }
}

/// A property as a project declares it. Numbers and texts come with their
/// readings, as in [`PropertyValue`].
#[derive(Debug)]
pub enum PropertyKind {
    Bool { on: bool },
    Slider { bits: u64, single: u32, shown: String },
    Color { rgb: [u32; 3], shown: String },
    Combo { value: String, single: u32 },
    /// A heading: it has no value.
    Text,
    TextInput { value: String, single: u32 },
    UserShortcut { value: String, single: u32 },
    File { value: String, single: u32 },
    Directory { value: String, single: u32 },
    SceneTexture { value: String, single: u32 },
}

/// What a [`PropertyKind`] starts with.
pub open spec fn initial_property(k: PropertyKind) -> Property {
    match k {
        PropertyKind::Bool { on } => Property::Bool(on),
        PropertyKind::Slider { bits, single, shown } => Property::Number {
            bits,
            single,
            shown: shown@,
        },
        PropertyKind::Color { rgb, shown } => Property::Color {
            rgba: [rgb[0], rgb[1], rgb[2], ONE_BITS],
            shown: shown@,
        },
        PropertyKind::Combo { value, single } => Property::Combo { text: value@, single },
        PropertyKind::Text => Property::Text { text: Seq::empty(), single: ZERO_BITS },
        PropertyKind::TextInput { value, single } => Property::Text { text: value@, single },
        PropertyKind::UserShortcut { value, single } => Property::Text { text: value@, single },
        PropertyKind::File { value, single } => Property::Text { text: value@, single },
        PropertyKind::Directory { value, single } => Property::Text { text: value@, single },
        PropertyKind::SceneTexture { value, single } => Property::Text { text: value@, single },
    }
}

/// The user properties of a scene.
#[derive(Debug)]
pub struct PropertyBag {
    pub values: TextMap<PropertyValue>,
}

/// What a [`PropertyBag`] holds.
pub type Bag = Map<Seq<char>, Property>;

impl View for PropertyBag {
    type V = Bag;

    open spec fn view(&self) -> Bag {
        self.values@
    }
}

/// The first `k` properties that a project declares.
pub open spec fn declared_upto(entries: Seq<(String, PropertyKind)>, k: int) -> Bag
    decreases k,
{
    if k <= 0 {
        Map::empty()
    } else {
        declared_upto(entries, k - 1).insert(entries[k - 1].0@, initial_property(entries[k - 1].1))
    }
}

/// What std's number readers make of a text: the number that it is once
/// trimmed, if it is one, and each of its first four words as a single, if it
/// is one; with the texts that these numbers print as.
#[derive(Debug)]
pub struct TextReading {
    pub number: Option<NumberReading>,
    pub channels: Vec<Option<u32>>,
    pub color_shown: String,
    /// The single that the text begins with, for texts used as numbers.
    pub single: u32,
    /// The same of the text once trimmed.
    pub trimmed_single: u32,
}

#[derive(Debug)]
pub struct NumberReading {
    pub bits: u64,
    pub single: u32,
    pub shown: String,
}

/// The channels of a colour that a text gives: all four words must be numbers,
/// there must be one, and those missing are zero, or one for alpha.
pub open spec fn channels_of(words: Seq<Option<u32>>) -> Option<[u32; 4]> {
    let n = if words.len() < 4 {
        words.len() as int
    } else {
        4
    };
    if n == 0 || exists|i: int| 0 <= i < n && (#[trigger] words[i]) is None {
        None
    } else {
        Some(
            [
                words[0]->0,
                if n > 1 {
                    words[1]->0
                } else {
                    ZERO_BITS
                },
                if n > 2 {
                    words[2]->0
                } else {
                    ZERO_BITS
                },
                if n > 3 {
                    words[3]->0
                } else {
                    ONE_BITS
                },
            ],
        )
    }
}

/// The value that a text gives a property of the kind it has now, if it can be one.
pub open spec fn reread(current: Property, raw: Seq<char>, reading: TextReading) -> Option<Property> {
    match current {
        Property::Bool(b) => Some(Property::Bool(says_true(trimmed(raw)))),
        Property::Number { bits, single, shown } => match reading.number {
            Some(n) => Some(Property::Number { bits: n.bits, single: n.single, shown: n.shown@ }),
            None => None,
        },
        Property::Color { rgba, shown } => match channels_of(reading.channels@) {
            Some(c) => Some(Property::Color { rgba: c, shown: reading.color_shown@ }),
            None => None,
        },
        Property::Combo { text, single } => Some(
            Property::Combo { text: trimmed(raw), single: reading.trimmed_single },
        ),
        Property::Text { text, single } => Some(
            Property::Text { text: raw, single: reading.single },
        ),
    }
}

fn read_channels(words: &Vec<Option<u32>>) -> (r: Option<[u32; 4]>)
    ensures
        r == channels_of(words@),
{
    let mut c: [u32; 4] = [ZERO_BITS, ZERO_BITS, ZERO_BITS, ONE_BITS];
    let n: usize = if words.len() < 4 {
        words.len()
    } else {
        4
    };
    if n == 0 {
        return None;
    }
    let mut i: usize = 0;
    while i < n
        invariant
            i <= n,
            n <= 4,
            n <= words@.len(),
            forall|j: int| 0 <= j < i ==> (#[trigger] words@[j]) is Some,
        decreases n - i,
    {
        if words[i].is_none() {
            assert(words@[i as int] is None);
            return None;
        }
        i += 1;
    }
    assert(words@[0] is Some);
    let a = match words[0] {
        Some(x) => x,
        None => ZERO_BITS,
    };
    let b = if n > 1 {
        match words[1] {
            Some(x) => x,
            None => ZERO_BITS,
        }
    } else {
        ZERO_BITS
    };
    let d = if n > 2 {
        match words[2] {
            Some(x) => x,
            None => ZERO_BITS,
        }
    } else {
        ZERO_BITS
    };
    let e = if n > 3 {
        match words[3] {
            Some(x) => x,
            None => ZERO_BITS,
        }
    } else {
        ONE_BITS
    };
    Some([a, b, d, e])
}

impl PropertyBag {
    pub fn new() -> (r: Self)
        ensures
            r@ == Bag::empty(),
    {
        PropertyBag { values: TextMap::new() }
    }

    /// The properties that a project declares, with the values they start with.
    pub fn from_project(entries: &Vec<(String, PropertyKind)>) -> (r: Self)
        ensures
            r@ == declared_upto(entries@, entries@.len() as int),
    {
        let mut bag = PropertyBag::new();
        let mut i: usize = 0;
        while i < entries.len()
            invariant
                i <= entries@.len(),
                bag@ == declared_upto(entries@, i as int),
            decreases entries@.len() - i,
        {
            let value = match &entries[i].1 {
                PropertyKind::Bool { on } => PropertyValue::Bool(*on),
                PropertyKind::Slider { bits, single, shown } => PropertyValue::Number {
                    bits: *bits,
                    single: *single,
                    shown: shown.clone(),
                },
                PropertyKind::Color { rgb, shown } => PropertyValue::Color {
                    rgba: [rgb[0], rgb[1], rgb[2], ONE_BITS],
                    shown: shown.clone(),
                },
                PropertyKind::Combo { value, single } => PropertyValue::Combo {
                    text: value.clone(),
                    single: *single,
                },
                PropertyKind::Text => PropertyValue::Text {
                    text: String::new(),
                    single: ZERO_BITS,
                },
                PropertyKind::TextInput { value, single } => PropertyValue::Text {
                    text: value.clone(),
                    single: *single,
                },
                PropertyKind::UserShortcut { value, single } => PropertyValue::Text {
                    text: value.clone(),
                    single: *single,
                },
                PropertyKind::File { value, single } => PropertyValue::Text {
                    text: value.clone(),
                    single: *single,
                },
                PropertyKind::Directory { value, single } => PropertyValue::Text {
                    text: value.clone(),
                    single: *single,
                },
                PropertyKind::SceneTexture { value, single } => PropertyValue::Text {
                    text: value.clone(),
                    single: *single,
                },
            };
            assert(value@ == initial_property(entries@[i as int].1));
            bag.values.insert(entries[i].0.clone(), value);
            i += 1;
        }
        bag
    }

    pub fn get(&self, name: &str) -> (r: Option<&PropertyValue>)
        ensures
            match r {
                Some(v) => self@.contains_key(name@) && self@[name@] == v@,
                None => !self@.contains_key(name@),
            },
    {
        self.values.get(name)
    }

    /// Gives a property a new value. Returns whether there is such a property.
    pub fn set(&mut self, name: &str, value: PropertyValue) -> (r: bool)
        ensures
            r == old(self)@.contains_key(name@),
            final(self)@ == (if r {
                old(self)@.insert(name@, value@)
            } else {
                old(self)@
            }),
    {
        if self.values.get(name).is_none() {
            return false;
        }
        self.values.insert(name.to_owned(), value);
        true
    }

    /// Adds a property, or gives the one of that name a new value.
    pub fn insert(&mut self, name: &str, value: PropertyValue)
        ensures
            final(self)@ == old(self)@.insert(name@, value@),
    {
        self.values.insert(name.to_owned(), value);
    }

    /// Gives a property the value that a text stands for, in the kind that the
    /// property has. Returns whether there is such a property and the text
    /// stands for one; otherwise nothing changes.
    pub fn set_from_str(&mut self, name: &str, raw: &str, reading: &TextReading) -> (r: bool)
        ensures
            r == (old(self)@.contains_key(name@) && reread(old(self)@[name@], raw@, *reading) is Some),
            final(self)@ == (if r {
                old(self)@.insert(name@, reread(old(self)@[name@], raw@, *reading)->0)
            } else {
                old(self)@
            }),
    {
        let parsed = match self.values.get(name) {
            None => {
                return false;
            },
            Some(current) => match current {
                PropertyValue::Bool(_) => {
                    let t = trimmed_text(raw);
                    PropertyValue::Bool(is_true_text(t.as_str()))
                },
                PropertyValue::Number { bits: _, single: _, shown: _ } => match &reading.number {
                    Some(n) => PropertyValue::Number {
                        bits: n.bits,
                        single: n.single,
                        shown: n.shown.clone(),
                    },
                    None => {
                        return false;
                    },
                },
                PropertyValue::Color { rgba: _, shown: _ } => match read_channels(
                    &reading.channels,
                ) {
                    Some(rgba) => PropertyValue::Color { rgba, shown: reading.color_shown.clone() },
                    None => {
                        return false;
                    },
                },
                PropertyValue::Combo { text: _, single: _ } => PropertyValue::Combo {
                    text: trimmed_text(raw),
                    single: reading.trimmed_single,
                },
                PropertyValue::Text { text: _, single: _ } => PropertyValue::Text {
                    text: raw.to_owned(),
                    single: reading.single,
                },
            },
        };
        self.set(name, parsed)
    }

    pub fn len(&self) -> (n: usize)
        ensures
            n == self@.len(),
    {
        self.values.len()
    }

    pub fn is_empty(&self) -> (r: bool)
        ensures
            r == (self@ == Bag::empty()),
    {
        self.values.is_empty()
    }
}

/// Whether a single is anything but zero.
pub open spec fn single_is_set(bits: u32) -> bool {
    bits % 0x8000_0000 != 0
}

/// The exponent field of a single.
pub open spec fn single_exponent(bits: u32) -> int {
    (bits / 0x80_0000) as int % 256
}

/// The fraction field of a single.
pub open spec fn single_fraction(bits: u32) -> int {
    bits as int % 0x80_0000
}

/// The magnitude of a finite single, rounded down to a whole number.
pub open spec fn single_magnitude(bits: u32) -> nat {
    let e = single_exponent(bits);
    let m = (0x80_0000 + single_fraction(bits)) as nat;
    if e < 127 {
        0
    } else if e < 150 {
        halved(m, (150 - e) as nat)
    } else {
        doubled(m, (e - 150) as nat)
    }
}

/// A single as a whole number, rounded towards zero; one too large becomes the
/// nearest that fits, and what is not a number becomes zero.
pub open spec fn single_whole(bits: u32) -> int {
    if single_exponent(bits) == 255 && single_fraction(bits) != 0 {
        0
    } else if bits >= 0x8000_0000 {
        saturated(-(single_magnitude(bits) as int))
    } else {
        saturated(single_magnitude(bits) as int)
    }
}

proof fn lemma_doubled_grows(a: nat, b: nat, j: nat, k: nat)
    requires
        a <= b,
        j <= k,
    ensures
        doubled(a, j) <= doubled(b, k),
    decreases k,
{
    if j < k {
        lemma_doubled_grows(a, b, j, (k - 1) as nat);
    } else if k > 0 {
        lemma_doubled_grows(a, b, (j - 1) as nat, (k - 1) as nat);
    }
}

proof fn lemma_doubled_steps(m: nat, k: nat)
    ensures
        doubled(m, k + 10) == 1024 * doubled(m, k),
{
    reveal_with_fuel(doubled, 11);
}

proof fn lemma_doubled_bounds()
    ensures
        doubled(0x80_0000, 40) == 0x8000_0000_0000_0000,
        doubled(0x100_0000, 38) == 0x4000_0000_0000_0000,
        doubled(0xff_ffff, 39) <= 0x7fff_ffff_ffff_ffff,
{
    lemma_doubled_steps(0x80_0000, 0);
    lemma_doubled_steps(0x80_0000, 10);
    lemma_doubled_steps(0x80_0000, 20);
    lemma_doubled_steps(0x80_0000, 30);
    lemma_doubled_steps(0x100_0000, 8);
    lemma_doubled_steps(0x100_0000, 18);
    lemma_doubled_steps(0x100_0000, 28);
    lemma_doubled_steps(0xff_ffff, 9);
    lemma_doubled_steps(0xff_ffff, 19);
    lemma_doubled_steps(0xff_ffff, 29);
    reveal_with_fuel(doubled, 10);
}

fn truncate_single(bits: u32) -> (r: i64)
    ensures
        r == single_whole(bits),
{
    let e: u32 = (bits / 0x80_0000) % 256;
    let f: u32 = bits % 0x80_0000;
    let negative = bits >= 0x8000_0000;
    if e == 255 && f != 0 {
        return 0;
    }
    if e < 127 {
        return 0;
    }
    let start: u64 = 0x80_0000 + f as u64;
    if e >= 190 {
        proof {
            lemma_doubled_grows(0x80_0000, start as nat, 40, (e - 150) as nat);
            lemma_doubled_bounds();
        }
        return if negative {
            i64::MIN
        } else {
            i64::MAX
        };
    }
    let mut m: u64 = start;
    if e < 150 {
        let mut k: u32 = 150 - e;
        while k > 0
            invariant
                k <= 23,
                halved(start as nat, (150 - e) as nat) == halved(m as nat, k as nat),
                m <= start < 0x100_0000,
            decreases k,
        {
            m = m / 2;
            k -= 1;
        }
    } else {
        let mut k: u32 = e - 150;
        let ghost whole: nat = k as nat;
        let ghost mut done: nat = 0;
        while k > 0
            invariant
                k + done == whole,
                whole <= 39,
                m == doubled(start as nat, done),
                start < 0x100_0000,
            decreases k,
        {
            proof {
                lemma_doubled_grows(start as nat, 0x100_0000, done, 38);
                lemma_doubled_bounds();
            }
            m = m * 2;
            proof {
                done = done + 1;
            }
            k -= 1;
        }
        proof {
            lemma_doubled_grows(start as nat, 0xff_ffff, whole, 39);
            lemma_doubled_bounds();
        }
    }
    assert(m == single_magnitude(bits));
    assert(m <= 0x7fff_ffff_ffff_ffff);
    if negative {
        -(m as i64)
    } else {
        m as i64
    }
}

/// A value that a setting can take from a user property.
pub trait Resolvable: View + Sized {
    /// What a property gives the setting.
    spec fn taken(p: Property) -> Self::V;

    /// What a condition gives the setting.
    spec fn judged(b: bool) -> Self::V;

    fn from_property(value: &PropertyValue) -> (r: Self)
        ensures
            r@ == Self::taken(value@),
    ;

    fn from_bool(b: bool) -> (r: Self)
        ensures
            r@ == Self::judged(b),
    ;
}

impl Resolvable for bool {
    open spec fn taken(p: Property) -> bool {
        match p {
            Property::Bool(b) => b,
            Property::Combo { text, single } => says_true(text),
            Property::Text { text, single } => says_true(text),
            _ => single_is_set(p.single()),
        }
    }

    open spec fn judged(b: bool) -> bool {
        b
    }

    fn from_property(value: &PropertyValue) -> (r: Self) {
        match value {
            PropertyValue::Bool(b) => *b,
            PropertyValue::Combo { text, single: _ } => is_true_text(text.as_str()),
            PropertyValue::Text { text, single: _ } => is_true_text(text.as_str()),
            other => other.single() % 0x8000_0000 != 0,
        }
    }

    fn from_bool(b: bool) -> (r: Self) {
        b
    }
}

/// The single that a flag reads as.
pub open spec fn flag_bits(b: bool) -> u32 {
    if b {
        ONE_BITS
    } else {
        ZERO_BITS
    }
}

fn bits_of_flag(b: bool) -> (r: u32)
    ensures
        r == flag_bits(b),
{
    if b {
        ONE_BITS
    } else {
        ZERO_BITS
    }
}

impl Resolvable for Scalar {
    open spec fn taken(p: Property) -> Number {
        Number::Single(p.single())
    }

    open spec fn judged(b: bool) -> Number {
        Number::Single(flag_bits(b))
    }

    fn from_property(value: &PropertyValue) -> (r: Self) {
        Scalar::Single(value.single())
    }

    fn from_bool(b: bool) -> (r: Self) {
        Scalar::Single(bits_of_flag(b))
    }
}

impl Resolvable for i64 {
    open spec fn taken(p: Property) -> i64 {
        single_whole(p.single()) as i64
    }

    open spec fn judged(b: bool) -> i64 {
        if b {
            1
        } else {
            0
        }
    }

    fn from_property(value: &PropertyValue) -> (r: Self) {
        truncate_single(value.single())
    }

    fn from_bool(b: bool) -> (r: Self) {
        if b {
            1
        } else {
            0
        }
    }
}

impl Resolvable for String {
    open spec fn taken(p: Property) -> Seq<char> {
        p.shown()
    }

    open spec fn judged(b: bool) -> Seq<char> {
        if b {
            "true"@
        } else {
            "false"@
        }
    }

    fn from_property(value: &PropertyValue) -> (r: Self) {
        value.as_condition_string()
    }

    fn from_bool(b: bool) -> (r: Self) {
        if b {
            "true".to_owned()
        } else {
            "false".to_owned()
        }
    }
}

impl Resolvable for Vec2 {
    open spec fn taken(p: Property) -> (Number, Number) {
        match p {
            Property::Color { rgba, shown } => (Number::Single(rgba[0]), Number::Single(rgba[1])),
            _ => (Number::Single(p.single()), Number::Single(p.single())),
        }
    }

    open spec fn judged(b: bool) -> (Number, Number) {
        (Number::Single(flag_bits(b)), Number::Single(flag_bits(b)))
    }

    fn from_property(value: &PropertyValue) -> (r: Self) {
        match value {
            PropertyValue::Color { rgba, shown: _ } => Vec2 {
                x: Scalar::Single(rgba[0]),
                y: Scalar::Single(rgba[1]),
            },
            other => Vec2::same(other.single()),
        }
    }

    fn from_bool(b: bool) -> (r: Self) {
        Vec2::same(bits_of_flag(b))
    }
}

impl Resolvable for Vec3 {
    open spec fn taken(p: Property) -> (Number, Number, Number) {
        match p {
            Property::Color { rgba, shown } => (
                Number::Single(rgba[0]),
                Number::Single(rgba[1]),
                Number::Single(rgba[2]),
            ),
            _ => crate::value::same3(p.single()),
        }
    }

    open spec fn judged(b: bool) -> (Number, Number, Number) {
        crate::value::same3(flag_bits(b))
    }

    fn from_property(value: &PropertyValue) -> (r: Self) {
        match value {
            PropertyValue::Color { rgba, shown: _ } => Vec3 {
                x: Scalar::Single(rgba[0]),
                y: Scalar::Single(rgba[1]),
                z: Scalar::Single(rgba[2]),
            },
            other => Vec3::same(other.single()),
        }
    }

    fn from_bool(b: bool) -> (r: Self) {
        Vec3::same(bits_of_flag(b))
    }
}

impl Resolvable for Color {
    open spec fn taken(p: Property) -> (Number, Number, Number, Number) {
        match p {
            Property::Color { rgba, shown } => (
                Number::Single(rgba[0]),
                Number::Single(rgba[1]),
                Number::Single(rgba[2]),
                Number::Single(rgba[3]),
            ),
            _ => crate::value::grey(p.single()),
        }
    }

    open spec fn judged(b: bool) -> (Number, Number, Number, Number) {
        crate::value::grey(flag_bits(b))
    }

    fn from_property(value: &PropertyValue) -> (r: Self) {
        match value {
            PropertyValue::Color { rgba, shown: _ } => Color {
                r: Scalar::Single(rgba[0]),
                g: Scalar::Single(rgba[1]),
                b: Scalar::Single(rgba[2]),
                a: Scalar::Single(rgba[3]),
            },
            other => Color::grey(other.single()),
        }
    }

    fn from_bool(b: bool) -> (r: Self) {
        Color::grey(bits_of_flag(b))
    }
}

impl Resolvable for DynamicValue {
    open spec fn taken(p: Property) -> Dynamic {
        match p {
            Property::Bool(b) => Dynamic::Bool(b),
            Property::Number { bits, single, shown } => Dynamic::Float(Number::Real(bits)),
            Property::Color { rgba, shown } => Dynamic::Color(
                (
                    Number::Single(rgba[0]),
                    Number::Single(rgba[1]),
                    Number::Single(rgba[2]),
                    Number::Single(rgba[3]),
                ),
            ),
            Property::Combo { text, single } => Dynamic::Str(text),
            Property::Text { text, single } => Dynamic::Str(text),
        }
    }

    open spec fn judged(b: bool) -> Dynamic {
        Dynamic::Bool(b)
    }

    fn from_property(value: &PropertyValue) -> (r: Self) {
        match value {
            PropertyValue::Bool(b) => DynamicValue::Bool(*b),
            PropertyValue::Number { bits, single: _, shown: _ } => DynamicValue::Float(
                Scalar::Real(*bits),
            ),
            PropertyValue::Color { rgba, shown: _ } => DynamicValue::Color(
                Color {
                    r: Scalar::Single(rgba[0]),
                    g: Scalar::Single(rgba[1]),
                    b: Scalar::Single(rgba[2]),
                    a: Scalar::Single(rgba[3]),
                },
            ),
            PropertyValue::Combo { text, single: _ } => DynamicValue::Str(text.clone()),
            PropertyValue::Text { text, single: _ } => DynamicValue::Str(text.clone()),
        }
    }

    fn from_bool(b: bool) -> (r: Self) {
        DynamicValue::Bool(b)
    }
}

} // verus!
