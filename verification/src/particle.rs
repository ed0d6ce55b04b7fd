//! Particle systems.
use vstd::prelude::*;

use crate::json::{lookup, tables, text_of_tree, text_or, Json, JsonMap, Members, Tree};
use crate::material::{
    flag_or, members_of, number_or, read_flag, read_number_or, read_whole_or, whole_or, Material,
    PassModel, NO_ID,
};
use crate::strings::{opt_view, same_text, views};
use crate::table::TextMap;
use crate::user::{
    read_user, setting_of, user_bool, user_f32, user_vec3, vec2_of, vec3_of, ConstantValues,
    Constants, Readable, Setting, UserSetting,
};
use crate::value::{
    coerce_f64, coerce_i64, coerce_u32, json_number, json_u32, json_whole, same3, Dynamic,
    DynamicValue, Number, Scalar, Vec2, Vec3, ONE_BITS, ZERO_BITS,
};

verus! {

type N3 = (Number, Number, Number);

#[derive(Debug)]
pub struct Emitter {
    pub id: i64,
    pub name: String,
    pub directions: Vec3,
    pub distancemin: Vec3,
    pub distancemax: Vec3,
    pub origin: Vec3,
    pub sign: [i32; 3],
    pub instantaneous: u32,
    pub speedmin: Scalar,
    pub speedmax: Scalar,
    pub rate: Scalar,
    pub controlpoint: i64,
    pub flags: u32,
    pub cone: Scalar,
    pub delay: Scalar,
    pub duration: Scalar,
    pub audioprocessingbounds: Vec2,
    pub audioprocessingexponent: i64,
    pub audioprocessingfrequencystart: i64,
    pub audioprocessingfrequencyend: i64,
    pub audioprocessingmode: i64,
    pub minperiodicdelay: Scalar,
    pub maxperiodicdelay: Scalar,
    pub minperiodicduration: Scalar,
    pub maxperiodicduration: Scalar,
}

/// What an [`Emitter`] holds.
pub struct EmitterModel {
    pub id: i64,
    pub name: Seq<char>,
    pub directions: N3,
    pub distancemin: N3,
    pub distancemax: N3,
    pub origin: N3,
    pub sign: Seq<i32>,
    pub instantaneous: u32,
    pub speedmin: Number,
    pub speedmax: Number,
    pub rate: Number,
    pub controlpoint: i64,
    pub flags: u32,
    pub cone: Number,
    pub delay: Number,
    pub duration: Number,
    pub audioprocessingbounds: (Number, Number),
    pub audioprocessingexponent: i64,
    pub audioprocessingfrequencystart: i64,
    pub audioprocessingfrequencyend: i64,
    pub audioprocessingmode: i64,
    pub minperiodicdelay: Number,
    pub maxperiodicdelay: Number,
    pub minperiodicduration: Number,
    pub maxperiodicduration: Number,
}

impl View for Emitter {
    type V = EmitterModel;

    open spec fn view(&self) -> EmitterModel {
        EmitterModel {
            id: self.id,
            name: self.name@,
            directions: self.directions@,
            distancemin: self.distancemin@,
            distancemax: self.distancemax@,
            origin: self.origin@,
            sign: self.sign@,
            instantaneous: self.instantaneous,
            speedmin: self.speedmin@,
            speedmax: self.speedmax@,
            rate: self.rate@,
            controlpoint: self.controlpoint,
            flags: self.flags,
            cone: self.cone@,
            delay: self.delay@,
            duration: self.duration@,
            audioprocessingbounds: self.audioprocessingbounds@,
            audioprocessingexponent: self.audioprocessingexponent,
            audioprocessingfrequencystart: self.audioprocessingfrequencystart,
            audioprocessingfrequencyend: self.audioprocessingfrequencyend,
            audioprocessingmode: self.audioprocessingmode,
            minperiodicdelay: self.minperiodicdelay@,
            maxperiodicdelay: self.maxperiodicdelay@,
            minperiodicduration: self.minperiodicduration@,
            maxperiodicduration: self.maxperiodicduration@,
        }
    }
}

/// An initializer or an operator.
#[derive(Debug)]
pub struct NamedStage {
    pub id: i64,
    pub name: String,
    pub params: ConstantValues,
}

/// What a [`NamedStage`] holds.
pub struct StageModel {
    pub id: i64,
    pub name: Seq<char>,
    pub params: Constants,
}

impl View for NamedStage {
    type V = StageModel;

    open spec fn view(&self) -> StageModel {
        StageModel { id: self.id, name: self.name@, params: self.params@ }
    }
}

#[derive(Debug)]
pub struct Renderer {
    pub name: String,
    pub length: Scalar,
    pub maxlength: Scalar,
    pub minlength: Scalar,
    pub subdivision: Scalar,
    pub segments: Scalar,
    pub uvscale: Scalar,
    pub uvscrolling: bool,
    pub uvsmoothing: bool,
    pub fadealpha: bool,
    pub fadesize: bool,
}

/// What a [`Renderer`] holds.
pub struct RendererModel {
    pub name: Seq<char>,
    pub length: Number,
    pub maxlength: Number,
    pub minlength: Number,
    pub subdivision: Number,
    pub segments: Number,
    pub uvscale: Number,
    pub uvscrolling: bool,
    pub uvsmoothing: bool,
    pub fadealpha: bool,
    pub fadesize: bool,
}

impl View for Renderer {
    type V = RendererModel;

    open spec fn view(&self) -> RendererModel {
        RendererModel {
            name: self.name@,
            length: self.length@,
            maxlength: self.maxlength@,
            minlength: self.minlength@,
            subdivision: self.subdivision@,
            segments: self.segments@,
            uvscale: self.uvscale@,
            uvscrolling: self.uvscrolling,
            uvsmoothing: self.uvsmoothing,
            fadealpha: self.fadealpha,
            fadesize: self.fadesize,
        }
    }
}

#[derive(Debug)]
pub struct ControlPoint {
    pub id: i64,
    pub flags: u32,
    pub offset: Vec3,
    pub locktopointer: bool,
}

/// What a [`ControlPoint`] holds.
pub struct ControlPointModel {
    pub id: i64,
    pub flags: u32,
    pub offset: N3,
    pub locktopointer: bool,
}

impl View for ControlPoint {
    type V = ControlPointModel;

    open spec fn view(&self) -> ControlPointModel {
        ControlPointModel {
            id: self.id,
            flags: self.flags,
            offset: self.offset@,
            locktopointer: self.locktopointer,
        }
    }
}

#[derive(Debug)]
pub struct ChildSystem {
    pub kind: String,
    pub name: String,
    pub maxcount: u32,
    pub controlpointstartindex: i64,
    pub probability: Scalar,
    pub angles: Vec3,
    pub origin: Vec3,
    pub scale: Vec3,
    pub particle: Option<String>,
}

/// What a [`ChildSystem`] holds.
pub struct ChildSystemModel {
    pub kind: Seq<char>,
    pub name: Seq<char>,
    pub maxcount: u32,
    pub controlpointstartindex: i64,
    pub probability: Number,
    pub angles: N3,
    pub origin: N3,
    pub scale: N3,
    pub particle: Option<Seq<char>>,
}

impl View for ChildSystem {
    type V = ChildSystemModel;

    open spec fn view(&self) -> ChildSystemModel {
        ChildSystemModel {
            kind: self.kind@,
            name: self.name@,
            maxcount: self.maxcount,
            controlpointstartindex: self.controlpointstartindex,
            probability: self.probability@,
            angles: self.angles@,
            origin: self.origin@,
            scale: self.scale@,
            particle: opt_view(self.particle),
        }
    }
}

#[derive(Debug)]
pub struct ParticleSystem {
    pub material: Option<String>,
    pub resolved_material: Option<Material>,
    pub animationmode: String,
    pub sequencemultiplier: Scalar,
    pub maxcount: u32,
    pub starttime: u32,
    pub flags: u32,
    pub emitters: Vec<Emitter>,
    pub initializers: Vec<NamedStage>,
    pub operators: Vec<NamedStage>,
    pub renderers: Vec<Renderer>,
    pub controlpoints: Vec<ControlPoint>,
    pub children: Vec<ChildSystem>,
}

/// What a [`ParticleSystem`] holds.
pub struct ParticleSystemModel {
    pub material: Option<Seq<char>>,
    pub resolved_material: Option<Seq<PassModel>>,
    pub animationmode: Seq<char>,
    pub sequencemultiplier: Number,
    pub maxcount: u32,
    pub starttime: u32,
    pub flags: u32,
    pub emitters: Seq<EmitterModel>,
    pub initializers: Seq<StageModel>,
    pub operators: Seq<StageModel>,
    pub renderers: Seq<RendererModel>,
    pub controlpoints: Seq<ControlPointModel>,
    pub children: Seq<ChildSystemModel>,
}

impl View for ParticleSystem {
    type V = ParticleSystemModel;

    open spec fn view(&self) -> ParticleSystemModel {
        ParticleSystemModel {
            material: opt_view(self.material),
            resolved_material: opt_view(self.resolved_material),
            animationmode: self.animationmode@,
            sequencemultiplier: self.sequencemultiplier@,
            maxcount: self.maxcount,
            starttime: self.starttime,
            flags: self.flags,
            emitters: views(self.emitters@),
            initializers: views(self.initializers@),
            operators: views(self.operators@),
            renderers: views(self.renderers@),
            controlpoints: views(self.controlpoints@),
            children: views(self.children@),
        }
    }
}

#[derive(Debug)]
pub struct InstanceOverride {
    pub enabled: UserSetting<bool>,
    pub alpha: UserSetting<Scalar>,
    pub size: UserSetting<Scalar>,
    pub lifetime: UserSetting<Scalar>,
    pub rate: UserSetting<Scalar>,
    pub speed: UserSetting<Scalar>,
    pub count: UserSetting<Scalar>,
    pub color: UserSetting<Vec3>,
    pub colorn: UserSetting<Vec3>,
}

/// What an [`InstanceOverride`] holds.
pub struct InstanceOverrideModel {
    pub enabled: Setting<bool>,
    pub alpha: Setting<Number>,
    pub size: Setting<Number>,
    pub lifetime: Setting<Number>,
    pub rate: Setting<Number>,
    pub speed: Setting<Number>,
    pub count: Setting<Number>,
    pub color: Setting<(Number, Number, Number)>,
    pub colorn: Setting<(Number, Number, Number)>,
}

impl View for InstanceOverride {
    type V = InstanceOverrideModel;

    open spec fn view(&self) -> InstanceOverrideModel {
        InstanceOverrideModel {
            enabled: self.enabled@,
            alpha: self.alpha@,
            size: self.size@,
            lifetime: self.lifetime@,
            rate: self.rate@,
            speed: self.speed@,
            count: self.count@,
            color: self.color@,
            colorn: self.colorn@,
        }
    }
}

/// The bits of the single 2.
pub const TWO_BITS: u32 = 0x4000_0000;

/// The bits of the single 3.
pub const THREE_BITS: u32 = 0x4040_0000;

/// The bits of the single 4.
pub const FOUR_BITS: u32 = 0x4080_0000;

/// The bits of the single 10.
pub const TEN_BITS: u32 = 0x4120_0000;

/// The bits of the single 256.
pub const LARGE_BITS: u32 = 0x4380_0000;

/// The bits of the single nearest to 0.8.
pub const FOUR_FIFTHS_BITS: u32 = 0x3f4c_cccd;

/// The bits of the single nearest to 0.05.
pub const TWENTIETH_BITS: u32 = 0x3d4c_cccd;

/// The number at a place of a list, or `default`.
pub open spec fn item_number(list: Seq<Tree>, i: int, default: Number) -> Number {
    if i < list.len() {
        match json_number(list[i]) {
            Some(n) => n,
            None => default,
        }
    } else {
        default
    }
}

/// A vector of three that a text spells, a list holds, or one number stands for.
pub open spec fn broad_vec3(t: Option<Tree>, default: N3) -> N3 {
    match t {
        Some(Tree::Text(s)) => match vec3_of(Tree::Text(s)) {
            Some(v) => v,
            None => default,
        },
        Some(Tree::List(a)) => (
            item_number(a, 0, default.0),
            item_number(a, 1, default.1),
            item_number(a, 2, default.2),
        ),
        Some(Tree::Int(i)) => (Number::Int(i), Number::Int(i), Number::Int(i)),
        Some(Tree::UInt(u)) => (Number::UInt(u), Number::UInt(u), Number::UInt(u)),
        Some(Tree::Real(b)) => (Number::Real(b), Number::Real(b), Number::Real(b)),
        _ => default,
    }
}

/// A vector of two that a text spells or a list holds.
pub open spec fn broad_vec2(t: Option<Tree>, default: (Number, Number)) -> (Number, Number) {
    match t {
        Some(Tree::Text(s)) => match vec2_of(Tree::Text(s)) {
            Some(v) => v,
            None => default,
        },
        Some(Tree::List(a)) => (item_number(a, 0, default.0), item_number(a, 1, default.1)),
        _ => default,
    }
}

/// A whole number of 32 bits: the low bits of `i`.
pub open spec fn low32(i: i64) -> i32 {
    i as i32
}

/// The whole number at a place of a list, or zero.
pub open spec fn item_whole(list: Seq<Tree>, i: int) -> i32 {
    if i < list.len() {
        match json_whole(list[i]) {
            Some(n) => low32(n),
            None => 0,
        }
    } else {
        0
    }
}

/// Three whole numbers that a list holds.
pub open spec fn broad_ivec3(t: Option<Tree>) -> Seq<i32> {
    match t {
        Some(Tree::List(a)) => seq![item_whole(a, 0), item_whole(a, 1), item_whole(a, 2)],
        _ => seq![0i32, 0, 0],
    }
}

fn number_at(list: &Vec<Json>, i: usize, default: Scalar) -> (r: Scalar)
    ensures
        r@ == item_number(views(list@), i as int, default@),
{
    if i < list.len() {
        match coerce_f64(&list[i]) {
            Some(n) => n,
            None => default,
        }
    } else {
        default
    }
}

fn whole_at(list: &Vec<Json>, i: usize) -> (r: i32)
    ensures
        r == item_whole(views(list@), i as int),
{
    if i < list.len() {
        match coerce_i64(&list[i]) {
            Some(n) => n as i32,
            None => 0,
        }
    } else {
        0
    }
}

pub fn parse_bvec3(value: Option<&Json>, default: Vec3) -> (r: Vec3)
    ensures
        r@ == broad_vec3(
            match value {
                Some(v) => Some(v@),
                None => None,
            },
            default@,
        ),
{
    match value {
        None => default,
        Some(v) => match v {
            Json::Text(_) => match Vec3::read(v) {
                Some(x) => x,
                None => default,
            },
            Json::Int(i) => Vec3 { x: Scalar::Int(*i), y: Scalar::Int(*i), z: Scalar::Int(*i) },
            Json::UInt(u) => Vec3 { x: Scalar::UInt(*u), y: Scalar::UInt(*u), z: Scalar::UInt(*u) },
            Json::Real(b) => Vec3 { x: Scalar::Real(*b), y: Scalar::Real(*b), z: Scalar::Real(*b) },
            other => match other.as_list() {
                Some(a) => Vec3 {
                    x: number_at(a, 0, default.x),
                    y: number_at(a, 1, default.y),
                    z: number_at(a, 2, default.z),
                },
                None => default,
            },
        },
    }
}

fn parse_bvec2(value: Option<&Json>, default: Vec2) -> (r: Vec2)
    ensures
        r@ == broad_vec2(
            match value {
                Some(v) => Some(v@),
                None => None,
            },
            default@,
        ),
{
    match value {
        None => default,
        Some(v) => match v {
            Json::Text(_) => match Vec2::read(v) {
                Some(x) => x,
                None => default,
            },
            other => match other.as_list() {
                Some(a) => Vec2 { x: number_at(a, 0, default.x), y: number_at(a, 1, default.y) },
                None => default,
            },
        },
    }
}

fn parse_ivec3(value: Option<&Json>) -> (r: [i32; 3])
    ensures
        r@ == broad_ivec3(
            match value {
                Some(v) => Some(v@),
                None => None,
            },
        ),
{
    match value {
        Some(v) => match v.as_list() {
            Some(a) => {
                let r = [whole_at(a, 0), whole_at(a, 1), whole_at(a, 2)];
                assert(r@ =~= broad_ivec3(Some(v@)));
                r
            },
            None => {
                let r = [0i32, 0, 0];
                assert(r@ =~= seq![0i32, 0, 0]);
                r
            },
        },
        None => {
            let r = [0i32, 0, 0];
            assert(r@ =~= seq![0i32, 0, 0]);
            r
        },
    }
}

/// A whole number of 32 bits without a sign of a table, or `default`.
pub open spec fn u32_or(m: Members, key: Seq<char>, default: u32) -> u32 {
    match lookup(m, key) {
        Some(t) => match json_u32(t) {
            Some(u) => u,
            None => default,
        },
        None => default,
    }
}

fn read_u32_or(m: &JsonMap, key: &str, default: u32) -> (r: u32)
    ensures
        r == u32_or(m@, key@, default),
{
    match m.get(key) {
        Some(v) => match coerce_u32(v) {
            Some(u) => u,
            None => default,
        },
        None => default,
    }
}

/// Two singles and a zero.
pub open spec fn flat(bits: u32) -> N3 {
    (Number::Single(bits), Number::Single(bits), Number::Single(ZERO_BITS))
}

fn flat_vec(bits: u32) -> (r: Vec3)
    ensures
        r@ == flat(bits),
{
    Vec3 { x: Scalar::Single(bits), y: Scalar::Single(bits), z: Scalar::Single(ZERO_BITS) }
}

/// The emitter that a table is.
pub open spec fn emitter_of(m: Members) -> EmitterModel {
    EmitterModel {
        id: whole_or(m, "id"@, NO_ID),
        name: text_or(m, "name"@, Seq::empty()),
        directions: broad_vec3(lookup(m, "directions"@), flat(ONE_BITS)),
        distancemin: broad_vec3(lookup(m, "distancemin"@), same3(ZERO_BITS)),
        distancemax: broad_vec3(lookup(m, "distancemax"@), flat(LARGE_BITS)),
        origin: broad_vec3(lookup(m, "origin"@), same3(ZERO_BITS)),
        sign: broad_ivec3(lookup(m, "sign"@)),
        instantaneous: u32_or(m, "instantaneous"@, 0),
        speedmin: number_or(m, "speedmin"@, ZERO_BITS),
        speedmax: number_or(m, "speedmax"@, ZERO_BITS),
        rate: number_or(m, "rate"@, TEN_BITS),
        controlpoint: whole_or(m, "controlpoint"@, 0),
        flags: u32_or(m, "flags"@, 0),
        cone: number_or(m, "cone"@, ZERO_BITS),
        delay: number_or(m, "delay"@, ZERO_BITS),
        duration: number_or(m, "duration"@, ZERO_BITS),
        audioprocessingbounds: broad_vec2(
            lookup(m, "audioprocessingbounds"@),
            (Number::Single(FOUR_FIFTHS_BITS), Number::Single(ONE_BITS)),
        ),
        audioprocessingexponent: whole_or(m, "audioprocessingexponent"@, 2),
        audioprocessingfrequencystart: whole_or(m, "audioprocessingfrequencystart"@, 0),
        audioprocessingfrequencyend: whole_or(m, "audioprocessingfrequencyend"@, 1),
        audioprocessingmode: whole_or(m, "audioprocessingmode"@, 0),
        minperiodicdelay: number_or(m, "minperiodicdelay"@, ONE_BITS),
        maxperiodicdelay: number_or(m, "maxperiodicdelay"@, TWO_BITS),
        minperiodicduration: number_or(m, "minperiodicduration"@, TWO_BITS),
        maxperiodicduration: number_or(m, "maxperiodicduration"@, THREE_BITS),
    }
}

impl Emitter {
    pub fn parse(obj: &JsonMap) -> (r: Self)
        ensures
            r@ == emitter_of(obj@),
    {
        proof {
            reveal_strlit("");
            assert(""@ =~= Seq::empty());
        }
        Emitter {
            id: read_whole_or(obj, "id", NO_ID),
            name: obj.text_or("name", ""),
            directions: parse_bvec3(obj.get("directions"), flat_vec(ONE_BITS)),
            distancemin: parse_bvec3(obj.get("distancemin"), Vec3::same(ZERO_BITS)),
            distancemax: parse_bvec3(obj.get("distancemax"), flat_vec(LARGE_BITS)),
            origin: parse_bvec3(obj.get("origin"), Vec3::same(ZERO_BITS)),
            sign: parse_ivec3(obj.get("sign")),
            instantaneous: read_u32_or(obj, "instantaneous", 0),
            speedmin: read_number_or(obj, "speedmin", ZERO_BITS),
            speedmax: read_number_or(obj, "speedmax", ZERO_BITS),
            rate: read_number_or(obj, "rate", TEN_BITS),
            controlpoint: read_whole_or(obj, "controlpoint", 0),
            flags: read_u32_or(obj, "flags", 0),
            cone: read_number_or(obj, "cone", ZERO_BITS),
            delay: read_number_or(obj, "delay", ZERO_BITS),
            duration: read_number_or(obj, "duration", ZERO_BITS),
            audioprocessingbounds: parse_bvec2(
                obj.get("audioprocessingbounds"),
                Vec2 { x: Scalar::Single(FOUR_FIFTHS_BITS), y: Scalar::Single(ONE_BITS) },
            ),
            audioprocessingexponent: read_whole_or(obj, "audioprocessingexponent", 2),
            audioprocessingfrequencystart: read_whole_or(obj, "audioprocessingfrequencystart", 0),
            audioprocessingfrequencyend: read_whole_or(obj, "audioprocessingfrequencyend", 1),
            audioprocessingmode: read_whole_or(obj, "audioprocessingmode", 0),
            minperiodicdelay: read_number_or(obj, "minperiodicdelay", ONE_BITS),
            maxperiodicdelay: read_number_or(obj, "maxperiodicdelay", TWO_BITS),
            minperiodicduration: read_number_or(obj, "minperiodicduration", TWO_BITS),
            maxperiodicduration: read_number_or(obj, "maxperiodicduration", THREE_BITS),
        }
    }
}

/// The parameters among the first `k` entries of a stage.
pub open spec fn stage_params(m: Members, k: int) -> Constants
    decreases k,
{
    if k <= 0 {
        Map::empty()
    } else {
        let before = stage_params(m, k - 1);
        let key = m[k - 1].0;
        if key == "id"@ || key == "name"@ {
            before
        } else {
            before.insert(key, setting_of::<DynamicValue>(m, key, Dynamic::Null))
        }
    }
}

/// The stage that a table is.
pub open spec fn stage_of(m: Members) -> StageModel {
    StageModel {
        id: whole_or(m, "id"@, NO_ID),
        name: text_or(m, "name"@, Seq::empty()),
        params: stage_params(m, m.len() as int),
    }
}

impl NamedStage {
    pub fn parse(obj: &JsonMap) -> (r: Self)
        ensures
            r@ == stage_of(obj@),
    {
        let mut params: ConstantValues = TextMap::new();
        let mut i: usize = 0;
        while i < obj.entries.len()
            invariant
                i <= obj.entries@.len(),
                params@ == stage_params(obj@, i as int),
            decreases obj.entries@.len() - i,
        {
            let key = &obj.entries[i].0;
            assert(obj@[i as int].0 == key@);
            if !same_text(key.as_str(), "id") && !same_text(key.as_str(), "name") {
                params.insert(key.clone(), read_user(obj, key.as_str(), DynamicValue::Null));
            }
            i += 1;
        }
        proof {
            reveal_strlit("");
            assert(""@ =~= Seq::empty());
        }
        NamedStage { id: read_whole_or(obj, "id", NO_ID), name: obj.text_or("name", ""), params }
    }
}

/// The renderer that a table is; trails and ropes have lengths of their own.
pub open spec fn renderer_of(m: Members) -> RendererModel {
    let name = text_or(m, "name"@, "sprite"@);
    RendererModel {
        name,
        length: number_or(
            m,
            "length"@,
            if name == "ropetrail"@ {
                ONE_BITS
            } else {
                TWENTIETH_BITS
            },
        ),
        maxlength: number_or(m, "maxlength"@, TEN_BITS),
        minlength: number_or(m, "minlength"@, ZERO_BITS),
        subdivision: number_or(
            m,
            "subdivision"@,
            if name == "rope"@ {
                FOUR_BITS
            } else {
                ONE_BITS
            },
        ),
        segments: number_or(m, "segments"@, FOUR_BITS),
        uvscale: number_or(m, "uvscale"@, ONE_BITS),
        uvscrolling: flag_or(m, "uvscrolling"@, false),
        uvsmoothing: flag_or(m, "uvsmoothing"@, true),
        fadealpha: flag_or(m, "fadealpha"@, false),
        fadesize: flag_or(m, "fadesize"@, false),
    }
}

/// The renderer of a system that names none.
pub open spec fn sprite_renderer() -> RendererModel {
    renderer_of(Members::empty())
}

impl Renderer {
    pub fn default_sprite() -> (r: Self)
        ensures
            r@ == sprite_renderer(),
    {
        Renderer::parse(&JsonMap::new())
    }

    pub fn parse(obj: &JsonMap) -> (r: Self)
        ensures
            r@ == renderer_of(obj@),
    {
        let name = obj.text_or("name", "sprite");
        let length: u32 = if same_text(name.as_str(), "ropetrail") {
            ONE_BITS
        } else {
            TWENTIETH_BITS
        };
        let subdivision: u32 = if same_text(name.as_str(), "rope") {
            FOUR_BITS
        } else {
            ONE_BITS
        };
        Renderer {
            length: read_number_or(obj, "length", length),
            maxlength: read_number_or(obj, "maxlength", TEN_BITS),
            minlength: read_number_or(obj, "minlength", ZERO_BITS),
            subdivision: read_number_or(obj, "subdivision", subdivision),
            segments: read_number_or(obj, "segments", FOUR_BITS),
            uvscale: read_number_or(obj, "uvscale", ONE_BITS),
            uvscrolling: read_flag(obj, "uvscrolling", false),
            uvsmoothing: read_flag(obj, "uvsmoothing", true),
            fadealpha: read_flag(obj, "fadealpha", false),
            fadesize: read_flag(obj, "fadesize", false),
            name,
        }
    }
}

/// The control point that a table is: bound to the pointer where it says so,
/// or where the lowest of its flags is set.
pub open spec fn control_point_of(m: Members) -> ControlPointModel {
    let flags = u32_or(m, "flags"@, 0);
    ControlPointModel {
        id: whole_or(m, "id"@, NO_ID),
        flags,
        offset: match lookup(m, "offset"@) {
            Some(t) => match vec3_of(t) {
                Some(v) => v,
                None => same3(ZERO_BITS),
            },
            None => same3(ZERO_BITS),
        },
        locktopointer: flag_or(m, "locktopointer"@, false) || flags % 2 == 1,
    }
}

impl ControlPoint {
    pub fn parse(obj: &JsonMap) -> (r: Self)
        ensures
            r@ == control_point_of(obj@),
    {
        let flags: u32 = read_u32_or(obj, "flags", 0);
        let offset = match obj.get("offset") {
            Some(v) => match Vec3::read(v) {
                Some(x) => x,
                None => Vec3::same(ZERO_BITS),
            },
            None => Vec3::same(ZERO_BITS),
        };
        ControlPoint {
            id: read_whole_or(obj, "id", NO_ID),
            flags,
            offset,
            locktopointer: read_flag(obj, "locktopointer", false) || flags % 2 == 1,
        }
    }
}

/// The child system that a table is.
pub open spec fn child_of(m: Members) -> ChildSystemModel {
    ChildSystemModel {
        kind: text_or(m, "type"@, "static"@),
        name: text_or(m, "name"@, Seq::empty()),
        maxcount: u32_or(m, "maxcount"@, 20),
        controlpointstartindex: whole_or(m, "controlpointstartindex"@, 0),
        probability: number_or(m, "probability"@, ONE_BITS),
        angles: broad_vec3(lookup(m, "angles"@), same3(ZERO_BITS)),
        origin: broad_vec3(lookup(m, "origin"@), same3(ZERO_BITS)),
        scale: broad_vec3(lookup(m, "scale"@), same3(ONE_BITS)),
        particle: text_of_tree(lookup(m, "particle"@)),
    }
}

impl ChildSystem {
    pub fn parse(obj: &JsonMap) -> (r: Self)
        ensures
            r@ == child_of(obj@),
    {
        proof {
            reveal_strlit("");
            assert(""@ =~= Seq::empty());
        }
        ChildSystem {
            kind: obj.text_or("type", "static"),
            name: obj.text_or("name", ""),
            maxcount: read_u32_or(obj, "maxcount", 20),
            controlpointstartindex: read_whole_or(obj, "controlpointstartindex", 0),
            probability: read_number_or(obj, "probability", ONE_BITS),
            angles: parse_bvec3(obj.get("angles"), Vec3::same(ZERO_BITS)),
            origin: parse_bvec3(obj.get("origin"), Vec3::same(ZERO_BITS)),
            scale: parse_bvec3(obj.get("scale"), Vec3::same(ONE_BITS)),
            particle: obj.text_copy("particle"),
        }
    }
}

/// The renderers of a system: a plain sprite where it names none.
pub open spec fn renderers_of(m: Members) -> Seq<RendererModel> {
    let list = tables(m, "renderer"@);
    if list.len() == 0 {
        seq![sprite_renderer()]
    } else {
        Seq::new(list.len(), |i: int| renderer_of(list[i]))
    }
}

/// The particle system that a document is.
pub open spec fn system_of(t: Tree) -> ParticleSystemModel {
    let m = members_of(t);
    ParticleSystemModel {
        material: text_of_tree(lookup(m, "material"@)),
        resolved_material: None,
        animationmode: text_or(m, "animationmode"@, "sequence"@),
        sequencemultiplier: number_or(m, "sequencemultiplier"@, ONE_BITS),
        maxcount: u32_or(m, "maxcount"@, 100),
        starttime: u32_or(m, "starttime"@, 0),
        flags: u32_or(m, "flags"@, 0),
        emitters: tables(m, "emitter"@).map_values(|x: Members| emitter_of(x)),
        initializers: tables(m, "initializer"@).map_values(|x: Members| stage_of(x)),
        operators: tables(m, "operator"@).map_values(|x: Members| stage_of(x)),
        renderers: renderers_of(m),
        controlpoints: tables(m, "controlpoint"@).map_values(|x: Members| control_point_of(x)),
        children: tables(m, "children"@).map_values(|x: Members| child_of(x)),
    }
}

fn read_emitters(obj: &JsonMap) -> (r: Vec<Emitter>)
    ensures
        views(r@) == tables(obj@, "emitter"@).map_values(|x: Members| emitter_of(x)),
{
    let list = obj.tables("emitter");
    let mut out: Vec<Emitter> = Vec::new();
    let mut i: usize = 0;
    while i < list.len()
        invariant
            i <= list@.len(),
            out@.len() == i,
            forall|j: int| 0 <= j < i ==> (#[trigger] out@[j])@ == emitter_of(list@[j]@),
        decreases list@.len() - i,
    {
        out.push(Emitter::parse(list[i]));
        i += 1;
    }
    assert(views(out@) =~= tables(obj@, "emitter"@).map_values(|x: Members| emitter_of(x)));
    out
}

fn read_stages(obj: &JsonMap, key: &str) -> (r: Vec<NamedStage>)
    ensures
        views(r@) == tables(obj@, key@).map_values(|x: Members| stage_of(x)),
{
    let list = obj.tables(key);
    let mut out: Vec<NamedStage> = Vec::new();
    let mut i: usize = 0;
    while i < list.len()
        invariant
            i <= list@.len(),
            out@.len() == i,
            forall|j: int| 0 <= j < i ==> (#[trigger] out@[j])@ == stage_of(list@[j]@),
        decreases list@.len() - i,
    {
        out.push(NamedStage::parse(list[i]));
        i += 1;
    }
    assert(views(out@) =~= tables(obj@, key@).map_values(|x: Members| stage_of(x)));
    out
}

fn read_renderers(obj: &JsonMap) -> (r: Vec<Renderer>)
    ensures
        views(r@) == renderers_of(obj@),
{
    let list = obj.tables("renderer");
    let mut out: Vec<Renderer> = Vec::new();
    let mut i: usize = 0;
    while i < list.len()
        invariant
            i <= list@.len(),
            out@.len() == i,
            forall|j: int| 0 <= j < i ==> (#[trigger] out@[j])@ == renderer_of(list@[j]@),
        decreases list@.len() - i,
    {
        out.push(Renderer::parse(list[i]));
        i += 1;
    }
    if out.len() == 0 {
        out.push(Renderer::default_sprite());
    }
    assert(views(out@) =~= renderers_of(obj@));
    out
}

fn read_control_points(obj: &JsonMap) -> (r: Vec<ControlPoint>)
    ensures
        views(r@) == tables(obj@, "controlpoint"@).map_values(|x: Members| control_point_of(x)),
{
    let list = obj.tables("controlpoint");
    let mut out: Vec<ControlPoint> = Vec::new();
    let mut i: usize = 0;
    while i < list.len()
        invariant
            i <= list@.len(),
            out@.len() == i,
            forall|j: int| 0 <= j < i ==> (#[trigger] out@[j])@ == control_point_of(list@[j]@),
        decreases list@.len() - i,
    {
        out.push(ControlPoint::parse(list[i]));
        i += 1;
    }
    assert(views(out@) =~= tables(obj@, "controlpoint"@).map_values(
        |x: Members| control_point_of(x),
    ));
    out
}

fn read_children(obj: &JsonMap) -> (r: Vec<ChildSystem>)
    ensures
        views(r@) == tables(obj@, "children"@).map_values(|x: Members| child_of(x)),
{
    let list = obj.tables("children");
    let mut out: Vec<ChildSystem> = Vec::new();
    let mut i: usize = 0;
    while i < list.len()
        invariant
            i <= list@.len(),
            out@.len() == i,
            forall|j: int| 0 <= j < i ==> (#[trigger] out@[j])@ == child_of(list@[j]@),
        decreases list@.len() - i,
    {
        out.push(ChildSystem::parse(list[i]));
        i += 1;
    }
    assert(views(out@) =~= tables(obj@, "children"@).map_values(|x: Members| child_of(x)));
    out
}

fn read_system(m: &JsonMap) -> (r: ParticleSystem)
    ensures
        r@ == system_of(Tree::Table(m@)),
{
    ParticleSystem {
        material: m.text_copy("material"),
        resolved_material: None,
        animationmode: m.text_or("animationmode", "sequence"),
        sequencemultiplier: read_number_or(m, "sequencemultiplier", ONE_BITS),
        maxcount: read_u32_or(m, "maxcount", 100),
        starttime: read_u32_or(m, "starttime", 0),
        flags: read_u32_or(m, "flags", 0),
        emitters: read_emitters(m),
        initializers: read_stages(m, "initializer"),
        operators: read_stages(m, "operator"),
        renderers: read_renderers(m),
        controlpoints: read_control_points(m),
        children: read_children(m),
    }
}

impl ParticleSystem {
    pub fn from_value(value: &Json) -> (r: Self)
        ensures
            r@ == system_of(value@),
    {
        match value.as_table() {
            Some(m) => read_system(m),
            None => {
                assert(members_of(value@) == members_of(Tree::Table(Members::empty())));
                read_system(&JsonMap::new())
            },
        }
    }
}

/// A system with nothing in it.
pub open spec fn empty_system() -> ParticleSystemModel {
    ParticleSystemModel {
        material: None,
        resolved_material: None,
        animationmode: Seq::empty(),
        sequencemultiplier: Number::Single(ZERO_BITS),
        maxcount: 0,
        starttime: 0,
        flags: 0,
        emitters: Seq::empty(),
        initializers: Seq::empty(),
        operators: Seq::empty(),
        renderers: Seq::empty(),
        controlpoints: Seq::empty(),
        children: Seq::empty(),
    }
}

impl Default for ParticleSystem {
    fn default() -> (r: Self)
        ensures
            r@ == empty_system(),
    {
        let r = ParticleSystem {
            material: None,
            resolved_material: None,
            animationmode: String::new(),
            sequencemultiplier: Scalar::Single(ZERO_BITS),
            maxcount: 0,
            starttime: 0,
            flags: 0,
            emitters: Vec::new(),
            initializers: Vec::new(),
            operators: Vec::new(),
            renderers: Vec::new(),
            controlpoints: Vec::new(),
            children: Vec::new(),
        };
        proof {
            assert(r@.emitters =~= Seq::empty());
            assert(r@.initializers =~= Seq::empty());
            assert(r@.operators =~= Seq::empty());
            assert(r@.renderers =~= Seq::empty());
            assert(r@.controlpoints =~= Seq::empty());
            assert(r@.children =~= Seq::empty());
        }
        r
    }
}

/// The overrides that a table gives.
pub open spec fn override_from(m: Members) -> InstanceOverrideModel {
    let one = Number::Single(ONE_BITS);
    InstanceOverrideModel {
        enabled: setting_of::<bool>(m, "enabled"@, true),
        alpha: setting_of::<Scalar>(m, "alpha"@, one),
        size: setting_of::<Scalar>(m, "size"@, one),
        lifetime: setting_of::<Scalar>(m, "lifetime"@, one),
        rate: setting_of::<Scalar>(m, "rate"@, one),
        speed: setting_of::<Scalar>(m, "speed"@, one),
        count: setting_of::<Scalar>(m, "count"@, one),
        color: setting_of::<Vec3>(m, "color"@, same3(ONE_BITS)),
        colorn: setting_of::<Vec3>(m, "colorn"@, same3(ONE_BITS)),
    }
}

impl InstanceOverride {
    pub fn parse(obj: &JsonMap) -> (r: Self)
        ensures
            r@ == override_from(obj@),
    {
        InstanceOverride {
            enabled: user_bool(obj, "enabled", true),
            alpha: user_f32(obj, "alpha", ONE_BITS),
            size: user_f32(obj, "size", ONE_BITS),
            lifetime: user_f32(obj, "lifetime", ONE_BITS),
            rate: user_f32(obj, "rate", ONE_BITS),
            speed: user_f32(obj, "speed", ONE_BITS),
            count: user_f32(obj, "count", ONE_BITS),
            color: user_vec3(obj, "color", Vec3::same(ONE_BITS)),
            colorn: user_vec3(obj, "colorn", Vec3::same(ONE_BITS)),
        }
    }
}

impl Default for InstanceOverride {
    fn default() -> (r: Self)
        ensures
            r@ == override_from(Members::empty()),
    {
        InstanceOverride::parse(&JsonMap::new())
    }
}

} // verus!
