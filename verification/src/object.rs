//! The objects of a scene.
use vstd::prelude::*;

use crate::json::{
    items, json_text, lookup, printed, read_texts, table_of, tables, text_of_tree, text_or, texts_in, Json,
    JsonMap, Members, Tree,
};
use crate::material::{
    combos_of, flag_or, number_in, number_or, parse_combos, parse_textures, read_flag, read_number,
    read_number_or, read_whole, read_whole_or, slots_of, whole_in, whole_or, Combos, EffectFile,
    EffectFileModel, Material, ModelFile, ModelFileModel, PassModel, TextureSlots, NO_ID,
};
use crate::particle::{
    empty_system, override_from, system_of, InstanceOverride, InstanceOverrideModel,
    ParticleSystem, ParticleSystemModel,
};
use crate::strings::{
    decimal, decimal_of, decimal_of_u64, lemma_views_push, opt_view, same_text, texts, views,
};
use crate::user::{
    constants_of, parse_constant_values, setting_of, user_bool, user_color, user_f32, user_i64,
    user_string, user_vec2, user_vec3, ConstantValues, Constants, Setting, UserSetting,
};
use crate::value::{
    coerce_i64, grey, json_whole, same3, Color, Number, Scalar, Vec2, Vec3, ONE_BITS, ZERO_BITS,
};

verus! {

#[derive(Debug)]
pub struct Keyframe {
    pub frame: Scalar,
    pub value: Scalar,
}

impl View for Keyframe {
    type V = (Number, Number);

    open spec fn view(&self) -> (Number, Number) {
        (self.frame@, self.value@)
    }
}

#[derive(Clone, Copy, Debug, PartialEq, Eq, Structural)]
pub enum AnimMode {
    Mirror,
    Loop,
}

#[derive(Debug)]
pub struct AnimationTrack {
    pub c0: Vec<Keyframe>,
    pub c1: Vec<Keyframe>,
    pub c2: Vec<Keyframe>,
    pub fps: Scalar,
    pub length: Scalar,
    pub mode: AnimMode,
    pub relative: bool,
}

/// What an [`AnimationTrack`] holds.
pub struct TrackModel {
    pub c0: Seq<(Number, Number)>,
    pub c1: Seq<(Number, Number)>,
    pub c2: Seq<(Number, Number)>,
    pub fps: Number,
    pub length: Number,
    pub mode: AnimMode,
    pub relative: bool,
}

impl View for AnimationTrack {
    type V = TrackModel;

    open spec fn view(&self) -> TrackModel {
        TrackModel {
            c0: views(self.c0@),
            c1: views(self.c1@),
            c2: views(self.c2@),
            fps: self.fps@,
            length: self.length@,
            mode: self.mode,
            relative: self.relative,
        }
    }
}

/// What every object has.
#[derive(Debug)]
pub struct BaseObject {
    pub id: i64,
    pub name: String,
    pub sortorder: i64,
    pub dependencies: Vec<i64>,
    pub parent: Option<i64>,
    pub origin: UserSetting<Vec3>,
    pub scale: UserSetting<Vec3>,
    pub angles: UserSetting<Vec3>,
    pub angles_animation: Option<AnimationTrack>,
    pub visible: UserSetting<bool>,
    pub attachment: Option<String>,
}

/// What a [`BaseObject`] holds.
pub struct BaseModel {
    pub id: i64,
    pub name: Seq<char>,
    pub sortorder: i64,
    pub dependencies: Seq<i64>,
    pub parent: Option<i64>,
    pub origin: Setting<(Number, Number, Number)>,
    pub scale: Setting<(Number, Number, Number)>,
    pub angles: Setting<(Number, Number, Number)>,
    pub angles_animation: Option<TrackModel>,
    pub visible: Setting<bool>,
    pub attachment: Option<Seq<char>>,
}

impl View for BaseObject {
    type V = BaseModel;

    open spec fn view(&self) -> BaseModel {
        BaseModel {
            id: self.id,
            name: self.name@,
            sortorder: self.sortorder,
            dependencies: self.dependencies@,
            parent: self.parent,
            origin: self.origin@,
            scale: self.scale@,
            angles: self.angles@,
            angles_animation: opt_view(self.angles_animation),
            visible: self.visible@,
            attachment: opt_view(self.attachment),
        }
    }
}

/// What an image changes in one pass of an effect.
#[derive(Debug)]
pub struct PassOverride {
    pub id: i64,
    pub combos: Combos,
    pub constantshadervalues: ConstantValues,
    pub textures: TextureSlots,
    pub usertextures: TextureSlots,
}

/// What a [`PassOverride`] holds.
pub struct OverrideModel {
    pub id: i64,
    pub combos: Map<Seq<char>, i64>,
    pub constants: Constants,
    pub textures: Seq<Option<Seq<char>>>,
    pub usertextures: Seq<Option<Seq<char>>>,
}

impl View for PassOverride {
    type V = OverrideModel;

    open spec fn view(&self) -> OverrideModel {
        OverrideModel {
            id: self.id,
            combos: self.combos@,
            constants: self.constantshadervalues@,
            textures: texts(self.textures@),
            usertextures: texts(self.usertextures@),
        }
    }
}

#[derive(Debug)]
pub struct Effect {
    pub file: String,
    pub id: i64,
    pub name: String,
    pub visible: UserSetting<bool>,
    pub passes: Vec<PassOverride>,
    pub resolved: Option<EffectFile>,
}

/// What an [`Effect`] holds.
pub struct EffectModel {
    pub file: Seq<char>,
    pub id: i64,
    pub name: Seq<char>,
    pub visible: Setting<bool>,
    pub passes: Seq<OverrideModel>,
    pub resolved: Option<EffectFileModel>,
}

impl View for Effect {
    type V = EffectModel;

    open spec fn view(&self) -> EffectModel {
        EffectModel {
            file: self.file@,
            id: self.id,
            name: self.name@,
            visible: self.visible@,
            passes: views(self.passes@),
            resolved: opt_view(self.resolved),
        }
    }
}

#[derive(Debug)]
pub struct AnimationLayer {
    pub id: i64,
    pub rate: UserSetting<Scalar>,
    pub visible: UserSetting<bool>,
    pub blend: UserSetting<Scalar>,
    pub animation: UserSetting<i64>,
}

/// What an [`AnimationLayer`] holds.
pub struct AnimationLayerModel {
    pub id: i64,
    pub rate: Setting<Number>,
    pub visible: Setting<bool>,
    pub blend: Setting<Number>,
    pub animation: Setting<i64>,
}

impl View for AnimationLayer {
    type V = AnimationLayerModel;

    open spec fn view(&self) -> AnimationLayerModel {
        AnimationLayerModel {
            id: self.id,
            rate: self.rate@,
            visible: self.visible@,
            blend: self.blend@,
            animation: self.animation@,
        }
    }
}

#[derive(Debug)]
pub struct Instance {
    pub textures: TextureSlots,
    pub usertextures: TextureSlots,
}

/// What an [`Instance`] holds.
pub struct InstanceModel {
    pub textures: Seq<Option<Seq<char>>>,
    pub usertextures: Seq<Option<Seq<char>>>,
}

impl View for Instance {
    type V = InstanceModel;

    open spec fn view(&self) -> InstanceModel {
        InstanceModel {
            textures: texts(self.textures@),
            usertextures: texts(self.usertextures@),
        }
    }
}

#[derive(Debug)]
pub struct ImageObject {
    pub image: String,
    pub model: Option<ModelFile>,
    pub material: Option<Material>,
    pub scale: UserSetting<Vec3>,
    pub angles: UserSetting<Vec3>,
    pub visible: UserSetting<bool>,
    pub alpha: UserSetting<Scalar>,
    pub color: UserSetting<Color>,
    pub alignment: String,
    pub size: Vec2,
    pub parallax_depth: UserSetting<Vec2>,
    pub color_blend_mode: UserSetting<i64>,
    pub brightness: UserSetting<Scalar>,
    pub effects: Vec<Effect>,
    pub animationlayers: Vec<AnimationLayer>,
    pub instance: Option<Instance>,
}

/// What an [`ImageObject`] holds.
pub struct ImageModel {
    pub image: Seq<char>,
    pub model: Option<ModelFileModel>,
    pub material: Option<Seq<PassModel>>,
    pub scale: Setting<(Number, Number, Number)>,
    pub angles: Setting<(Number, Number, Number)>,
    pub visible: Setting<bool>,
    pub alpha: Setting<Number>,
    pub color: Setting<(Number, Number, Number, Number)>,
    pub alignment: Seq<char>,
    pub size: (Number, Number),
    pub parallax_depth: Setting<(Number, Number)>,
    pub color_blend_mode: Setting<i64>,
    pub brightness: Setting<Number>,
    pub effects: Seq<EffectModel>,
    pub animationlayers: Seq<AnimationLayerModel>,
    pub instance: Option<InstanceModel>,
}

impl View for ImageObject {
    type V = ImageModel;

    open spec fn view(&self) -> ImageModel {
        ImageModel {
            image: self.image@,
            model: opt_view(self.model),
            material: opt_view(self.material),
            scale: self.scale@,
            angles: self.angles@,
            visible: self.visible@,
            alpha: self.alpha@,
            color: self.color@,
            alignment: self.alignment@,
            size: self.size@,
            parallax_depth: self.parallax_depth@,
            color_blend_mode: self.color_blend_mode@,
            brightness: self.brightness@,
            effects: views(self.effects@),
            animationlayers: views(self.animationlayers@),
            instance: opt_view(self.instance),
        }
    }
}

#[derive(Debug)]
pub struct TextObject {
    pub text: UserSetting<String>,
    pub font: String,
    pub pointsize: UserSetting<Scalar>,
    pub size: Vec2,
    pub scale: UserSetting<Vec3>,
    pub color: UserSetting<Color>,
    pub alpha: UserSetting<Scalar>,
    pub visible: UserSetting<bool>,
    pub horizontalalign: String,
    pub verticalalign: String,
    pub padding: i64,
    pub limitwidth: bool,
    pub maxwidth: Scalar,
}

/// What a [`TextObject`] holds.
pub struct TextModel {
    pub text: Setting<Seq<char>>,
    pub font: Seq<char>,
    pub pointsize: Setting<Number>,
    pub size: (Number, Number),
    pub scale: Setting<(Number, Number, Number)>,
    pub color: Setting<(Number, Number, Number, Number)>,
    pub alpha: Setting<Number>,
    pub visible: Setting<bool>,
    pub horizontalalign: Seq<char>,
    pub verticalalign: Seq<char>,
    pub padding: i64,
    pub limitwidth: bool,
    pub maxwidth: Number,
}

impl View for TextObject {
    type V = TextModel;

    open spec fn view(&self) -> TextModel {
        TextModel {
            text: self.text@,
            font: self.font@,
            pointsize: self.pointsize@,
            size: self.size@,
            scale: self.scale@,
            color: self.color@,
            alpha: self.alpha@,
            visible: self.visible@,
            horizontalalign: self.horizontalalign@,
            verticalalign: self.verticalalign@,
            padding: self.padding,
            limitwidth: self.limitwidth,
            maxwidth: self.maxwidth@,
        }
    }
}

#[derive(Debug)]
pub struct SoundObject {
    pub sound: Vec<String>,
    pub playbackmode: Option<String>,
}

#[derive(Debug)]
pub struct ModelObject {
    pub model: String,
}

#[derive(Debug)]
pub struct ParticleObject {
    pub scale: UserSetting<Vec3>,
    pub angles: UserSetting<Vec3>,
    pub visible: UserSetting<bool>,
    pub parallax_depth: UserSetting<Vec2>,
    pub particle_file: Option<String>,
    pub system: ParticleSystem,
    pub instanceoverride: InstanceOverride,
}

/// What a [`ParticleObject`] holds.
pub struct ParticleModel {
    pub scale: Setting<(Number, Number, Number)>,
    pub angles: Setting<(Number, Number, Number)>,
    pub visible: Setting<bool>,
    pub parallax_depth: Setting<(Number, Number)>,
    pub particle_file: Option<Seq<char>>,
    pub system: ParticleSystemModel,
    pub instanceoverride: InstanceOverrideModel,
}

impl View for ParticleObject {
    type V = ParticleModel;

    open spec fn view(&self) -> ParticleModel {
        ParticleModel {
            scale: self.scale@,
            angles: self.angles@,
            visible: self.visible@,
            parallax_depth: self.parallax_depth@,
            particle_file: opt_view(self.particle_file),
            system: self.system@,
            instanceoverride: self.instanceoverride@,
        }
    }
}

#[derive(Debug)]
pub enum ObjectKind {
    Image(Box<ImageObject>),
    Sound(SoundObject),
    Particle(Box<ParticleObject>),
    Text(Box<TextObject>),
    Model(ModelObject),
    Light(JsonMap),
    Shape(JsonMap),
    Group,
}

/// What an [`ObjectKind`] holds.
pub enum KindModel {
    Image(ImageModel),
    Sound(Seq<Seq<char>>, Option<Seq<char>>),
    Particle(ParticleModel),
    Text(TextModel),
    Model(Seq<char>),
    Light(Members),
    Shape(Members),
    Group,
}

impl View for ObjectKind {
    type V = KindModel;

    open spec fn view(&self) -> KindModel {
        match self {
            ObjectKind::Image(i) => KindModel::Image((*i)@),
            ObjectKind::Sound(s) => KindModel::Sound(views(s.sound@), opt_view(s.playbackmode)),
            ObjectKind::Particle(p) => KindModel::Particle((*p)@),
            ObjectKind::Text(t) => KindModel::Text((*t)@),
            ObjectKind::Model(m) => KindModel::Model(m.model@),
            ObjectKind::Light(m) => KindModel::Light(m@),
            ObjectKind::Shape(m) => KindModel::Shape(m@),
            ObjectKind::Group => KindModel::Group,
        }
    }
}

#[derive(Debug)]
pub struct Object {
    pub base: BaseObject,
    pub kind: ObjectKind,
    pub extra: JsonMap,
}

/// What an [`Object`] holds.
pub struct ObjectModel {
    pub base: BaseModel,
    pub kind: KindModel,
    pub extra: Members,
}

impl View for Object {
    type V = ObjectModel;

    open spec fn view(&self) -> ObjectModel {
        ObjectModel { base: self.base@, kind: self.kind@, extra: self.extra@ }
    }
}

/// The bits of the single 30.
pub const THIRTY_BITS: u32 = 0x41f0_0000;

/// The bits of the single 32.
pub const POINT_SIZE_BITS: u32 = 0x4200_0000;

/// The bits of the single 500.
pub const MAX_WIDTH_BITS: u32 = 0x43fa_0000;

/// The keys among the first `k` tables of a list: those with a frame and a value.
pub open spec fn keys_upto(list: Seq<Members>, k: int) -> Seq<(Number, Number)>
    decreases k,
{
    if k <= 0 {
        Seq::empty()
    } else {
        let before = keys_upto(list, k - 1);
        match (number_in(list[k - 1], "frame"@), number_in(list[k - 1], "value"@)) {
            (Some(f), Some(v)) => before.push((f, v)),
            _ => before,
        }
    }
}

/// The keys of one channel of a track.
pub open spec fn channel_of(m: Members, key: Seq<char>) -> Seq<(Number, Number)> {
    let list = tables(m, key);
    keys_upto(list, list.len() as int)
}

/// The members of the table that `key` has, and none where it has none.
pub open spec fn section(m: Members, key: Seq<char>) -> Members {
    match table_of(lookup(m, key)) {
        Some(o) => o,
        None => Members::empty(),
    }
}

/// The track that a table is.
pub open spec fn track_of(m: Members) -> TrackModel {
    let options = section(m, "options"@);
    TrackModel {
        c0: channel_of(m, "c0"@),
        c1: channel_of(m, "c1"@),
        c2: channel_of(m, "c2"@),
        fps: number_or(options, "fps"@, THIRTY_BITS),
        length: number_or(options, "length"@, ZERO_BITS),
        mode: if text_of_tree(lookup(options, "mode"@)) == Some("mirror"@) {
            AnimMode::Mirror
        } else {
            AnimMode::Loop
        },
        relative: flag_or(m, "relative"@, true),
    }
}

fn read_channel(m: &JsonMap, key: &str) -> (r: Vec<Keyframe>)
    ensures
        views(r@) == channel_of(m@, key@),
{
    let list = m.tables(key);
    let ghost all = tables(m@, key@);
    let mut out: Vec<Keyframe> = Vec::new();
    let mut i: usize = 0;
    assert(views(out@) =~= Seq::empty());
    while i < list.len()
        invariant
            i <= list@.len(),
            list@.len() == all.len(),
            forall|j: int| 0 <= j < list@.len() ==> (#[trigger] list@[j])@ == all[j],
            views(out@) == keys_upto(all, i as int),
        decreases list@.len() - i,
    {
        broadcast use lemma_views_push;

        assert(list@[i as int]@ == all[i as int]);
        match (read_number(list[i], "frame"), read_number(list[i], "value")) {
            (Some(frame), Some(value)) => {
                out.push(Keyframe { frame, value });
            },
            _ => {},
        }
        i += 1;
    }
    out
}

impl AnimationTrack {
    pub fn parse(obj: &JsonMap) -> (r: Self)
        ensures
            r@ == track_of(obj@),
    {
        let none = JsonMap::new();
        let options = match obj.table("options") {
            Some(o) => o,
            None => &none,
        };
        let mode = match options.text("mode") {
            Some(s) => if same_text(s.as_str(), "mirror") {
                AnimMode::Mirror
            } else {
                AnimMode::Loop
            },
            None => AnimMode::Loop,
        };
        AnimationTrack {
            c0: read_channel(obj, "c0"),
            c1: read_channel(obj, "c1"),
            c2: read_channel(obj, "c2"),
            fps: read_number_or(options, "fps", THIRTY_BITS),
            length: read_number_or(options, "length", ZERO_BITS),
            mode,
            relative: read_flag(obj, "relative", true),
        }
    }
}

/// The whole numbers among the first `k` items of a list.
pub open spec fn wholes_upto(list: Seq<Tree>, k: int) -> Seq<i64>
    decreases k,
{
    if k <= 0 {
        Seq::empty()
    } else {
        let before = wholes_upto(list, k - 1);
        match json_whole(list[k - 1]) {
            Some(i) => before.push(i),
            None => before,
        }
    }
}

fn read_wholes(value: Option<&Json>) -> (r: Vec<i64>)
    ensures
        ({
            let list = items(
                match value {
                    Some(v) => Some(v@),
                    None => None,
                },
            );
            r@ == wholes_upto(list, list.len() as int)
        }),
{
    let mut out: Vec<i64> = Vec::new();
    if let Some(v) = value {
        if let Some(list) = v.as_list() {
            let ghost all = views(list@);
            let mut i: usize = 0;
            while i < list.len()
                invariant
                    i <= list@.len(),
                    all == views(list@),
                    out@ == wholes_upto(all, i as int),
                decreases list@.len() - i,
            {
                assert(all[i as int] == list@[i as int]@);
                if let Some(n) = coerce_i64(&list[i]) {
                    out.push(n);
                }
                i += 1;
            }
        }
    }
    out
}

/// The name of an object: a text, or a number in its JSON form.
pub open spec fn object_name(t: Option<Tree>) -> Seq<char> {
    match t {
        Some(Tree::Text(s)) => s,
        Some(Tree::Int(i)) => decimal(i as int),
        Some(Tree::UInt(u)) => decimal(u as int),
        Some(Tree::Real(bits)) => printed(Tree::Real(bits)),
        _ => "unknown"@,
    }
}

fn read_name(value: Option<&Json>) -> (r: String)
    ensures
        r@ == object_name(
            match value {
                Some(v) => Some(v@),
                None => None,
            },
        ),
{
    match value {
        Some(Json::Text(s)) => s.clone(),
        Some(Json::Int(i)) => decimal_of(*i),
        Some(Json::UInt(u)) => decimal_of_u64(*u),
        Some(Json::Real(bits)) => json_text(&Json::Real(*bits)),
        _ => "unknown".to_owned(),
    }
}

/// What every object has, as a table gives it.
pub open spec fn base_of(m: Members) -> BaseModel {
    let dependencies = items(lookup(m, "dependencies"@));
    BaseModel {
        id: whole_or(m, "id"@, NO_ID),
        name: object_name(lookup(m, "name"@)),
        sortorder: whole_or(m, "sortorder"@, 0),
        dependencies: wholes_upto(dependencies, dependencies.len() as int),
        parent: whole_in(m, "parent"@),
        origin: setting_of::<Vec3>(m, "origin"@, same3(ZERO_BITS)),
        scale: setting_of::<Vec3>(m, "scale"@, same3(ONE_BITS)),
        angles: setting_of::<Vec3>(m, "angles"@, same3(ZERO_BITS)),
        angles_animation: match table_of(lookup(section(m, "angles"@), "animation"@)) {
            Some(o) => Some(track_of(o)),
            None => None,
        },
        visible: setting_of::<bool>(m, "visible"@, true),
        attachment: match text_of_tree(lookup(m, "attachment"@)) {
            Some(s) => if s.len() > 0 {
                Some(s)
            } else {
                None
            },
            None => None,
        },
    }
}

impl BaseObject {
    pub fn parse(obj: &JsonMap) -> (r: Self)
        ensures
            r@ == base_of(obj@),
    {
        let angles_animation = match obj.table("angles") {
            Some(o) => match o.table("animation") {
                Some(a) => Some(AnimationTrack::parse(a)),
                None => None,
            },
            None => None,
        };
        let attachment = match obj.text("attachment") {
            Some(s) => if s.as_str().is_empty() {
                None
            } else {
                Some(s.clone())
            },
            None => None,
        };
        BaseObject {
            id: read_whole_or(obj, "id", NO_ID),
            name: read_name(obj.get("name")),
            sortorder: read_whole_or(obj, "sortorder", 0),
            dependencies: read_wholes(obj.get("dependencies")),
            parent: read_whole(obj, "parent"),
            attachment,
            origin: user_vec3(obj, "origin", Vec3::same(ZERO_BITS)),
            scale: user_vec3(obj, "scale", Vec3::same(ONE_BITS)),
            angles: user_vec3(obj, "angles", Vec3::same(ZERO_BITS)),
            angles_animation,
            visible: user_bool(obj, "visible", true),
        }
    }
}

/// The override that a table is.
pub open spec fn pass_override_of(m: Members) -> OverrideModel {
    OverrideModel {
        id: whole_or(m, "id"@, NO_ID),
        combos: combos_of(lookup(m, "combos"@)),
        constants: constants_of(lookup(m, "constantshadervalues"@)),
        textures: slots_of(lookup(m, "textures"@)),
        usertextures: slots_of(lookup(m, "usertextures"@)),
    }
}

impl PassOverride {
    pub fn parse(obj: &JsonMap) -> (r: Self)
        ensures
            r@ == pass_override_of(obj@),
    {
        PassOverride {
            id: read_whole_or(obj, "id", NO_ID),
            combos: parse_combos(obj.get("combos")),
            constantshadervalues: parse_constant_values(obj.get("constantshadervalues")),
            textures: parse_textures(obj.get("textures")),
            usertextures: parse_textures(obj.get("usertextures")),
        }
    }
}

/// The effect of an image that a table is, if it names a file.
pub open spec fn effect_of(m: Members) -> Option<EffectModel> {
    match text_of_tree(lookup(m, "file"@)) {
        Some(file) => Some(
            EffectModel {
                file,
                id: whole_or(m, "id"@, NO_ID),
                name: text_or(m, "name"@, "Effect without name"@),
                visible: setting_of::<bool>(m, "visible"@, true),
                passes: tables(m, "passes"@).map_values(|x: Members| pass_override_of(x)),
                resolved: None,
            },
        ),
        None => None,
    }
}

fn read_overrides(obj: &JsonMap) -> (r: Vec<PassOverride>)
    ensures
        views(r@) == tables(obj@, "passes"@).map_values(|x: Members| pass_override_of(x)),
{
    let list = obj.tables("passes");
    let mut out: Vec<PassOverride> = Vec::new();
    let mut i: usize = 0;
    while i < list.len()
        invariant
            i <= list@.len(),
            out@.len() == i,
            forall|j: int| 0 <= j < i ==> (#[trigger] out@[j])@ == pass_override_of(list@[j]@),
        decreases list@.len() - i,
    {
        out.push(PassOverride::parse(list[i]));
        i += 1;
    }
    assert(views(out@) =~= tables(obj@, "passes"@).map_values(|x: Members| pass_override_of(x)));
    out
}

impl Effect {
    pub fn parse(obj: &JsonMap) -> (r: Option<Self>)
        ensures
            opt_view(r) == effect_of(obj@),
    {
        match obj.text("file") {
            Some(file) => Some(
                Effect {
                    file: file.clone(),
                    id: read_whole_or(obj, "id", NO_ID),
                    name: obj.text_or("name", "Effect without name"),
                    visible: user_bool(obj, "visible", true),
                    passes: read_overrides(obj),
                    resolved: None,
                },
            ),
            None => None,
        }
    }
}

/// The effects among the first `k` tables of a list.
pub open spec fn effects_upto(list: Seq<Members>, k: int) -> Seq<EffectModel>
    decreases k,
{
    if k <= 0 {
        Seq::empty()
    } else {
        let before = effects_upto(list, k - 1);
        match effect_of(list[k - 1]) {
            Some(e) => before.push(e),
            None => before,
        }
    }
}

pub(crate) fn read_effects(obj: &JsonMap) -> (r: Vec<Effect>)
    ensures
        views(r@) == effects_upto(tables(obj@, "effects"@), tables(obj@, "effects"@).len() as int),
{
    let list = obj.tables("effects");
    let ghost all = tables(obj@, "effects"@);
    let mut out: Vec<Effect> = Vec::new();
    let mut i: usize = 0;
    assert(views(out@) =~= Seq::empty());
    while i < list.len()
        invariant
            i <= list@.len(),
            list@.len() == all.len(),
            forall|j: int| 0 <= j < list@.len() ==> (#[trigger] list@[j])@ == all[j],
            views(out@) == effects_upto(all, i as int),
        decreases list@.len() - i,
    {
        broadcast use lemma_views_push;

        assert(list@[i as int]@ == all[i as int]);
        if let Some(e) = Effect::parse(list[i]) {
            out.push(e);
        }
        i += 1;
    }
    out
}

/// The animation layer that a table is, if it has an id.
pub open spec fn animation_layer_of(m: Members) -> Option<AnimationLayerModel> {
    match whole_in(m, "id"@) {
        Some(id) => Some(
            AnimationLayerModel {
                id,
                rate: setting_of::<Scalar>(m, "rate"@, Number::Single(ONE_BITS)),
                visible: setting_of::<bool>(m, "visible"@, false),
                blend: setting_of::<Scalar>(m, "blend"@, Number::Single(ONE_BITS)),
                animation: setting_of::<i64>(m, "animation"@, 0),
            },
        ),
        None => None,
    }
}

impl AnimationLayer {
    pub fn parse(obj: &JsonMap) -> (r: Option<Self>)
        ensures
            opt_view(r) == animation_layer_of(obj@),
    {
        match read_whole(obj, "id") {
            Some(id) => Some(
                AnimationLayer {
                    id,
                    rate: user_f32(obj, "rate", ONE_BITS),
                    visible: user_bool(obj, "visible", false),
                    blend: user_f32(obj, "blend", ONE_BITS),
                    animation: user_i64(obj, "animation", 0),
                },
            ),
            None => None,
        }
    }
}

/// The animation layers among the first `k` tables of a list.
pub open spec fn animation_layers_upto(list: Seq<Members>, k: int) -> Seq<AnimationLayerModel>
    decreases k,
{
    if k <= 0 {
        Seq::empty()
    } else {
        let before = animation_layers_upto(list, k - 1);
        match animation_layer_of(list[k - 1]) {
            Some(l) => before.push(l),
            None => before,
        }
    }
}

fn read_animation_layers(obj: &JsonMap) -> (r: Vec<AnimationLayer>)
    ensures
        views(r@) == animation_layers_upto(
            tables(obj@, "animationlayers"@),
            tables(obj@, "animationlayers"@).len() as int,
        ),
{
    let list = obj.tables("animationlayers");
    let ghost all = tables(obj@, "animationlayers"@);
    let mut out: Vec<AnimationLayer> = Vec::new();
    let mut i: usize = 0;
    assert(views(out@) =~= Seq::empty());
    while i < list.len()
        invariant
            i <= list@.len(),
            list@.len() == all.len(),
            forall|j: int| 0 <= j < list@.len() ==> (#[trigger] list@[j])@ == all[j],
            views(out@) == animation_layers_upto(all, i as int),
        decreases list@.len() - i,
    {
        broadcast use lemma_views_push;

        assert(list@[i as int]@ == all[i as int]);
        if let Some(l) = AnimationLayer::parse(list[i]) {
            out.push(l);
        }
        i += 1;
    }
    out
}

/// How a table aligns an object: `horizontalalign`, or else `alignment`.
pub open spec fn alignment_of(m: Members) -> Seq<char> {
    match text_of_tree(lookup(m, "horizontalalign"@)) {
        Some(s) => s,
        None => text_or(m, "alignment"@, "center"@),
    }
}

fn read_alignment(obj: &JsonMap) -> (r: String)
    ensures
        r@ == alignment_of(obj@),
{
    match obj.text("horizontalalign") {
        Some(s) => s.clone(),
        None => obj.text_or("alignment", "center"),
    }
}

/// Two zeros.
pub open spec fn zero2() -> (Number, Number) {
    (Number::Single(ZERO_BITS), Number::Single(ZERO_BITS))
}

/// The image that a table is.
pub open spec fn image_of(m: Members) -> ImageModel {
    let effects = tables(m, "effects"@);
    let layers = tables(m, "animationlayers"@);
    ImageModel {
        image: text_or(m, "image"@, Seq::empty()),
        model: None,
        material: None,
        scale: setting_of::<Vec3>(m, "scale"@, same3(ONE_BITS)),
        angles: setting_of::<Vec3>(m, "angles"@, same3(ZERO_BITS)),
        visible: setting_of::<bool>(m, "visible"@, true),
        alpha: setting_of::<Scalar>(m, "alpha"@, Number::Single(ONE_BITS)),
        color: setting_of::<Color>(m, "color"@, grey(ONE_BITS)),
        alignment: alignment_of(m),
        size: setting_of::<Vec2>(m, "size"@, zero2()).value,
        parallax_depth: setting_of::<Vec2>(m, "parallaxDepth"@, zero2()),
        color_blend_mode: setting_of::<i64>(m, "colorBlendMode"@, 0),
        brightness: setting_of::<Scalar>(m, "brightness"@, Number::Single(ONE_BITS)),
        effects: effects_upto(effects, effects.len() as int),
        animationlayers: animation_layers_upto(layers, layers.len() as int),
        instance: match table_of(lookup(m, "instance"@)) {
            Some(o) => Some(
                InstanceModel {
                    textures: slots_of(lookup(o, "textures"@)),
                    usertextures: slots_of(lookup(o, "usertextures"@)),
                },
            ),
            None => None,
        },
    }
}

fn parse_image(obj: &JsonMap) -> (r: ImageObject)
    ensures
        r@ == image_of(obj@),
{
    proof {
        reveal_strlit("");
        assert(""@ =~= Seq::empty());
    }
    let instance = match obj.table("instance") {
        Some(o) => Some(
            Instance {
                textures: parse_textures(o.get("textures")),
                usertextures: parse_textures(o.get("usertextures")),
            },
        ),
        None => None,
    };
    ImageObject {
        image: obj.text_or("image", ""),
        model: None,
        material: None,
        scale: user_vec3(obj, "scale", Vec3::same(ONE_BITS)),
        angles: user_vec3(obj, "angles", Vec3::same(ZERO_BITS)),
        visible: user_bool(obj, "visible", true),
        alpha: user_f32(obj, "alpha", ONE_BITS),
        color: user_color(obj, "color", Color::grey(ONE_BITS)),
        alignment: read_alignment(obj),
        size: user_vec2(obj, "size", Vec2::same(ZERO_BITS)).value,
        parallax_depth: user_vec2(obj, "parallaxDepth", Vec2::same(ZERO_BITS)),
        color_blend_mode: user_i64(obj, "colorBlendMode", 0),
        brightness: user_f32(obj, "brightness", ONE_BITS),
        effects: read_effects(obj),
        animationlayers: read_animation_layers(obj),
        instance,
    }
}

/// A number of a table that is written as one.
pub open spec fn plain_number(t: Option<Tree>, default: u32) -> Number {
    match t {
        Some(Tree::Int(i)) => Number::Int(i),
        Some(Tree::UInt(u)) => Number::UInt(u),
        Some(Tree::Real(b)) => Number::Real(b),
        _ => Number::Single(default),
    }
}

fn read_plain_number(value: Option<&Json>, default: u32) -> (r: Scalar)
    ensures
        r@ == plain_number(
            match value {
                Some(v) => Some(v@),
                None => None,
            },
            default,
        ),
{
    match value {
        Some(Json::Int(i)) => Scalar::Int(*i),
        Some(Json::UInt(u)) => Scalar::UInt(*u),
        Some(Json::Real(b)) => Scalar::Real(*b),
        _ => Scalar::Single(default),
    }
}

/// The text object that a table is.
pub open spec fn text_object_of(m: Members) -> TextModel {
    TextModel {
        text: setting_of::<String>(m, "text"@, Seq::empty()),
        font: text_or(m, "font"@, Seq::empty()),
        pointsize: setting_of::<Scalar>(m, "pointsize"@, Number::Single(POINT_SIZE_BITS)),
        size: setting_of::<Vec2>(m, "size"@, zero2()).value,
        scale: setting_of::<Vec3>(m, "scale"@, same3(ONE_BITS)),
        color: setting_of::<Color>(m, "color"@, grey(ONE_BITS)),
        alpha: setting_of::<Scalar>(m, "alpha"@, Number::Single(ONE_BITS)),
        visible: setting_of::<bool>(m, "visible"@, true),
        horizontalalign: alignment_of(m),
        verticalalign: text_or(m, "verticalalign"@, "center"@),
        padding: whole_or(m, "padding"@, 0),
        limitwidth: lookup(m, "limitwidth"@) == Some(Tree::Bool(true)),
        maxwidth: plain_number(lookup(m, "maxwidth"@), MAX_WIDTH_BITS),
    }
}

fn parse_text(obj: &JsonMap) -> (r: TextObject)
    ensures
        r@ == text_object_of(obj@),
{
    proof {
        reveal_strlit("");
        assert(""@ =~= Seq::empty());
    }
    let limitwidth = match obj.get("limitwidth") {
        Some(Json::Bool(b)) => *b,
        _ => false,
    };
    TextObject {
        text: user_string(obj, "text", ""),
        font: obj.text_or("font", ""),
        pointsize: user_f32(obj, "pointsize", POINT_SIZE_BITS),
        size: user_vec2(obj, "size", Vec2::same(ZERO_BITS)).value,
        scale: user_vec3(obj, "scale", Vec3::same(ONE_BITS)),
        color: user_color(obj, "color", Color::grey(ONE_BITS)),
        alpha: user_f32(obj, "alpha", ONE_BITS),
        visible: user_bool(obj, "visible", true),
        horizontalalign: read_alignment(obj),
        verticalalign: obj.text_or("verticalalign", "center"),
        padding: read_whole_or(obj, "padding", 0),
        limitwidth,
        maxwidth: read_plain_number(obj.get("maxwidth"), MAX_WIDTH_BITS),
    }
}

/// The particle object that a table is: its system stands in a file that it
/// names, or in the table itself.
pub open spec fn particle_of(m: Members) -> ParticleModel {
    let entry = lookup(m, "particle"@);
    ParticleModel {
        scale: setting_of::<Vec3>(m, "scale"@, same3(ONE_BITS)),
        angles: setting_of::<Vec3>(m, "angles"@, same3(ZERO_BITS)),
        visible: setting_of::<bool>(m, "visible"@, true),
        parallax_depth: setting_of::<Vec2>(m, "parallaxDepth"@, zero2()),
        particle_file: text_of_tree(entry),
        system: if entry matches Some(t) && t is Table {
            system_of(entry->0)
        } else {
            empty_system()
        },
        instanceoverride: override_from(section(m, "instanceoverride"@)),
    }
}

fn parse_particle(obj: &JsonMap) -> (r: ParticleObject)
    ensures
        r@ == particle_of(obj@),
{
    let (particle_file, system) = match obj.get("particle") {
        Some(v) => match v.as_text() {
            Some(s) => (Some(s.clone()), ParticleSystem::default()),
            None => match v.as_table() {
                Some(_) => (None, ParticleSystem::from_value(v)),
                None => (None, ParticleSystem::default()),
            },
        },
        None => (None, ParticleSystem::default()),
    };
    let instanceoverride = match obj.table("instanceoverride") {
        Some(o) => InstanceOverride::parse(o),
        None => InstanceOverride::default(),
    };
    ParticleObject {
        scale: user_vec3(obj, "scale", Vec3::same(ONE_BITS)),
        angles: user_vec3(obj, "angles", Vec3::same(ZERO_BITS)),
        visible: user_bool(obj, "visible", true),
        parallax_depth: user_vec2(obj, "parallaxDepth", Vec2::same(ZERO_BITS)),
        particle_file,
        system,
        instanceoverride,
    }
}

/// Whether a table has `key`, and not as null.
pub open spec fn is_present(m: Members, key: Seq<char>) -> bool {
    match lookup(m, key) {
        None | Some(Tree::Null) => false,
        _ => true,
    }
}

fn present(obj: &JsonMap, key: &str) -> (r: bool)
    ensures
        r == is_present(obj@, key@),
{
    match obj.get(key) {
        None => false,
        Some(v) => match v {
            Json::Null => false,
            _ => true,
        },
    }
}

/// The kind of object that a table is, by the first of these that it has.
pub open spec fn kind_of(m: Members) -> KindModel {
    if lookup(m, "image"@) matches Some(t) && t is Text {
        KindModel::Image(image_of(m))
    } else if lookup(m, "sound"@) matches Some(t) && t is List {
        KindModel::Sound(
            texts_in(lookup(m, "sound"@)),
            text_of_tree(lookup(m, "playbackmode"@)),
        )
    } else if is_present(m, "particle"@) {
        KindModel::Particle(particle_of(m))
    } else if is_present(m, "text"@) {
        KindModel::Text(text_object_of(m))
    } else if lookup(m, "model"@) matches Some(t) && t is Text {
        KindModel::Model(text_or(m, "model"@, Seq::empty()))
    } else if is_present(m, "light"@) {
        KindModel::Light(m)
    } else if is_present(m, "shape"@) {
        KindModel::Shape(m)
    } else {
        KindModel::Group
    }
}

/// The object that a value is, if it is a table.
pub open spec fn object_of(t: Tree) -> Option<ObjectModel> {
    match t {
        Tree::Table(m) => Some(ObjectModel { base: base_of(m), kind: kind_of(m), extra: m }),
        _ => None,
    }
}

fn parse_kind(obj: &JsonMap) -> (r: ObjectKind)
    ensures
        r@ == kind_of(obj@),
{
    if obj.text("image").is_some() {
        return ObjectKind::Image(Box::new(parse_image(obj)));
    }
    if obj.list("sound").is_some() {
        return ObjectKind::Sound(
            SoundObject {
                sound: read_texts(obj.get("sound")),
                playbackmode: obj.text_copy("playbackmode"),
            },
        );
    }
    if present(obj, "particle") {
        return ObjectKind::Particle(Box::new(parse_particle(obj)));
    }
    if present(obj, "text") {
        return ObjectKind::Text(Box::new(parse_text(obj)));
    }
    match obj.text("model") {
        Some(s) => {
            return ObjectKind::Model(ModelObject { model: s.clone() });
        },
        None => {},
    }
    if present(obj, "light") {
        return ObjectKind::Light(obj.copy());
    }
    if present(obj, "shape") {
        return ObjectKind::Shape(obj.copy());
    }
    ObjectKind::Group
}

impl Object {
    pub fn parse(value: &Json) -> (r: Option<Object>)
        ensures
            opt_view(r) == object_of(value@),
    {
        match value.as_table() {
            Some(obj) => Some(
                Object { base: BaseObject::parse(obj), kind: parse_kind(obj), extra: obj.copy() },
            ),
            None => None,
        }
    }
}

} // verus!
