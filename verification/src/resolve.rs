//! Giving settings the values of the user properties that they follow.
use vstd::prelude::*;

use crate::copy::Duplicate;
use crate::json::{lookup, text_of_tree, Json, JsonMap, Members, Tree};
use crate::material::{
    EffectFile, EffectFileModel, EffectPass, EffectPassModel, Material, PassModel,
};
use crate::object::{
    AnimationLayer, AnimationLayerModel, BaseModel, BaseObject, Effect, EffectModel, ImageModel,
    ImageObject, KindModel, Object, ObjectKind, ObjectModel, OverrideModel, ParticleModel,
    ParticleObject, PassOverride, TextModel, TextObject,
};
use crate::particle::{
    InstanceOverride, InstanceOverrideModel, NamedStage, ParticleSystemModel, StageModel,
};
use crate::property::{Bag, Property, PropertyBag, PropertyValue, Resolvable};
use crate::scene::{Camera, CameraModel, General, GeneralModel, Scene, SceneModelView};
use crate::strings::{same_text, views};
use crate::table::{as_map, lemma_as_map_grows, TextMap};
use crate::user::{ConstantValues, Constants, Reference, Script, Setting, UserRef, UserSetting};
use crate::value::{
    double_exponent, Color, Dynamic, DynamicValue, Number, Scalar, Vec2, Vec3,
};

verus! {

/// A user property as a script's property: a flag, a number, or text. A
/// number that is not finite is null.
pub open spec fn property_tree(p: Property) -> Tree {
    match p {
        Property::Bool(b) => Tree::Bool(b),
        Property::Number { bits, single, shown } => if double_exponent(bits) == 2047 {
            Tree::Null
        } else {
            Tree::Real(bits)
        },
        _ => Tree::Text(p.shown()),
    }
}

/// A script's property once resolved: an entry with a value becomes that
/// value, or what the user property that it follows gives it.
pub open spec fn resolved_entry(t: Tree, bag: Bag) -> Tree {
    match t {
        Tree::Table(o) => match lookup(o, "value"@) {
            None => t,
            Some(fallback) => match lookup(o, "user"@) {
                Some(Tree::Text(name)) => if bag.contains_key(name) {
                    property_tree(bag[name])
                } else {
                    fallback
                },
                Some(Tree::Table(u)) => match (
                    text_of_tree(lookup(u, "name"@)),
                    text_of_tree(lookup(u, "condition"@)),
                ) {
                    (Some(name), Some(condition)) => if bag.contains_key(name) {
                        Tree::Bool(bag[name].shown() == condition)
                    } else {
                        fallback
                    },
                    _ => fallback,
                },
                _ => fallback,
            },
        },
        _ => t,
    }
}

/// The properties of a script, each resolved.
pub open spec fn resolved_props(m: Members, bag: Bag) -> Members {
    Seq::new(m.len(), |i: int| (m[i].0, resolved_entry(m[i].1, bag)))
}

/// A script with its properties resolved.
pub open spec fn resolved_script(s: Option<Script>, bag: Bag) -> Option<Script> {
    match s {
        Some(b) => Some(Script { properties: resolved_props(b.properties, bag), ..b }),
        None => None,
    }
}

/// The value of a setting once resolved.
pub open spec fn resolved_value<T: Resolvable>(
    value: T::V,
    user: Option<Reference>,
    bag: Bag,
) -> T::V {
    match user {
        Some(Reference::Name(name)) => if bag.contains_key(name) {
            T::taken(bag[name])
        } else {
            value
        },
        Some(Reference::Conditional { name, condition }) => T::judged(
            bag.contains_key(name) && bag[name].shown() == condition,
        ),
        None => value,
    }
}

/// A setting once resolved: it keeps what drives it.
pub open spec fn resolved<T: Resolvable>(s: Setting<T::V>, bag: Bag) -> Setting<T::V> {
    Setting {
        value: resolved_value::<T>(s.value, s.user, bag),
        user: s.user,
        script: resolved_script(s.script, bag),
    }
}

fn property_json(p: &PropertyValue) -> (r: Json)
    ensures
        r@ == property_tree(p@),
{
    match p {
        PropertyValue::Bool(b) => Json::Bool(*b),
        PropertyValue::Number { bits, single: _, shown: _ } => if (*bits / 0x10_0000_0000_0000)
            % 2048 == 2047 {
            Json::Null
        } else {
            Json::Real(*bits)
        },
        other => Json::Text(other.as_condition_string()),
    }
}

fn resolve_entry(v: &Json, bag: &PropertyBag) -> (r: Json)
    ensures
        r@ == resolved_entry(v@, bag@),
{
    let o = match v.as_table() {
        Some(o) => o,
        None => {
            return v.copy();
        },
    };
    let fallback = match o.get("value") {
        Some(f) => f,
        None => {
            return v.copy();
        },
    };
    match o.get("user") {
        Some(u) => match u.as_text() {
            Some(name) => match bag.get(name.as_str()) {
                Some(p) => property_json(p),
                None => fallback.copy(),
            },
            None => match u.as_table() {
                Some(t) => match (t.text("name"), t.text("condition")) {
                    (Some(name), Some(condition)) => match bag.get(name.as_str()) {
                        Some(p) => {
                            let shown = p.as_condition_string();
                            Json::Bool(same_text(shown.as_str(), condition.as_str()))
                        },
                        None => fallback.copy(),
                    },
                    _ => fallback.copy(),
                },
                None => fallback.copy(),
            },
        },
        None => fallback.copy(),
    }
}

/// Resolves the properties of a script.
pub fn resolve_script_properties(props: &mut JsonMap, bag: &PropertyBag)
    ensures
        final(props)@ == resolved_props(old(props)@, bag@),
{
    let mut entries: Vec<(String, Json)> = Vec::new();
    let mut i: usize = 0;
    while i < props.entries.len()
        invariant
            i <= props.entries@.len(),
            props@ == old(props)@,
            entries@.len() == i,
            forall|j: int|
                0 <= j < i ==> (#[trigger] entries@[j]).0@ == props@[j].0 && entries@[j].1@
                    == resolved_entry(props@[j].1, bag@),
        decreases props.entries@.len() - i,
    {
        let v = resolve_entry(&props.entries[i].1, bag);
        entries.push((props.entries[i].0.clone(), v));
        i += 1;
    }
    *props = JsonMap { entries };
    assert(props@ =~= resolved_props(old(props)@, bag@));
}

/// Resolves a setting.
pub fn resolve_us<T: Resolvable>(us: &mut UserSetting<T>, bag: &PropertyBag)
    ensures
        final(us)@ == resolved::<T>(old(us)@, bag@),
{
    if let Some(sb) = &mut us.script {
        resolve_script_properties(&mut sb.properties, bag);
    }
    match &us.user {
        Some(UserRef::Name(name)) => {
            if let Some(v) = bag.get(name.as_str()) {
                us.value = T::from_property(v);
            }
        },
        Some(UserRef::Conditional { name, condition }) => {
            let matched = match bag.get(name.as_str()) {
                Some(v) => {
                    let shown = v.as_condition_string();
                    same_text(shown.as_str(), condition.as_str())
                },
                None => false,
            };
            us.value = T::from_bool(matched);
        },
        None => {},
    }
}

/// Constants, each resolved.
pub open spec fn resolved_constants(c: Constants, bag: Bag) -> Constants {
    c.map_values(|s: Setting<Dynamic>| resolved::<DynamicValue>(s, bag))
}

/// Resolves the constants of a pass.
pub fn resolve_constants(constants: &mut ConstantValues, bag: &PropertyBag)
    ensures
        final(constants)@ == resolved_constants(old(constants)@, bag@),
{
    let n: usize = constants.len();
    let ghost items = constants.items();
    let mut out: ConstantValues = TextMap::new();
    let mut i: usize = 0;
    assert(items.take(0) =~= Seq::empty());
    assert(out@ =~= resolved_constants(as_map(items.take(0)), bag@));
    while i < n
        invariant
            i <= n,
            n == items.len(),
            items == constants.items(),
            *constants == *old(constants),
            crate::table::distinct_keys(items),
            out@ == resolved_constants(as_map(items.take(i as int)), bag@),
        decreases n - i,
    {
        let mut us = constants.at(i).duplicate();
        resolve_us(&mut us, bag);
        let key = constants.key(i).clone();
        out.insert(key, us);
        proof {
            lemma_as_map_grows(items, i as int);
            assert(out@ =~= resolved_constants(as_map(items.take(i + 1)), bag@));
        }
        i += 1;
    }
    assert(items.take(n as int) =~= items);
    *constants = out;
}

/// A pass with its constants resolved.
pub open spec fn resolved_pass(p: PassModel, bag: Bag) -> PassModel {
    PassModel { constants: resolved_constants(p.constants, bag), ..p }
}

/// A material with its passes resolved.
pub open spec fn resolved_material(m: Seq<PassModel>, bag: Bag) -> Seq<PassModel> {
    m.map_values(|p: PassModel| resolved_pass(p, bag))
}

fn resolve_material(material: &mut Material, bag: &PropertyBag)
    ensures
        final(material)@ == resolved_material(old(material)@, bag@),
{
    let n: usize = material.passes.len();
    let ghost start = views(material.passes@);
    let mut i: usize = 0;
    while i < n
        invariant
            i <= n,
            n == material.passes@.len(),
            start.len() == n,
            forall|j: int| 0 <= j < i ==> (#[trigger] material.passes@[j])@ == resolved_pass(start[j], bag@),
            forall|j: int| i <= j < n ==> (#[trigger] material.passes@[j])@ == start[j],
        decreases n - i,
    {
        resolve_constants(&mut material.passes[i].constantshadervalues, bag);
        i += 1;
    }
    assert(material@ =~= resolved_material(start, bag@));
}

/// A camera with its field of view resolved.
pub open spec fn resolved_camera(c: CameraModel, bag: Bag) -> CameraModel {
    CameraModel { fov: resolved::<Scalar>(c.fov, bag), ..c }
}

impl Camera {
    pub fn reresolve(&mut self, bag: &PropertyBag)
        ensures
            final(self)@ == resolved_camera(old(self)@, bag@),
    {
        resolve_us(&mut self.fov, bag);
    }
}

/// The general section, resolved.
pub open spec fn resolved_general(g: GeneralModel, bag: Bag) -> GeneralModel {
    GeneralModel {
        ambientcolor: resolved::<Color>(g.ambientcolor, bag),
        skylightcolor: resolved::<Color>(g.skylightcolor, bag),
        clearcolor: resolved::<Color>(g.clearcolor, bag),
        camerafade: resolved::<bool>(g.camerafade, bag),
        bloom: resolved::<bool>(g.bloom, bag),
        bloomstrength: resolved::<Scalar>(g.bloomstrength, bag),
        bloomthreshold: resolved::<Scalar>(g.bloomthreshold, bag),
        cameraparallax: resolved::<bool>(g.cameraparallax, bag),
        cameraparallaxamount: resolved::<Scalar>(g.cameraparallaxamount, bag),
        cameraparallaxdelay: resolved::<Scalar>(g.cameraparallaxdelay, bag),
        cameraparallaxmouseinfluence: resolved::<Scalar>(g.cameraparallaxmouseinfluence, bag),
        camerashake: resolved::<bool>(g.camerashake, bag),
        camerashakeamplitude: resolved::<Scalar>(g.camerashakeamplitude, bag),
        camerashakeroughness: resolved::<Scalar>(g.camerashakeroughness, bag),
        camerashakespeed: resolved::<Scalar>(g.camerashakespeed, bag),
        ..g
    }
}

impl General {
    pub fn resolve(&mut self, bag: &PropertyBag)
        ensures
            final(self)@ == resolved_general(old(self)@, bag@),
    {
        resolve_us(&mut self.ambientcolor, bag);
        resolve_us(&mut self.skylightcolor, bag);
        resolve_us(&mut self.clearcolor, bag);
        resolve_us(&mut self.camerafade, bag);
        resolve_us(&mut self.bloom, bag);
        resolve_us(&mut self.bloomstrength, bag);
        resolve_us(&mut self.bloomthreshold, bag);
        resolve_us(&mut self.cameraparallax, bag);
        resolve_us(&mut self.cameraparallaxamount, bag);
        resolve_us(&mut self.cameraparallaxdelay, bag);
        resolve_us(&mut self.cameraparallaxmouseinfluence, bag);
        resolve_us(&mut self.camerashake, bag);
        resolve_us(&mut self.camerashakeamplitude, bag);
        resolve_us(&mut self.camerashakeroughness, bag);
        resolve_us(&mut self.camerashakespeed, bag);
    }
}

/// A text object, resolved.
pub open spec fn resolved_text(t: TextModel, bag: Bag) -> TextModel {
    TextModel {
        text: resolved::<String>(t.text, bag),
        pointsize: resolved::<Scalar>(t.pointsize, bag),
        scale: resolved::<Vec3>(t.scale, bag),
        color: resolved::<Color>(t.color, bag),
        alpha: resolved::<Scalar>(t.alpha, bag),
        visible: resolved::<bool>(t.visible, bag),
        ..t
    }
}

impl TextObject {
    fn resolve(&mut self, bag: &PropertyBag)
        ensures
            final(self)@ == resolved_text(old(self)@, bag@),
    {
        resolve_us(&mut self.text, bag);
        resolve_us(&mut self.pointsize, bag);
        resolve_us(&mut self.scale, bag);
        resolve_us(&mut self.color, bag);
        resolve_us(&mut self.alpha, bag);
        resolve_us(&mut self.visible, bag);
    }
}

/// An animation layer, resolved.
pub open spec fn resolved_layer(l: AnimationLayerModel, bag: Bag) -> AnimationLayerModel {
    AnimationLayerModel {
        rate: resolved::<Scalar>(l.rate, bag),
        visible: resolved::<bool>(l.visible, bag),
        blend: resolved::<Scalar>(l.blend, bag),
        animation: resolved::<i64>(l.animation, bag),
        ..l
    }
}

impl AnimationLayer {
    fn resolve(&mut self, bag: &PropertyBag)
        ensures
            final(self)@ == resolved_layer(old(self)@, bag@),
    {
        resolve_us(&mut self.rate, bag);
        resolve_us(&mut self.visible, bag);
        resolve_us(&mut self.blend, bag);
        resolve_us(&mut self.animation, bag);
    }
}

/// The overrides of an effect, resolved.
pub open spec fn resolved_override(o: OverrideModel, bag: Bag) -> OverrideModel {
    OverrideModel { constants: resolved_constants(o.constants, bag), ..o }
}

/// A pass of an effect with its material resolved.
pub open spec fn resolved_effect_pass(p: EffectPassModel, bag: Bag) -> EffectPassModel {
    EffectPassModel {
        resolved: match p.resolved {
            Some(m) => Some(resolved_material(m, bag)),
            None => None,
        },
        ..p
    }
}

/// An effect's file with its passes resolved.
pub open spec fn resolved_file(f: EffectFileModel, bag: Bag) -> EffectFileModel {
    EffectFileModel {
        passes: f.passes.map_values(|p: EffectPassModel| resolved_effect_pass(p, bag)),
        ..f
    }
}

/// An effect, resolved.
pub open spec fn resolved_effect(e: EffectModel, bag: Bag) -> EffectModel {
    EffectModel {
        visible: resolved::<bool>(e.visible, bag),
        passes: e.passes.map_values(|o: OverrideModel| resolved_override(o, bag)),
        resolved: match e.resolved {
            Some(f) => Some(resolved_file(f, bag)),
            None => None,
        },
        ..e
    }
}

fn resolve_overrides(passes: &mut Vec<PassOverride>, bag: &PropertyBag)
    ensures
        views(final(passes)@) == views(old(passes)@).map_values(
            |o: OverrideModel| resolved_override(o, bag@),
        ),
{
    let n: usize = passes.len();
    let ghost start = views(passes@);
    let mut i: usize = 0;
    while i < n
        invariant
            i <= n,
            n == passes@.len(),
            start.len() == n,
            forall|j: int| 0 <= j < i ==> (#[trigger] passes@[j])@ == resolved_override(start[j], bag@),
            forall|j: int| i <= j < n ==> (#[trigger] passes@[j])@ == start[j],
        decreases n - i,
    {
        resolve_constants(&mut passes[i].constantshadervalues, bag);
        i += 1;
    }
    assert(views(passes@) =~= start.map_values(|o: OverrideModel| resolved_override(o, bag@)));
}

fn resolve_effect_pass(pass: &mut EffectPass, bag: &PropertyBag)
    ensures
        final(pass)@ == resolved_effect_pass(old(pass)@, bag@),
{
    if let Some(material) = &mut pass.resolved {
        resolve_material(material, bag);
    }
}

fn resolve_file(file: &mut EffectFile, bag: &PropertyBag)
    ensures
        final(file)@ == resolved_file(old(file)@, bag@),
{
    let n: usize = file.passes.len();
    let ghost start = views(file.passes@);
    let ghost before = file@;
    let mut i: usize = 0;
    while i < n
        invariant
            i <= n,
            n == file.passes@.len(),
            start.len() == n,
            file@ == (EffectFileModel { passes: views(file.passes@), ..before }),
            forall|j: int| 0 <= j < i ==> (#[trigger] file.passes@[j])@ == resolved_effect_pass(start[j], bag@),
            forall|j: int| i <= j < n ==> (#[trigger] file.passes@[j])@ == start[j],
        decreases n - i,
    {
        resolve_effect_pass(&mut file.passes[i], bag);
        i += 1;
    }
    assert(views(file.passes@) =~= start.map_values(
        |p: EffectPassModel| resolved_effect_pass(p, bag@),
    ));
}

impl Effect {
    fn resolve(&mut self, bag: &PropertyBag)
        ensures
            final(self)@ == resolved_effect(old(self)@, bag@),
    {
        resolve_us(&mut self.visible, bag);
        resolve_overrides(&mut self.passes, bag);
        if let Some(file) = &mut self.resolved {
            resolve_file(file, bag);
        }
    }
}

/// An image, resolved.
pub open spec fn resolved_image(i: ImageModel, bag: Bag) -> ImageModel {
    ImageModel {
        scale: resolved::<Vec3>(i.scale, bag),
        angles: resolved::<Vec3>(i.angles, bag),
        visible: resolved::<bool>(i.visible, bag),
        alpha: resolved::<Scalar>(i.alpha, bag),
        color: resolved::<Color>(i.color, bag),
        parallax_depth: resolved::<Vec2>(i.parallax_depth, bag),
        color_blend_mode: resolved::<i64>(i.color_blend_mode, bag),
        brightness: resolved::<Scalar>(i.brightness, bag),
        material: match i.material {
            Some(m) => Some(resolved_material(m, bag)),
            None => None,
        },
        effects: i.effects.map_values(|e: EffectModel| resolved_effect(e, bag)),
        animationlayers: i.animationlayers.map_values(
            |l: AnimationLayerModel| resolved_layer(l, bag),
        ),
        ..i
    }
}

pub(crate) fn resolve_effects(effects: &mut Vec<Effect>, bag: &PropertyBag)
    ensures
        views(final(effects)@) == views(old(effects)@).map_values(
            |e: EffectModel| resolved_effect(e, bag@),
        ),
{
    let n: usize = effects.len();
    let ghost start = views(effects@);
    let mut i: usize = 0;
    while i < n
        invariant
            i <= n,
            n == effects@.len(),
            start.len() == n,
            forall|j: int| 0 <= j < i ==> (#[trigger] effects@[j])@ == resolved_effect(start[j], bag@),
            forall|j: int| i <= j < n ==> (#[trigger] effects@[j])@ == start[j],
        decreases n - i,
    {
        effects[i].resolve(bag);
        i += 1;
    }
    assert(views(effects@) =~= start.map_values(|e: EffectModel| resolved_effect(e, bag@)));
}

fn resolve_layers(layers: &mut Vec<AnimationLayer>, bag: &PropertyBag)
    ensures
        views(final(layers)@) == views(old(layers)@).map_values(
            |l: AnimationLayerModel| resolved_layer(l, bag@),
        ),
{
    let n: usize = layers.len();
    let ghost start = views(layers@);
    let mut i: usize = 0;
    while i < n
        invariant
            i <= n,
            n == layers@.len(),
            start.len() == n,
            forall|j: int| 0 <= j < i ==> (#[trigger] layers@[j])@ == resolved_layer(start[j], bag@),
            forall|j: int| i <= j < n ==> (#[trigger] layers@[j])@ == start[j],
        decreases n - i,
    {
        layers[i].resolve(bag);
        i += 1;
    }
    assert(views(layers@) =~= start.map_values(|l: AnimationLayerModel| resolved_layer(l, bag@)));
}

impl ImageObject {
    fn resolve(&mut self, bag: &PropertyBag)
        ensures
            final(self)@ == resolved_image(old(self)@, bag@),
    {
        resolve_us(&mut self.scale, bag);
        resolve_us(&mut self.angles, bag);
        resolve_us(&mut self.visible, bag);
        resolve_us(&mut self.alpha, bag);
        resolve_us(&mut self.color, bag);
        resolve_us(&mut self.parallax_depth, bag);
        resolve_us(&mut self.color_blend_mode, bag);
        resolve_us(&mut self.brightness, bag);
        if let Some(material) = &mut self.material {
            resolve_material(material, bag);
        }
        resolve_effects(&mut self.effects, bag);
        resolve_layers(&mut self.animationlayers, bag);
    }
}

/// The overrides of a particle system, resolved.
pub open spec fn resolved_instance(o: InstanceOverrideModel, bag: Bag) -> InstanceOverrideModel {
    InstanceOverrideModel {
        enabled: resolved::<bool>(o.enabled, bag),
        alpha: resolved::<Scalar>(o.alpha, bag),
        size: resolved::<Scalar>(o.size, bag),
        lifetime: resolved::<Scalar>(o.lifetime, bag),
        rate: resolved::<Scalar>(o.rate, bag),
        speed: resolved::<Scalar>(o.speed, bag),
        count: resolved::<Scalar>(o.count, bag),
        color: resolved::<Vec3>(o.color, bag),
        colorn: resolved::<Vec3>(o.colorn, bag),
    }
}

impl InstanceOverride {
    fn resolve(&mut self, bag: &PropertyBag)
        ensures
            final(self)@ == resolved_instance(old(self)@, bag@),
    {
        resolve_us(&mut self.enabled, bag);
        resolve_us(&mut self.alpha, bag);
        resolve_us(&mut self.size, bag);
        resolve_us(&mut self.lifetime, bag);
        resolve_us(&mut self.rate, bag);
        resolve_us(&mut self.speed, bag);
        resolve_us(&mut self.count, bag);
        resolve_us(&mut self.color, bag);
        resolve_us(&mut self.colorn, bag);
    }
}

/// A stage with its parameters resolved.
pub open spec fn resolved_stage(s: StageModel, bag: Bag) -> StageModel {
    StageModel { params: resolved_constants(s.params, bag), ..s }
}

fn resolve_stages(stages: &mut Vec<NamedStage>, bag: &PropertyBag)
    ensures
        views(final(stages)@) == views(old(stages)@).map_values(
            |s: StageModel| resolved_stage(s, bag@),
        ),
{
    let n: usize = stages.len();
    let ghost start = views(stages@);
    let mut i: usize = 0;
    while i < n
        invariant
            i <= n,
            n == stages@.len(),
            start.len() == n,
            forall|j: int| 0 <= j < i ==> (#[trigger] stages@[j])@ == resolved_stage(start[j], bag@),
            forall|j: int| i <= j < n ==> (#[trigger] stages@[j])@ == start[j],
        decreases n - i,
    {
        resolve_constants(&mut stages[i].params, bag);
        i += 1;
    }
    assert(views(stages@) =~= start.map_values(|s: StageModel| resolved_stage(s, bag@)));
}

/// A particle system, resolved.
pub open spec fn resolved_system(s: ParticleSystemModel, bag: Bag) -> ParticleSystemModel {
    ParticleSystemModel {
        initializers: s.initializers.map_values(|x: StageModel| resolved_stage(x, bag)),
        operators: s.operators.map_values(|x: StageModel| resolved_stage(x, bag)),
        resolved_material: match s.resolved_material {
            Some(m) => Some(resolved_material(m, bag)),
            None => None,
        },
        ..s
    }
}

/// A particle object, resolved.
pub open spec fn resolved_particle(p: ParticleModel, bag: Bag) -> ParticleModel {
    ParticleModel {
        scale: resolved::<Vec3>(p.scale, bag),
        angles: resolved::<Vec3>(p.angles, bag),
        visible: resolved::<bool>(p.visible, bag),
        parallax_depth: resolved::<Vec2>(p.parallax_depth, bag),
        system: resolved_system(p.system, bag),
        instanceoverride: resolved_instance(p.instanceoverride, bag),
        ..p
    }
}

impl ParticleObject {
    fn resolve(&mut self, bag: &PropertyBag)
        ensures
            final(self)@ == resolved_particle(old(self)@, bag@),
    {
        resolve_us(&mut self.scale, bag);
        resolve_us(&mut self.angles, bag);
        resolve_us(&mut self.visible, bag);
        resolve_us(&mut self.parallax_depth, bag);
        self.instanceoverride.resolve(bag);
        resolve_stages(&mut self.system.initializers, bag);
        resolve_stages(&mut self.system.operators, bag);
        if let Some(material) = &mut self.system.resolved_material {
            resolve_material(material, bag);
        }
    }
}

/// What every object has, resolved.
pub open spec fn resolved_base(b: BaseModel, bag: Bag) -> BaseModel {
    BaseModel {
        origin: resolved::<Vec3>(b.origin, bag),
        scale: resolved::<Vec3>(b.scale, bag),
        angles: resolved::<Vec3>(b.angles, bag),
        visible: resolved::<bool>(b.visible, bag),
        ..b
    }
}

/// The kind of an object, resolved.
pub open spec fn resolved_kind(k: KindModel, bag: Bag) -> KindModel {
    match k {
        KindModel::Image(i) => KindModel::Image(resolved_image(i, bag)),
        KindModel::Particle(p) => KindModel::Particle(resolved_particle(p, bag)),
        KindModel::Text(t) => KindModel::Text(resolved_text(t, bag)),
        other => other,
    }
}

/// An object, resolved.
pub open spec fn resolved_object(o: ObjectModel, bag: Bag) -> ObjectModel {
    ObjectModel { base: resolved_base(o.base, bag), kind: resolved_kind(o.kind, bag), ..o }
}

impl BaseObject {
    fn resolve(&mut self, bag: &PropertyBag)
        ensures
            final(self)@ == resolved_base(old(self)@, bag@),
    {
        resolve_us(&mut self.origin, bag);
        resolve_us(&mut self.scale, bag);
        resolve_us(&mut self.angles, bag);
        resolve_us(&mut self.visible, bag);
    }
}

impl Object {
    fn resolve(&mut self, bag: &PropertyBag)
        ensures
            final(self)@ == resolved_object(old(self)@, bag@),
    {
        self.base.resolve(bag);
        match &mut self.kind {
            ObjectKind::Image(img) => img.resolve(bag),
            ObjectKind::Particle(p) => p.resolve(bag),
            ObjectKind::Text(t) => t.resolve(bag),
            _ => {},
        }
    }
}

/// A scene, resolved.
pub open spec fn resolved_scene(s: SceneModelView, bag: Bag) -> SceneModelView {
    SceneModelView {
        camera: resolved_camera(s.camera, bag),
        general: resolved_general(s.general, bag),
        objects: s.objects.map_values(|o: ObjectModel| resolved_object(o, bag)),
    }
}

pub(crate) fn resolve_objects(objects: &mut Vec<Object>, bag: &PropertyBag)
    ensures
        views(final(objects)@) == views(old(objects)@).map_values(
            |o: ObjectModel| resolved_object(o, bag@),
        ),
{
    let n: usize = objects.len();
    let ghost start = views(objects@);
    let mut i: usize = 0;
    while i < n
        invariant
            i <= n,
            n == objects@.len(),
            start.len() == n,
            forall|j: int| 0 <= j < i ==> (#[trigger] objects@[j])@ == resolved_object(start[j], bag@),
            forall|j: int| i <= j < n ==> (#[trigger] objects@[j])@ == start[j],
        decreases n - i,
    {
        objects[i].resolve(bag);
        i += 1;
    }
    assert(views(objects@) =~= start.map_values(|o: ObjectModel| resolved_object(o, bag@)));
}

/// A scene whose settings have their values.
#[derive(Debug)]
pub struct SceneModel {
    pub scene: Scene,
}

impl SceneModel {
    /// Resolves a scene.
    pub fn resolve(scene: Scene, bag: &PropertyBag) -> (r: Self)
        ensures
            r.scene@ == resolved_scene(scene@, bag@),
    {
        let mut model = SceneModel { scene };
        model.reresolve(bag);
        model
    }

    /// Resolves a scene again, with changed properties.
    pub fn reresolve(&mut self, bag: &PropertyBag)
        ensures
            final(self).scene@ == resolved_scene(old(self).scene@, bag@),
    {
        self.scene.general.resolve(bag);
        self.scene.camera.reresolve(bag);
        resolve_objects(&mut self.scene.objects, bag);
    }
}

/// A setting that follows no property and has no script is left as it is.
pub proof fn law_unbound_settings_stay<T: Resolvable>(s: Setting<T::V>, bag: Bag)
    requires
        !s.bound(),
    ensures
        resolved::<T>(s, bag) == s,
{
}

/// Resolving a setting with one set of properties and then with another gives
/// the value that the second alone would give, so a changed property takes
/// effect as if the scene had been read with it. A setting that follows a
/// property which the second set does not have keeps what the first gave it.
pub proof fn law_the_last_properties_decide<T: Resolvable>(s: Setting<T::V>, a: Bag, b: Bag)
    requires
        s.user matches Some(Reference::Name(name)) ==> b.contains_key(name),
    ensures
        resolved::<T>(resolved::<T>(s, a), b).value == resolved::<T>(s, b).value,
{
}

/// Whether no property of a script falls back to an entry with a value of its own.
pub open spec fn plain_fallbacks(m: Members) -> bool {
    forall|i: int|
        0 <= i < m.len() ==> (#[trigger] m[i].1 matches Tree::Table(o) ==> (lookup(o, "value"@)
            matches Some(f) ==> (f matches Tree::Table(p) ==> lookup(p, "value"@) is None)))
}

/// Resolving a setting twice with the same properties is resolving it once. A
/// script's property that falls back to another such entry is left out: each
/// resolving takes one of them away.
pub proof fn law_resolving_twice_is_resolving_once<T: Resolvable>(s: Setting<T::V>, bag: Bag)
    requires
        s.script matches Some(b) ==> plain_fallbacks(b.properties),
    ensures
        resolved::<T>(resolved::<T>(s, bag), bag) == resolved::<T>(s, bag),
{
    if let Some(b) = s.script {
        let m = b.properties;
        let once = resolved_props(m, bag);
        let twice = resolved_props(once, bag);
        assert forall|i: int| 0 <= i < m.len() implies twice[i] == #[trigger] once[i] by {
            assert(m[i].1 == m[i].1);
        }
        assert(twice =~= once);
    }
}

} // verus!
