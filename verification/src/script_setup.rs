//! Which scripts a scene has, and what they start with.
use vstd::prelude::*;

use crate::copy::{copy_vec, Duplicate};
use crate::json::{lookup, tables, Json, JsonMap, Members, Tree};
use crate::material::{EffectPass, EffectPassModel};
use crate::object::{
    effects_upto, read_effects, BaseModel, BaseObject, Effect, EffectModel, ImageModel,
    ImageObject, KindModel, Object, ObjectKind, ObjectModel, OverrideModel, ParticleObject,
    PassOverride, TextModel, TextObject,
};
use crate::order::{draw_order, draw_positions, ints};
use crate::property::{Bag, Property, PropertyBag, PropertyValue};
use crate::resolve::{resolve_effects, resolve_us, resolved, resolved_effect};
use crate::scene::{Scene, SceneModelView};
use crate::script::{prop_to_script, property_for_script, ScriptValue, Scripted};
use crate::scripting::{
    blank_layer, in_degrees, target_of, to_degrees, CameraState, CameraStateModel, EffectConstant,
    EffectInfo, HostModel, LayerModel, LayerState, PropModel, PropTarget, SceneState, ScriptHost,
    ScriptedProp, StateModel,
};
use crate::strings::{
    chars_of, decimal, decimal_of, decimal_of_index, digit_char, find_char, find_run, first_at,
    index_of, is_digit, join2, lemma_views_push, opt_view, text_of, views,
};
use crate::table::{lists_names, names_of, TextMap};
use crate::user::{
    setting_of, user_f32, Constants, Script, ScriptBinding, Setting, UserSetting,
};
use crate::value::{Color, Dynamic, DynamicValue, Number, Scalar, Vec3, ONE_BITS};

verus! {

/// The first quotation mark at or after `from`.
pub open spec fn first_quote(s: Seq<char>, from: int) -> Option<int>
    decreases s.len() - from,
{
    if from < 0 || from >= s.len() {
        None
    } else if s[from] == '\'' || s[from] == '"' {
        Some(from)
    } else {
        first_quote(s, from + 1)
    }
}

/// The first quoted text at or after `from`: what stands between the first
/// quotation mark and the next of the same kind.
pub open spec fn quoted_after(s: Seq<char>, from: int) -> Option<Seq<char>> {
    match first_quote(s, from) {
        Some(i) => match index_of(s, s[i], i + 1) {
            Some(j) => Some(s.subrange(i + 1, j)),
            None => None,
        },
        None => None,
    }
}

/// Whether a text is all decimal digits.
pub open spec fn all_digits(s: Seq<char>) -> bool {
    forall|i: int| 0 <= i < s.len() ==> digit_char(#[trigger] s[i])
}

/// The workshop item that a script names as its own.
pub open spec fn workshop_id(source: Seq<char>) -> Option<Seq<char>> {
    match first_at(source, "__workshopId"@, 0) {
        Some(i) => match quoted_after(source, i) {
            Some(id) => if id.len() > 0 && all_digits(id) {
                Some(id)
            } else {
                None
            },
            None => None,
        },
        None => None,
    }
}

pub(crate) fn find_quoted(s: &[char], from: usize) -> (r: Option<String>)
    ensures
        match r {
            Some(q) => quoted_after(s@, from as int) == Some(q@),
            None => quoted_after(s@, from as int) is None,
        },
{
    let mut i: usize = from;
    let n: usize = s.len();
    while i < n
        invariant
            from <= i,
            first_quote(s@, from as int) == first_quote(s@, i as int),
            n == s@.len(),
        decreases s@.len() - i,
    {
        if s[i] == '\'' || s[i] == '"' {
            let quote = s[i];
            match find_char(s, quote, i + 1) {
                Some(j) => {
                    return Some(text_of(s, i + 1, j));
                },
                None => {
                    return None;
                },
            }
        }
        i += 1;
    }
    None
}

pub(crate) fn is_all_digits(s: &str) -> (r: bool)
    ensures
        r == all_digits(s@),
{
    let chars = chars_of(s);
    let mut i: usize = 0;
    while i < chars.len()
        invariant
            i <= chars@.len(),
            chars@ == s@,
            forall|j: int| 0 <= j < i ==> digit_char(#[trigger] s@[j]),
        decreases chars@.len() - i,
    {
        if !is_digit(chars[i]) {
            assert(!digit_char(s@[i as int]));
            return false;
        }
        i += 1;
    }
    true
}

/// The workshop item that a script names as its own.
pub fn extract_workshop_id(source: &str) -> (r: Option<String>)
    ensures
        match r {
            Some(id) => workshop_id(source@) == Some(id@),
            None => workshop_id(source@) is None,
        },
{
    let chars = chars_of(source);
    let mark = chars_of("__workshopId");
    match find_run(chars.as_slice(), mark.as_slice(), 0) {
        None => None,
        Some(i) => match find_quoted(chars.as_slice(), i) {
            None => None,
            Some(id) => if !id.as_str().is_empty() && is_all_digits(id.as_str()) {
                Some(id)
            } else {
                None
            },
        },
    }
}

/// The value that a script starts with.
#[derive(Debug)]
pub enum Initial {
    Null,
    Bool(bool),
    Int(i64),
    Float(Scalar),
    Str(String),
    Vec(Vec<Scalar>),
}

/// What an [`Initial`] holds.
pub enum InitialModel {
    Null,
    Bool(bool),
    Int(i64),
    Float(Number),
    Str(Seq<char>),
    Vec(Seq<Number>),
}

impl View for Initial {
    type V = InitialModel;

    open spec fn view(&self) -> InitialModel {
        match self {
            Initial::Null => InitialModel::Null,
            Initial::Bool(b) => InitialModel::Bool(*b),
            Initial::Int(i) => InitialModel::Int(*i),
            Initial::Float(f) => InitialModel::Float(f@),
            Initial::Str(s) => InitialModel::Str(s@),
            Initial::Vec(v) => InitialModel::Vec(views(v@)),
        }
    }
}

/// A constant's value as a script starts with it; only vectors of two to four
/// components are handed over.
pub open spec fn dynamic_initial(v: Dynamic) -> InitialModel {
    match v {
        Dynamic::Bool(b) => InitialModel::Bool(b),
        Dynamic::Int(i) => InitialModel::Int(i),
        Dynamic::Float(f) => InitialModel::Float(f),
        Dynamic::Str(s) => InitialModel::Str(s),
        Dynamic::Vec(c) => if 2 <= c.len() <= 4 {
            InitialModel::Vec(c)
        } else {
            InitialModel::Null
        },
        Dynamic::Color(c) => InitialModel::Vec(seq![c.0, c.1, c.2, c.3]),
        Dynamic::Null => InitialModel::Null,
    }
}

fn vec3_list(v: &Vec3) -> (r: Vec<Scalar>)
    ensures
        views(r@) == seq![v@.0, v@.1, v@.2],
{
    let mut out: Vec<Scalar> = Vec::new();
    out.push(v.x.duplicate());
    out.push(v.y.duplicate());
    out.push(v.z.duplicate());
    assert(views(out@) =~= seq![v@.0, v@.1, v@.2]);
    out
}

fn dynamic_to_script(v: &DynamicValue) -> (r: Initial)
    ensures
        r@ == dynamic_initial(v@),
{
    match v {
        DynamicValue::Bool(b) => Initial::Bool(*b),
        DynamicValue::Int(i) => Initial::Int(*i),
        DynamicValue::Float(f) => Initial::Float(f.duplicate()),
        DynamicValue::Str(s) => Initial::Str(s.clone()),
        DynamicValue::Vec(c) => if 2 <= c.len() && c.len() <= 4 {
            Initial::Vec(copy_vec(c))
        } else {
            Initial::Null
        },
        DynamicValue::Color(c) => {
            let mut out: Vec<Scalar> = Vec::new();
            out.push(c.r.duplicate());
            out.push(c.g.duplicate());
            out.push(c.b.duplicate());
            out.push(c.a.duplicate());
            assert(views(out@) =~= seq![c@.0, c@.1, c@.2, c@.3]);
            Initial::Vec(out)
        },
        DynamicValue::Null => Initial::Null,
    }
}

/// The value of a script's property: what its entry holds under `value`, or
/// the entry itself.
pub open spec fn flat_value(v: Tree) -> Tree {
    match v {
        Tree::Table(m) => match lookup(m, "value"@) {
            Some(x) => x,
            None => v,
        },
        _ => v,
    }
}

/// The properties of a script as the script is given them.
pub open spec fn flat_props(m: Members) -> Members {
    Seq::new(m.len(), |i: int| (m[i].0, flat_value(m[i].1)))
}

fn flatten_props(props: &JsonMap) -> (r: JsonMap)
    ensures
        r@ == flat_props(props@),
{
    let mut entries: Vec<(String, Json)> = Vec::new();
    let mut i: usize = 0;
    while i < props.entries.len()
        invariant
            i <= props.entries@.len(),
            entries@.len() == i,
            forall|j: int|
                0 <= j < i ==> entries@[j].0@ == props@[j].0 && (#[trigger] entries@[j]).1@
                    == flat_value(props@[j].1),
        decreases props.entries@.len() - i,
    {
        let v = &props.entries[i].1;
        let value = match v.as_table() {
            Some(m) => match m.get("value") {
                Some(x) => x.copy(),
                None => v.copy(),
            },
            None => v.copy(),
        };
        entries.push((props.entries[i].0.clone(), value));
        i += 1;
    }
    let r = JsonMap { entries };
    assert(r@ =~= flat_props(props@));
    r
}

/// A script that waits to be loaded.
#[derive(Debug)]
pub struct Pending {
    pub prop: ScriptedProp,
    pub source: String,
    pub initial: Initial,
    pub script_props: JsonMap,
}

/// What a [`Pending`] holds.
pub struct PendingModel {
    pub prop: PropModel,
    pub source: Seq<char>,
    pub initial: InitialModel,
    pub script_props: Members,
}

impl View for Pending {
    type V = PendingModel;

    open spec fn view(&self) -> PendingModel {
        PendingModel {
            prop: self.prop@,
            source: self.source@,
            initial: self.initial@,
            script_props: self.script_props@,
        }
    }
}

/// The script of a layer's property, if it has one.
pub open spec fn property_script(
    id: i64,
    field: Seq<char>,
    script: Option<Script>,
    initial: InitialModel,
) -> Seq<PendingModel> {
    match (target_of(field), script) {
        (Some(target), Some(b)) => seq![
            PendingModel {
                prop: PropModel {
                    key: field + "_"@ + decimal(id as int),
                    object_id: id,
                    target,
                    effect_constant: None,
                },
                source: b.source,
                initial,
                script_props: flat_props(b.properties),
            },
        ],
        _ => Seq::empty(),
    }
}

fn collect(
    out: &mut Vec<Pending>,
    id: i64,
    field: &str,
    binding: &Option<ScriptBinding>,
    initial: Initial,
)
    ensures
        views(final(out)@) == views(old(out)@) + property_script(
            id,
            field@,
            opt_view(*binding),
            initial@,
        ),
{
    broadcast use lemma_views_push;

    match (PropTarget::from_field(field), binding) {
        (Some(target), Some(b)) => {
            let id_text = decimal_of(id);
            let prefix = join2(field, "_");
            let key = join2(prefix.as_str(), id_text.as_str());
            let p = Pending {
                prop: ScriptedProp { key, object_id: id, target, effect_constant: None },
                source: b.source.clone(),
                initial,
                script_props: flatten_props(&b.properties),
            };
            assert(views(out@.push(p)) =~= views(out@) + property_script(
                id,
                field@,
                opt_view(*binding),
                p.initial@,
            ));
            out.push(p);
        },
        _ => {
            assert(views(out@) =~= views(out@) + Seq::<PendingModel>::empty());
        },
    }
}

/// The scripts of the constants of one pass of an effect that the first `k`
/// of the names stand for.
pub open spec fn constant_scripts(
    id: i64,
    effect: usize,
    constants: Constants,
    names: Seq<Seq<char>>,
    k: int,
) -> Seq<PendingModel>
    decreases k,
{
    if k <= 0 {
        Seq::empty()
    } else {
        let before = constant_scripts(id, effect, constants, names, k - 1);
        let name = names[k - 1];
        let us = constants[name];
        match us.script {
            Some(b) => before.push(
                PendingModel {
                    prop: PropModel {
                        key: "fx"@ + decimal(effect as int) + name + "_"@ + decimal(id as int),
                        object_id: id,
                        target: PropTarget::Color,
                        effect_constant: Some((effect, name)),
                    },
                    source: b.source,
                    initial: dynamic_initial(us.value),
                    script_props: flat_props(b.properties),
                },
            ),
            None => before,
        }
    }
}

/// The scripts of the first `k` passes of an effect, those of each pass in the
/// order of the names of its constants.
pub open spec fn pass_scripts(
    id: i64,
    effect: usize,
    passes: Seq<OverrideModel>,
    k: int,
) -> Seq<PendingModel>
    decreases k,
{
    if k <= 0 {
        Seq::empty()
    } else {
        let constants = passes[k - 1].constants;
        let names = names_of(constants);
        pass_scripts(id, effect, passes, k - 1) + constant_scripts(
            id,
            effect,
            constants,
            names,
            names.len() as int,
        )
    }
}

/// The scripts of the first `k` effects.
pub open spec fn effect_scripts(id: i64, effects: Seq<EffectModel>, k: int) -> Seq<PendingModel>
    decreases k,
{
    if k <= 0 {
        Seq::empty()
    } else {
        effect_scripts(id, effects, k - 1) + pass_scripts(
            id,
            (k - 1) as usize,
            effects[k - 1].passes,
            effects[k - 1].passes.len() as int,
        )
    }
}

fn collect_constants(out: &mut Vec<Pending>, id: i64, effect: usize, pass: &PassOverride)
    ensures
        views(final(out)@) == views(old(out)@) + constant_scripts(
            id,
            effect,
            pass@.constants,
            names_of(pass@.constants),
            names_of(pass@.constants).len() as int,
        ),
{
    let constants = &pass.constantshadervalues;
    let names = constants.names();
    let ghost listed = views(names@);
    let mut i: usize = 0;
    assert(views(out@) =~= views(old(out)@) + constant_scripts(id, effect, constants@, listed, 0));
    while i < names.len()
        invariant
            i <= names@.len(),
            listed == views(names@),
            lists_names(listed, constants@),
            views(out@) == views(old(out)@) + constant_scripts(
                id,
                effect,
                constants@,
                listed,
                i as int,
            ),
        decreases names@.len() - i,
    {
        let name = &names[i];
        assert(listed[i as int] == name@);
        assert(listed.contains(name@));
        if let Some(us) = constants.get(name.as_str()) {
            if let Some(b) = &us.script {
                let index_text = decimal_of_index(effect);
                let a = join2("fx", index_text.as_str());
                let c = join2(a.as_str(), name.as_str());
                let d = join2(c.as_str(), "_");
                let id_text = decimal_of(id);
                let key = join2(d.as_str(), id_text.as_str());
                let p = Pending {
                    prop: ScriptedProp {
                        key,
                        object_id: id,
                        target: PropTarget::Color,
                        effect_constant: Some(EffectConstant { effect, name: name.clone() }),
                    },
                    source: b.source.clone(),
                    initial: dynamic_to_script(&us.value),
                    script_props: flatten_props(&b.properties),
                };
                proof {
                    lemma_views_push(out@, p);
                    assert(views(out@).push(p@) =~= views(old(out)@) + constant_scripts(
                        id,
                        effect,
                        constants@,
                        listed,
                        i + 1,
                    ));
                }
                out.push(p);
            }
        }
        i += 1;
    }
}

fn collect_effect_constants(out: &mut Vec<Pending>, id: i64, effects: &Vec<Effect>)
    ensures
        views(final(out)@) == views(old(out)@) + effect_scripts(
            id,
            views(effects@),
            effects@.len() as int,
        ),
{
    let ghost all = views(effects@);
    let mut e: usize = 0;
    assert(views(out@) =~= views(old(out)@) + effect_scripts(id, all, 0));
    while e < effects.len()
        invariant
            e <= effects@.len(),
            all == views(effects@),
            views(out@) == views(old(out)@) + effect_scripts(id, all, e as int),
        decreases effects@.len() - e,
    {
        let ghost start = views(out@);
        let passes = &effects[e].passes;
        let ghost overrides = views(passes@);
        assert(all[e as int] == effects@[e as int]@);
        let mut k: usize = 0;
        assert(views(out@) =~= start + pass_scripts(id, e, overrides, 0));
        while k < passes.len()
            invariant
                k <= passes@.len(),
                overrides == views(passes@),
                views(out@) == start + pass_scripts(id, e, overrides, k as int),
            decreases passes@.len() - k,
        {
            assert(overrides[k as int] == passes@[k as int]@);
            collect_constants(out, id, e, &passes[k]);
            assert(views(out@) =~= start + pass_scripts(id, e, overrides, k + 1));
            k += 1;
        }
        assert(views(out@) =~= views(old(out)@) + effect_scripts(id, all, e + 1));
        e += 1;
    }
}

/// A vector as a script starts with it.
pub open spec fn vector_initial(v: (Number, Number, Number)) -> InitialModel {
    InitialModel::Vec(seq![v.0, v.1, v.2])
}

/// The scripts of an object's place.
pub open spec fn place_scripts(b: BaseModel) -> Seq<PendingModel> {
    property_script(b.id, "origin"@, b.origin.script, vector_initial(b.origin.value))
        + property_script(b.id, "scale"@, b.scale.script, vector_initial(b.scale.value))
        + property_script(
        b.id,
        "angles"@,
        b.angles.script,
        vector_initial(in_degrees(b.angles.value)),
    )
}

/// The script of an object's own visibility.
pub open spec fn visible_script(id: i64, visible: Setting<bool>) -> Seq<PendingModel> {
    property_script(id, "visible"@, visible.script, InitialModel::Bool(visible.value))
}

/// The script of a layer's opacity.
pub open spec fn alpha_script(id: i64, alpha: Setting<Number>) -> Seq<PendingModel> {
    property_script(id, "alpha"@, alpha.script, InitialModel::Float(alpha.value))
}

/// The script of a layer's colour, which has no alpha for it.
pub open spec fn color_script(
    id: i64,
    color: Setting<(Number, Number, Number, Number)>,
) -> Seq<PendingModel> {
    property_script(
        id,
        "color"@,
        color.script,
        vector_initial((color.value.0, color.value.1, color.value.2)),
    )
}

/// The scripts of an image: of its look, then of the constants of its effects.
pub open spec fn image_scripts(id: i64, i: ImageModel) -> Seq<PendingModel> {
    alpha_script(id, i.alpha) + property_script(
        id,
        "brightness"@,
        i.brightness.script,
        InitialModel::Float(i.brightness.value),
    ) + color_script(id, i.color) + visible_script(id, i.visible) + effect_scripts(
        id,
        i.effects,
        i.effects.len() as int,
    )
}

/// The effects that the document of a text lists, with the values of the user
/// properties that their settings follow.
pub open spec fn text_effects(m: Members, bag: Bag) -> Seq<EffectModel> {
    let list = tables(m, "effects"@);
    effects_upto(list, list.len() as int).map_values(|e: EffectModel| resolved_effect(e, bag))
}

/// The volume that the document of a sound gives, with the value of the user
/// property that it follows. A sound without one is as loud as it is.
pub open spec fn sound_volume(m: Members, bag: Bag) -> Setting<Number> {
    resolved::<Scalar>(setting_of::<Scalar>(m, "volume"@, Number::Single(ONE_BITS)), bag)
}

/// The scripts of a text: of its words and its look, then of the constants of
/// its effects.
pub open spec fn text_scripts(
    id: i64,
    t: TextModel,
    effects: Seq<EffectModel>,
) -> Seq<PendingModel> {
    property_script(id, "text"@, t.text.script, InitialModel::Str(t.text.value)) + alpha_script(
        id,
        t.alpha,
    ) + color_script(id, t.color) + visible_script(id, t.visible) + effect_scripts(
        id,
        effects,
        effects.len() as int,
    )
}

/// The script of a sound's volume.
pub open spec fn volume_script(id: i64, volume: Setting<Number>) -> Seq<PendingModel> {
    property_script(id, "volume"@, volume.script, InitialModel::Float(volume.value))
}

/// The scripts that an object has by its kind. An image and a text have a
/// visibility of their own.
pub open spec fn kind_scripts(o: ObjectModel, bag: Bag) -> Seq<PendingModel> {
    let b = o.base;
    match o.kind {
        KindModel::Image(i) => image_scripts(b.id, i),
        KindModel::Text(t) => text_scripts(b.id, t, text_effects(o.extra, bag)),
        KindModel::Particle(p) => visible_script(b.id, b.visible) + property_script(
            b.id,
            "rate"@,
            p.instanceoverride.rate.script,
            InitialModel::Float(p.instanceoverride.rate.value),
        ),
        KindModel::Sound(_, _) => visible_script(b.id, b.visible) + volume_script(
            b.id,
            sound_volume(o.extra, bag),
        ),
        _ => visible_script(b.id, b.visible),
    }
}

/// The scripts of an object: those of its place, then those of its kind.
pub open spec fn object_scripts(o: ObjectModel, bag: Bag) -> Seq<PendingModel> {
    place_scripts(o.base) + kind_scripts(o, bag)
}

proof fn lemma_added_in_turn<T>(a: Seq<T>, b: Seq<T>, c: Seq<T>)
    ensures
        (a + b) + c == a + (b + c),
{
    assert((a + b) + c =~= a + (b + c));
}

fn color_list(c: &Color) -> (r: Vec<Scalar>)
    ensures
        views(r@) == seq![c@.0, c@.1, c@.2],
{
    let mut out: Vec<Scalar> = Vec::new();
    out.push(c.r.duplicate());
    out.push(c.g.duplicate());
    out.push(c.b.duplicate());
    assert(views(out@) =~= seq![c@.0, c@.1, c@.2]);
    out
}

fn collect_place(out: &mut Vec<Pending>, b: &BaseObject)
    ensures
        views(final(out)@) == views(old(out)@) + place_scripts(b@),
{
    let ghost start = views(out@);
    collect(out, b.id, "origin", &b.origin.script, Initial::Vec(vec3_list(&b.origin.value)));
    collect(out, b.id, "scale", &b.scale.script, Initial::Vec(vec3_list(&b.scale.value)));
    let angles = to_degrees(b.angles.value.duplicate());
    collect(out, b.id, "angles", &b.angles.script, Initial::Vec(vec3_list(&angles)));
    assert(views(out@) =~= start + place_scripts(b@));
}

fn collect_visible(out: &mut Vec<Pending>, id: i64, us: &UserSetting<bool>)
    ensures
        views(final(out)@) == views(old(out)@) + visible_script(id, us@),
{
    collect(out, id, "visible", &us.script, Initial::Bool(us.value));
}

fn collect_alpha(out: &mut Vec<Pending>, id: i64, us: &UserSetting<Scalar>)
    ensures
        views(final(out)@) == views(old(out)@) + alpha_script(id, us@),
{
    collect(out, id, "alpha", &us.script, Initial::Float(us.value.duplicate()));
}

fn collect_color(out: &mut Vec<Pending>, id: i64, us: &UserSetting<Color>)
    ensures
        views(final(out)@) == views(old(out)@) + color_script(id, us@),
{
    collect(out, id, "color", &us.script, Initial::Vec(color_list(&us.value)));
}

fn collect_image(out: &mut Vec<Pending>, id: i64, img: &ImageObject)
    ensures
        views(final(out)@) == views(old(out)@) + image_scripts(id, img@),
{
    let ghost start = views(out@);
    collect_alpha(out, id, &img.alpha);
    collect(
        out,
        id,
        "brightness",
        &img.brightness.script,
        Initial::Float(img.brightness.value.duplicate()),
    );
    collect_color(out, id, &img.color);
    collect_visible(out, id, &img.visible);
    collect_effect_constants(out, id, &img.effects);
    assert(views(out@) =~= start + image_scripts(id, img@));
}

pub(crate) fn read_text_effects(m: &JsonMap, bag: &PropertyBag) -> (r: Vec<Effect>)
    ensures
        views(r@) == text_effects(m@, bag@),
{
    let mut effects = read_effects(m);
    resolve_effects(&mut effects, bag);
    effects
}

fn collect_text(
    out: &mut Vec<Pending>,
    id: i64,
    txt: &TextObject,
    m: &JsonMap,
    bag: &PropertyBag,
)
    ensures
        views(final(out)@) == views(old(out)@) + text_scripts(id, txt@, text_effects(m@, bag@)),
{
    let ghost start = views(out@);
    collect(out, id, "text", &txt.text.script, Initial::Str(txt.text.value.clone()));
    collect_alpha(out, id, &txt.alpha);
    collect_color(out, id, &txt.color);
    collect_visible(out, id, &txt.visible);
    let effects = read_text_effects(m, bag);
    collect_effect_constants(out, id, &effects);
    assert(views(out@) =~= start + text_scripts(id, txt@, text_effects(m@, bag@)));
}

fn collect_volume(out: &mut Vec<Pending>, id: i64, m: &JsonMap, bag: &PropertyBag)
    ensures
        views(final(out)@) == views(old(out)@) + volume_script(id, sound_volume(m@, bag@)),
{
    let mut volume = user_f32(m, "volume", ONE_BITS);
    resolve_us(&mut volume, bag);
    collect(out, id, "volume", &volume.script, Initial::Float(volume.value.duplicate()));
}

fn collect_particle(out: &mut Vec<Pending>, b: &BaseObject, p: &ParticleObject)
    ensures
        views(final(out)@) == views(old(out)@) + (visible_script(b@.id, b@.visible)
            + property_script(
            b@.id,
            "rate"@,
            p@.instanceoverride.rate.script,
            InitialModel::Float(p@.instanceoverride.rate.value),
        )),
{
    let ghost start = views(out@);
    let us = &p.instanceoverride.rate;
    collect_visible(out, b.id, &b.visible);
    collect(out, b.id, "rate", &us.script, Initial::Float(us.value.duplicate()));
    proof {
        lemma_added_in_turn(
            start,
            visible_script(b@.id, b@.visible),
            property_script(
                b@.id,
                "rate"@,
                p@.instanceoverride.rate.script,
                InitialModel::Float(p@.instanceoverride.rate.value),
            ),
        );
    }
}

fn collect_sound(out: &mut Vec<Pending>, b: &BaseObject, m: &JsonMap, bag: &PropertyBag)
    ensures
        views(final(out)@) == views(old(out)@) + (visible_script(b@.id, b@.visible) + volume_script(
            b@.id,
            sound_volume(m@, bag@),
        )),
{
    let ghost start = views(out@);
    collect_visible(out, b.id, &b.visible);
    collect_volume(out, b.id, m, bag);
    proof {
        lemma_added_in_turn(
            start,
            visible_script(b@.id, b@.visible),
            volume_script(b@.id, sound_volume(m@, bag@)),
        );
    }
}

fn collect_kind(out: &mut Vec<Pending>, o: &Object, bag: &PropertyBag)
    ensures
        views(final(out)@) == views(old(out)@) + kind_scripts(o@, bag@),
{
    let b = &o.base;
    match &o.kind {
        ObjectKind::Image(img) => collect_image(out, b.id, img),
        ObjectKind::Text(txt) => collect_text(out, b.id, txt, &o.extra, bag),
        ObjectKind::Particle(p) => collect_particle(out, b, p),
        ObjectKind::Sound(_) => collect_sound(out, b, &o.extra, bag),
        _ => collect_visible(out, b.id, &b.visible),
    }
}

fn collect_object(out: &mut Vec<Pending>, o: &Object, bag: &PropertyBag)
    ensures
        views(final(out)@) == views(old(out)@) + object_scripts(o@, bag@),
{
    let ghost start = views(out@);
    collect_place(out, &o.base);
    collect_kind(out, o, bag);
    proof {
        lemma_added_in_turn(start, place_scripts(o@.base), kind_scripts(o@, bag@));
    }
}

/// The number of passes that have a material.
pub open spec fn material_count(passes: Seq<EffectPassModel>, k: int) -> nat {
    crate::plan::materials_before(passes, k)
}

/// What scripts are told of an effect.
pub open spec fn effect_info(e: EffectModel) -> (Seq<char>, u32) {
    (
        e.name,
        match e.resolved {
            Some(f) => material_count(f.passes, f.passes.len() as int) as u32,
            None => 0,
        },
    )
}

/// A flag of a document that is a flag.
pub open spec fn flag_member(m: Members, key: Seq<char>) -> Option<bool> {
    match lookup(m, key) {
        Some(Tree::Bool(b)) => Some(b),
        _ => None,
    }
}

/// A layer as scripts first see it.
pub open spec fn first_layer(o: ObjectModel) -> LayerModel {
    let b = o.base;
    let base = LayerModel {
        parent: b.parent,
        origin: Some(b.origin.value),
        scale: Some(b.scale.value),
        angles: Some(in_degrees(b.angles.value)),
        visible: Some(b.visible.value),
        solid: flag_member(o.extra, "solid"@),
        ..blank_layer(b.id, b.name)
    };
    match o.kind {
        KindModel::Image(i) => LayerModel {
            color: Some((i.color.value.0, i.color.value.1, i.color.value.2)),
            alpha: Some(i.alpha.value),
            visible: Some(i.visible.value && b.visible.value),
            size: Some(i.size),
            effects: Some(Seq::new(i.effects.len(), |k: int| effect_info(i.effects[k]))),
            ..base
        },
        KindModel::Text(t) => LayerModel {
            color: Some((t.color.value.0, t.color.value.1, t.color.value.2)),
            alpha: Some(t.alpha.value),
            visible: Some(t.visible.value && b.visible.value),
            point_size: Some(t.pointsize.value),
            text: Some(t.text.value),
            size: Some(t.size),
            ..base
        },
        _ => base,
    }
}

fn rgb(c: &Color) -> (r: Vec3)
    ensures
        r@ == (c@.0, c@.1, c@.2),
{
    Vec3 { x: c.r.duplicate(), y: c.g.duplicate(), z: c.b.duplicate() }
}

fn count_materials(passes: &Vec<EffectPass>) -> (n: usize)
    ensures
        n == material_count(views(passes@), passes@.len() as int),
{
    let ghost all = views(passes@);
    let mut n: usize = 0;
    let mut i: usize = 0;
    while i < passes.len()
        invariant
            i <= passes@.len(),
            all == views(passes@),
            n <= i,
            n == material_count(all, i as int),
        decreases passes@.len() - i,
    {
        assert(all[i as int] == passes@[i as int]@);
        if passes[i].material.is_some() {
            n += 1;
        }
        i += 1;
    }
    n
}

fn effect_infos(effects: &Vec<Effect>) -> (r: Vec<EffectInfo>)
    ensures
        views(r@) == Seq::new(effects@.len(), |k: int| effect_info(views(effects@)[k])),
{
    let ghost all = views(effects@);
    let mut out: Vec<EffectInfo> = Vec::new();
    let mut i: usize = 0;
    while i < effects.len()
        invariant
            i <= effects@.len(),
            all == views(effects@),
            out@.len() == i,
            forall|j: int| 0 <= j < i ==> (#[trigger] out@[j])@ == effect_info(all[j]),
        decreases effects@.len() - i,
    {
        let e = &effects[i];
        assert(all[i as int] == e@);
        let materials: u32 = match &e.resolved {
            Some(f) => count_materials(&f.passes) as u32,
            None => 0,
        };
        out.push(EffectInfo { name: e.name.clone(), materials });
        i += 1;
    }
    assert(views(out@) =~= Seq::new(effects@.len(), |k: int| effect_info(views(effects@)[k])));
    out
}

/// A layer as scripts first see it.
pub fn layer_state(o: &Object) -> (r: LayerState)
    ensures
        r@ == first_layer(o@),
{
    let b = &o.base;
    let mut ls = LayerState::blank(b.id, b.name.clone());
    ls.parent = b.parent;
    ls.origin = Some(b.origin.value.duplicate());
    ls.scale = Some(b.scale.value.duplicate());
    ls.angles = Some(to_degrees(b.angles.value.duplicate()));
    ls.visible = Some(b.visible.value);
    ls.solid = match o.extra.get("solid") {
        Some(Json::Bool(v)) => Some(*v),
        _ => None,
    };
    match &o.kind {
        ObjectKind::Image(img) => {
            ls.color = Some(rgb(&img.color.value));
            ls.alpha = Some(img.alpha.value.duplicate());
            ls.visible = Some(img.visible.value && b.visible.value);
            ls.size = Some(img.size.duplicate());
            ls.effects = Some(effect_infos(&img.effects));
        },
        ObjectKind::Text(txt) => {
            ls.color = Some(rgb(&txt.color.value));
            ls.alpha = Some(txt.alpha.value.duplicate());
            ls.visible = Some(txt.visible.value && b.visible.value);
            ls.point_size = Some(txt.pointsize.value.duplicate());
            ls.text = Some(txt.text.value.clone());
            ls.size = Some(txt.size.duplicate());
        },
        _ => {},
    }
    ls
}

/// The scene's settings as scripts first see them.
pub open spec fn first_state(s: SceneModelView, clearenabled: bool) -> StateModel {
    let g = s.general;
    let c = s.camera;
    StateModel {
        clearcolor: (g.clearcolor.value.0, g.clearcolor.value.1, g.clearcolor.value.2),
        ambientcolor: (g.ambientcolor.value.0, g.ambientcolor.value.1, g.ambientcolor.value.2),
        skylightcolor: (g.skylightcolor.value.0, g.skylightcolor.value.1, g.skylightcolor.value.2),
        bloom: g.bloom.value,
        bloomstrength: g.bloomstrength.value,
        bloomthreshold: g.bloomthreshold.value,
        clearenabled,
        fov: c.fov.value,
        nearz: c.nearz,
        farz: c.farz,
        camerafade: g.camerafade.value,
        camerashake: g.camerashake.value,
        camerashakespeed: g.camerashakespeed.value,
        camerashakeamplitude: g.camerashakeamplitude.value,
        camerashakeroughness: g.camerashakeroughness.value,
        cameraparallax: g.cameraparallax.value,
        cameraparallaxamount: g.cameraparallaxamount.value,
        cameraparallaxdelay: g.cameraparallaxdelay.value,
        cameraparallaxmouseinfluence: g.cameraparallaxmouseinfluence.value,
        camera: CameraStateModel { eye: c.eye, center: c.center, up: c.up, fov: c.fov.value },
    }
}

/// The scene's settings as scripts first see them; `clearenabled` is what the
/// script engine starts that setting with.
pub fn scene_state(s: &Scene, clearenabled: bool) -> (r: SceneState)
    ensures
        r@ == first_state(s@, clearenabled),
{
    let g = &s.general;
    let c = &s.camera;
    SceneState {
        clearcolor: rgb(&g.clearcolor.value),
        ambientcolor: rgb(&g.ambientcolor.value),
        skylightcolor: rgb(&g.skylightcolor.value),
        bloom: g.bloom.value,
        bloomstrength: g.bloomstrength.value.duplicate(),
        bloomthreshold: g.bloomthreshold.value.duplicate(),
        clearenabled,
        fov: c.fov.value.duplicate(),
        nearz: c.nearz.duplicate(),
        farz: c.farz.duplicate(),
        camerafade: g.camerafade.value,
        camerashake: g.camerashake.value,
        camerashakespeed: g.camerashakespeed.value.duplicate(),
        camerashakeamplitude: g.camerashakeamplitude.value.duplicate(),
        camerashakeroughness: g.camerashakeroughness.value.duplicate(),
        cameraparallax: g.cameraparallax.value,
        cameraparallaxamount: g.cameraparallaxamount.value.duplicate(),
        cameraparallaxdelay: g.cameraparallaxdelay.value.duplicate(),
        cameraparallaxmouseinfluence: g.cameraparallaxmouseinfluence.value.duplicate(),
        camera: CameraState {
            eye: c.eye.duplicate(),
            center: c.center.duplicate(),
            up: c.up.duplicate(),
            fov: c.fov.value.duplicate(),
        },
    }
}

/// The sort keys of the objects.
pub open spec fn sort_keys(objects: Seq<ObjectModel>) -> Seq<i64> {
    objects.map_values(|o: ObjectModel| o.base.sortorder)
}

/// The order in which a scene draws its objects.
pub open spec fn scene_order(s: SceneModelView) -> Seq<int> {
    draw_order(sort_keys(s.objects), s.general.customsortorder)
}

/// The order in which a scene draws its objects.
pub fn scene_positions(s: &Scene) -> (r: Vec<usize>)
    ensures
        ints(r@) == scene_order(s@),
        r@.len() == s.objects@.len(),
        forall|i: int| 0 <= i < r@.len() ==> (#[trigger] r@[i]) < s.objects@.len(),
{
    let mut keys: Vec<i64> = Vec::new();
    let mut i: usize = 0;
    while i < s.objects.len()
        invariant
            i <= s.objects@.len(),
            keys@.len() == i,
            forall|j: int| 0 <= j < i ==> keys@[j] == s.objects@[j].base.sortorder,
        decreases s.objects@.len() - i,
    {
        keys.push(s.objects[i].base.sortorder);
        i += 1;
    }
    assert(keys@ =~= sort_keys(s@.objects));
    draw_positions(&keys, s.general.customsortorder)
}

/// Whether `part` stands anywhere in `text`.
pub open spec fn holds_text(text: Seq<char>, part: Seq<char>) -> bool {
    first_at(text, part, 0) is Some
}

/// Whether a script listens to what is being played.
pub open spec fn listens_to_media(source: Seq<char>) -> bool {
    holds_text(source, "mediaStatusChanged"@) || holds_text(source, "mediaPlaybackChanged"@)
        || holds_text(source, "mediaPropertiesChanged"@) || holds_text(
        source,
        "mediaThumbnailChanged"@,
    ) || holds_text(source, "mediaTimelineChanged"@)
}

fn contains_text(text: &str, part: &str) -> (r: bool)
    ensures
        r == holds_text(text@, part@),
{
    let a = chars_of(text);
    let b = chars_of(part);
    find_run(a.as_slice(), b.as_slice(), 0).is_some()
}

fn wants_media(source: &str) -> (r: bool)
    ensures
        r == listens_to_media(source@),
{
    contains_text(source, "mediaStatusChanged") || contains_text(source, "mediaPlaybackChanged")
        || contains_text(source, "mediaPropertiesChanged") || contains_text(
        source,
        "mediaThumbnailChanged",
    ) || contains_text(source, "mediaTimelineChanged")
}

/// What a scene's scripts start with.
#[derive(Debug)]
pub struct ScriptSetup {
    pub pending: Vec<Pending>,
    pub layers: Vec<LayerState>,
    pub scene: SceneState,
    pub wants_media: bool,
    pub storage_id: Option<String>,
}

/// The scripts of the first `k` objects in drawing order.
pub open spec fn scripts_in_order(
    objects: Seq<ObjectModel>,
    bag: Bag,
    order: Seq<int>,
    k: int,
) -> Seq<PendingModel>
    decreases k,
{
    if k <= 0 {
        Seq::empty()
    } else {
        scripts_in_order(objects, bag, order, k - 1) + object_scripts(objects[order[k - 1]], bag)
    }
}

/// The first workshop item that one of the scripts from `i` on names.
pub open spec fn first_workshop_id(pending: Seq<PendingModel>, i: int) -> Option<Seq<char>>
    decreases pending.len() - i,
{
    if i < 0 || i >= pending.len() {
        None
    } else {
        match workshop_id(pending[i].source) {
            Some(id) => Some(id),
            None => first_workshop_id(pending, i + 1),
        }
    }
}

/// Whether an object is a text whose text a script writes.
pub open spec fn is_scripted_text(o: ObjectModel) -> bool {
    match o.kind {
        KindModel::Text(t) => t.text.script is Some,
        _ => false,
    }
}

/// All scripts of a scene, in drawing order.
pub open spec fn scene_scripts(s: SceneModelView, bag: Bag) -> Seq<PendingModel> {
    scripts_in_order(s.objects, bag, scene_order(s), s.objects.len() as int)
}

/// The layers as scripts first see them, in drawing order.
pub open spec fn first_layers(s: SceneModelView) -> Seq<LayerModel> {
    Seq::new(s.objects.len(), |i: int| first_layer(s.objects[scene_order(s)[i]]))
}

/// Whether a scene needs its scripts run.
pub open spec fn needs_scripts(s: SceneModelView, bag: Bag) -> bool {
    scene_scripts(s, bag).len() > 0 || exists|i: int|
        0 <= i < s.objects.len() && is_scripted_text(#[trigger] s.objects[i])
}

/// What a scene's scripts start with, for a scene that needs them run. The bag
/// holds the properties that the scene was resolved with.
pub fn script_setup(s: &Scene, bag: &PropertyBag, clearenabled: bool) -> (r: Option<ScriptSetup>)
    ensures
        r is Some <==> needs_scripts(s@, bag@),
        match r {
            Some(setup) => {
                &&& views(setup.pending@) == scene_scripts(s@, bag@)
                &&& views(setup.layers@) == first_layers(s@)
                &&& setup.scene@ == first_state(s@, clearenabled)
                &&& setup.wants_media <==> exists|i: int|
                    0 <= i < scene_scripts(s@, bag@).len() && listens_to_media(
                        (#[trigger] scene_scripts(s@, bag@)[i]).source,
                    )
                &&& opt_view(setup.storage_id) == first_workshop_id(scene_scripts(s@, bag@), 0)
            },
            None => true,
        },
{
    let order = scene_positions(s);
    let ghost positions = scene_order(s@);
    let mut pending: Vec<Pending> = Vec::new();
    let mut layers: Vec<LayerState> = Vec::new();
    let mut text_scripts = false;
    let mut i: usize = 0;
    assert(views(pending@) =~= Seq::empty());
    while i < order.len()
        invariant
            i <= order@.len(),
            order@.len() == s.objects@.len(),
            positions == ints(order@),
            forall|k: int| 0 <= k < order@.len() ==> (#[trigger] order@[k]) < s.objects@.len(),
            views(pending@) == scripts_in_order(s@.objects, bag@, positions, i as int),
            layers@.len() == i,
            forall|k: int|
                0 <= k < i ==> (#[trigger] layers@[k])@ == first_layer(
                    s.objects@[positions[k]]@,
                ),
        decreases order@.len() - i,
    {
        let o = &s.objects[order[i]];
        assert(positions[i as int] == order@[i as int] as int);
        layers.push(layer_state(o));
        assert(s@.objects[positions[i as int]] == o@);
        collect_object(&mut pending, o, bag);
        i += 1;
    }
    assert(views(layers@) =~= first_layers(s@));
    let mut j: usize = 0;
    while j < s.objects.len()
        invariant
            j <= s.objects@.len(),
            text_scripts <==> exists|k: int|
                0 <= k < j && is_scripted_text(#[trigger] s@.objects[k]),
        decreases s.objects@.len() - j,
    {
        let ghost o = s@.objects[j as int];
        match &s.objects[j].kind {
            ObjectKind::Text(t) => {
                if t.text.script.is_some() {
                    assert(is_scripted_text(o));
                    text_scripts = true;
                }
            },
            _ => {},
        }
        assert(s.objects@[j as int]@ == o);
        j += 1;
    }
    if pending.len() == 0 && !text_scripts {
        return None;
    }
    let ghost all = views(pending@);
    let mut media = false;
    let mut storage_id: Option<String> = None;
    let mut k: usize = 0;
    while k < pending.len()
        invariant
            k <= pending@.len(),
            all == views(pending@),
            media <==> exists|m: int|
                0 <= m < k && listens_to_media((#[trigger] all[m]).source),
            storage_id is Some ==> opt_view(storage_id) == first_workshop_id(all, 0),
            storage_id is None ==> first_workshop_id(all, 0) == first_workshop_id(all, k as int),
        decreases pending@.len() - k,
    {
        assert(all[k as int] == pending@[k as int]@);
        if wants_media(pending[k].source.as_str()) {
            assert(listens_to_media(all[k as int].source));
            media = true;
        }
        if storage_id.is_none() {
            storage_id = extract_workshop_id(pending[k].source.as_str());
        }
        k += 1;
    }
    Some(
        ScriptSetup {
            pending,
            layers,
            scene: scene_state(s, clearenabled),
            wants_media: media,
            storage_id,
        },
    )
}

/// The properties of the scripts that were loaded.
pub open spec fn loaded_props(
    pending: Seq<PendingModel>,
    loaded: Seq<bool>,
    k: int,
) -> Seq<PropModel>
    decreases k,
{
    if k <= 0 {
        Seq::empty()
    } else {
        let before = loaded_props(pending, loaded, k - 1);
        if loaded[k - 1] {
            before.push(pending[k - 1].prop)
        } else {
            before
        }
    }
}

/// The user properties as scripts see them; of two of one name the later counts.
pub open spec fn script_user_props(
    props: Seq<(Seq<char>, Property)>,
    k: int,
) -> Map<Seq<char>, Scripted>
    decreases k,
{
    if k <= 0 {
        Map::empty()
    } else {
        script_user_props(props, k - 1).insert(
            props[k - 1].0,
            property_for_script(props[k - 1].1),
        )
    }
}

/// A host with nothing asked of it yet.
pub open spec fn fresh_host(
    props: Seq<PropModel>,
    layers: Seq<LayerModel>,
    scene: StateModel,
    user_props: Map<Seq<char>, Scripted>,
    wants_media: bool,
) -> HostModel {
    HostModel {
        props,
        layers,
        scene,
        user_props,
        created: Seq::empty(),
        destroyed: Seq::empty(),
        particle_ops: Seq::empty(),
        material_ops: Seq::empty(),
        scene_ops: Seq::empty(),
        video_ops: Seq::empty(),
        anim_ops: Seq::empty(),
        wants_media,
        camera_op: None,
        order_dirty: false,
        parent_updates: Seq::empty(),
        scene_dirty: false,
        user_props_dirty: false,
        has_frame: false,
        overrides: Seq::empty(),
    }
}

fn copy_prop(p: &ScriptedProp) -> (r: ScriptedProp)
    ensures
        r@ == p@,
{
    ScriptedProp {
        key: p.key.clone(),
        object_id: p.object_id,
        target: p.target,
        effect_constant: match &p.effect_constant {
            Some(c) => Some(EffectConstant { effect: c.effect, name: c.name.clone() }),
            None => None,
        },
    }
}

impl ScriptHost {
    /// Starts a host with the scripts that the engine has loaded: `loaded`
    /// says of each waiting one whether it has. A scene none of whose scripts
    /// load runs without.
    pub fn start(
        setup: ScriptSetup,
        loaded: &Vec<bool>,
        user_props: &Vec<(String, PropertyValue)>,
    ) -> (r: Option<ScriptHost>)
        requires
            loaded@.len() == setup.pending@.len(),
        ensures
            ({
                let props = loaded_props(views(setup.pending@), loaded@, loaded@.len() as int);
                match r {
                    Some(h) => props.len() > 0 && h@ == fresh_host(
                        props,
                        views(setup.layers@),
                        setup.scene@,
                        script_user_props(views(user_props@), user_props@.len() as int),
                        setup.wants_media,
                    ),
                    None => props.len() == 0,
                }
            }),
    {
        let ghost pending = views(setup.pending@);
        let mut props: Vec<ScriptedProp> = Vec::new();
        let mut i: usize = 0;
        assert(views(props@) =~= Seq::empty());
        while i < setup.pending.len()
            invariant
                i <= setup.pending@.len(),
                loaded@.len() == setup.pending@.len(),
                pending == views(setup.pending@),
                views(props@) == loaded_props(pending, loaded@, i as int),
            decreases setup.pending@.len() - i,
        {
            broadcast use lemma_views_push;

            assert(pending[i as int] == setup.pending@[i as int]@);
            if loaded[i] {
                props.push(copy_prop(&setup.pending[i].prop));
            }
            i += 1;
        }
        assert(views(props@).len() == props@.len());
        if props.len() == 0 {
            return None;
        }
        let ghost given = views(user_props@);
        let mut table: TextMap<ScriptValue> = TextMap::new();
        let mut j: usize = 0;
        while j < user_props.len()
            invariant
                j <= user_props@.len(),
                given == views(user_props@),
                table@ == script_user_props(given, j as int),
            decreases user_props@.len() - j,
        {
            assert(given[j as int] == user_props@[j as int]@);
            table.insert(user_props[j].0.clone(), prop_to_script(&user_props[j].1));
            j += 1;
        }
        let h = ScriptHost {
            props,
            layers: setup.layers,
            scene: setup.scene,
            user_props: table,
            created: Vec::new(),
            destroyed: Vec::new(),
            particle_ops: Vec::new(),
            material_ops: Vec::new(),
            scene_ops: Vec::new(),
            video_ops: Vec::new(),
            anim_ops: Vec::new(),
            wants_media: setup.wants_media,
            camera_op: None,
            order_dirty: false,
            parent_updates: Vec::new(),
            scene_dirty: false,
            user_props_dirty: false,
            has_frame: false,
            overrides: Vec::new(),
        };
        assert(h@ =~= fresh_host(
            views(props@),
            views(setup.layers@),
            setup.scene@,
            table@,
            setup.wants_media,
        ));
        Some(h)
    }
}

} // verus!
