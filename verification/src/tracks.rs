//! The properties of a scene that are animated.
use vstd::prelude::*;

use crate::animation::{animation_of, AnimationModel, PropertyAnimation};
use crate::animator::{AnimTarget, Driven, SCENE_OBJECT};
use crate::copy::{copy_vec, Duplicate};
use crate::json::{lookup, table_of, tables, text_of_tree, JsonMap, Members};
use crate::object::{
    section, Effect, EffectModel, ImageModel, ImageObject, KindModel, Object, ObjectKind,
    ObjectModel, OverrideModel, ParticleModel, ParticleObject, PassOverride, TextModel, TextObject,
    MAX_WIDTH_BITS,
};
use crate::property::{Bag, PropertyBag};
use crate::resolve::{resolve_us, resolved};
use crate::scene::{General, Scene, SceneModelView};
use crate::script_setup::{read_text_effects, text_effects};
use crate::scripting::PropTarget;
use crate::strings::{lemma_views_push, views};
use crate::table::{lists_names, names_of};
use crate::user::{setting_of, user_f32, ConstantValues, Constants};
use crate::value::{Color, Dynamic, DynamicValue, Number, Scalar, Vec3, ONE_BITS, ZERO_BITS};

verus! {

/// A property that is animated, as the scene has it.
#[derive(Debug)]
pub struct TrackSeed {
    pub object_id: i64,
    pub key: String,
    pub target: AnimTarget,
    pub base: Vec<Scalar>,
    pub animation: PropertyAnimation,
}

/// What a [`TrackSeed`] holds.
pub struct Seed {
    pub object_id: i64,
    pub key: Seq<char>,
    pub target: Driven,
    pub base: Seq<Number>,
    pub animation: AnimationModel,
}

impl View for TrackSeed {
    type V = Seed;

    open spec fn view(&self) -> Seed {
        Seed {
            object_id: self.object_id,
            key: self.key@,
            target: self.target@,
            base: views(self.base@),
            animation: self.animation@,
        }
    }
}

/// The animation of a member of a table.
pub open spec fn member_animation(m: Members, key: Seq<char>) -> Option<AnimationModel> {
    match table_of(lookup(m, key)) {
        Some(p) => animation_of(p),
        None => None,
    }
}

/// The properties in a list, and one more where it is animated and has a value.
pub open spec fn with_seed(
    list: Seq<Seed>,
    animation: Option<AnimationModel>,
    object_id: i64,
    key: Seq<char>,
    target: Driven,
    base: Seq<Number>,
) -> Seq<Seed> {
    match animation {
        Some(a) => if base.len() > 0 {
            list.push(Seed { object_id, key, target, base, animation: a })
        } else {
            list
        },
        None => list,
    }
}

/// The properties in a list, and a layer's property where it is animated.
pub open spec fn with_layer(
    list: Seq<Seed>,
    m: Members,
    id: i64,
    key: Seq<char>,
    target: PropTarget,
    base: Seq<Number>,
) -> Seq<Seed> {
    with_seed(list, member_animation(m, key), id, key, Driven::Layer(target), base)
}

/// The numbers that a constant of a shader is.
pub open spec fn dynamic_base(d: Dynamic) -> Seq<Number> {
    match d {
        Dynamic::Float(f) => seq![f],
        Dynamic::Int(i) => seq![Number::Int(i)],
        Dynamic::Bool(b) => seq![
            Number::Single(
                if b {
                    ONE_BITS
                } else {
                    ZERO_BITS
                },
            ),
        ],
        Dynamic::Vec(v) => v,
        Dynamic::Color(c) => seq![c.0, c.1, c.2, c.3],
        _ => Seq::empty(),
    }
}

/// The properties in a list, and the animated ones among the constants that
/// the first `k` of the names stand for. `doc` is the table that the constants
/// were read from: it has the animations, and the constants have the values.
pub open spec fn with_constants(
    list: Seq<Seed>,
    constants: Constants,
    names: Seq<Seq<char>>,
    doc: Members,
    id: i64,
    effect: usize,
    k: int,
) -> Seq<Seed>
    decreases k,
{
    if k <= 0 {
        list
    } else {
        let name = names[k - 1];
        with_seed(
            with_constants(list, constants, names, doc, id, effect, k - 1),
            member_animation(doc, name),
            id,
            name,
            Driven::EffectConstant { effect, name },
            dynamic_base(constants[name].value),
        )
    }
}

/// The table at a position, or an empty one.
pub open spec fn doc_at(docs: Seq<Members>, i: int) -> Members {
    if 0 <= i < docs.len() {
        docs[i]
    } else {
        Members::empty()
    }
}

/// The properties in a list, and the animated constants of the first `k`
/// passes of an effect, those of each pass in the order of their names. `docs`
/// are the tables that the passes were read from.
pub open spec fn with_passes(
    list: Seq<Seed>,
    passes: Seq<OverrideModel>,
    docs: Seq<Members>,
    id: i64,
    effect: usize,
    k: int,
) -> Seq<Seed>
    decreases k,
{
    if k <= 0 {
        list
    } else {
        let constants = passes[k - 1].constants;
        let names = names_of(constants);
        with_constants(
            with_passes(list, passes, docs, id, effect, k - 1),
            constants,
            names,
            section(doc_at(docs, k - 1), "constantshadervalues"@),
            id,
            effect,
            names.len() as int,
        )
    }
}

/// Those of the first `k` tables of a list that are effects: they name a file.
pub open spec fn effect_docs(docs: Seq<Members>, k: int) -> Seq<Members>
    decreases k,
{
    if k <= 0 {
        Seq::empty()
    } else if text_of_tree(lookup(docs[k - 1], "file"@)) is Some {
        effect_docs(docs, k - 1).push(docs[k - 1])
    } else {
        effect_docs(docs, k - 1)
    }
}

/// The properties in a list, and the animated constants of the first `k`
/// effects. `docs` are the tables that the effects were read from.
pub open spec fn with_effects(
    list: Seq<Seed>,
    effects: Seq<EffectModel>,
    docs: Seq<Members>,
    id: i64,
    k: int,
) -> Seq<Seed>
    decreases k,
{
    if k <= 0 {
        list
    } else {
        let passes = effects[k - 1].passes;
        with_passes(
            with_effects(list, effects, docs, id, k - 1),
            passes,
            tables(doc_at(docs, k - 1), "passes"@),
            id,
            (k - 1) as usize,
            passes.len() as int,
        )
    }
}

/// The properties in a list, and the animated constants of an object's effects.
pub open spec fn with_all_effects(
    list: Seq<Seed>,
    effects: Seq<EffectModel>,
    m: Members,
    id: i64,
) -> Seq<Seed> {
    let docs = tables(m, "effects"@);
    with_effects(list, effects, effect_docs(docs, docs.len() as int), id, effects.len() as int)
}

/// The width that a text is broken at: a setting where the document gives one,
/// with the value of the user property that it follows, and else a number.
pub open spec fn text_width(t: TextModel, m: Members, bag: Bag) -> Number {
    if table_of(lookup(m, "maxwidth"@)) is Some {
        resolved::<Scalar>(
            setting_of::<Scalar>(m, "maxwidth"@, Number::Single(MAX_WIDTH_BITS)),
            bag,
        ).value
    } else {
        t.maxwidth
    }
}

/// The zoom of a scene, with the value of the user property that it follows.
pub open spec fn scene_zoom(m: Members, bag: Bag) -> Number {
    resolved::<Scalar>(setting_of::<Scalar>(m, "zoom"@, Number::Single(ONE_BITS)), bag).value
}

/// The numbers of a vector.
pub open spec fn three(v: (Number, Number, Number)) -> Seq<Number> {
    seq![v.0, v.1, v.2]
}

/// The numbers of a colour but for its alpha.
pub open spec fn rgb(c: (Number, Number, Number, Number)) -> Seq<Number> {
    seq![c.0, c.1, c.2]
}

/// The properties in a list, and those of any object that are animated.
pub open spec fn with_place(list: Seq<Seed>, o: ObjectModel) -> Seq<Seed> {
    let id = o.base.id;
    with_layer(
        with_layer(
            with_layer(
                list,
                o.extra,
                id,
                "origin"@,
                PropTarget::Origin,
                three(o.base.origin.value),
            ),
            o.extra,
            id,
            "scale"@,
            PropTarget::Scale,
            three(o.base.scale.value),
        ),
        o.extra,
        id,
        "angles"@,
        PropTarget::Angles,
        three(o.base.angles.value),
    )
}

/// The properties in a list, and those of an image that are animated.
pub open spec fn with_image(list: Seq<Seed>, m: Members, id: i64, i: ImageModel) -> Seq<Seed> {
    with_all_effects(
        with_layer(
            with_layer(
                with_layer(list, m, id, "alpha"@, PropTarget::Alpha, seq![i.alpha.value]),
                m,
                id,
                "brightness"@,
                PropTarget::Brightness,
                seq![i.brightness.value],
            ),
            m,
            id,
            "color"@,
            PropTarget::Color,
            rgb(i.color.value),
        ),
        i.effects,
        m,
        id,
    )
}

/// The properties in a list, and those of a text that are animated.
pub open spec fn with_text(
    list: Seq<Seed>,
    m: Members,
    id: i64,
    t: TextModel,
    bag: Bag,
) -> Seq<Seed> {
    with_all_effects(
        with_seed(
            with_layer(
                with_layer(list, m, id, "alpha"@, PropTarget::Alpha, seq![t.alpha.value]),
                m,
                id,
                "color"@,
                PropTarget::Color,
                rgb(t.color.value),
            ),
            member_animation(m, "maxwidth"@),
            id,
            "maxwidth"@,
            Driven::TextMaxWidth,
            seq![text_width(t, m, bag)],
        ),
        text_effects(m, bag),
        m,
        id,
    )
}

/// The properties in a list, and an override of a particle system where it is
/// animated.
pub open spec fn with_override(
    list: Seq<Seed>,
    m: Members,
    id: i64,
    name: Seq<char>,
    base: Number,
) -> Seq<Seed> {
    with_seed(
        list,
        member_animation(m, name),
        id,
        name,
        Driven::ParticleOverride(name),
        seq![base],
    )
}

/// The properties in a list, and those of a particle system that are animated.
pub open spec fn with_particle(list: Seq<Seed>, m: Members, id: i64, p: ParticleModel) -> Seq<Seed> {
    let o = section(m, "instanceoverride"@);
    let io = p.instanceoverride;
    with_override(
        with_override(
            with_override(
                with_override(
                    with_override(
                        with_override(list, o, id, "alpha"@, io.alpha.value),
                        o,
                        id,
                        "size"@,
                        io.size.value,
                    ),
                    o,
                    id,
                    "lifetime"@,
                    io.lifetime.value,
                ),
                o,
                id,
                "rate"@,
                io.rate.value,
            ),
            o,
            id,
            "speed"@,
            io.speed.value,
        ),
        o,
        id,
        "count"@,
        io.count.value,
    )
}

/// The properties in a list, and those of an object that are animated.
pub open spec fn with_object(list: Seq<Seed>, o: ObjectModel, bag: Bag) -> Seq<Seed> {
    let placed = with_place(list, o);
    match o.kind {
        KindModel::Image(i) => with_image(placed, o.extra, o.base.id, i),
        KindModel::Text(t) => with_text(placed, o.extra, o.base.id, t, bag),
        KindModel::Particle(p) => with_particle(placed, o.extra, o.base.id, p),
        _ => placed,
    }
}

/// The animated properties of a scene: its zoom, and those of its first `k` objects.
pub open spec fn seeds_upto(s: SceneModelView, bag: Bag, k: int) -> Seq<Seed>
    decreases k,
{
    if k <= 0 {
        with_seed(
            Seq::empty(),
            member_animation(s.general.extra, "zoom"@),
            SCENE_OBJECT,
            "zoom"@,
            Driven::SceneZoom,
            seq![scene_zoom(s.general.extra, bag)],
        )
    } else {
        with_object(seeds_upto(s, bag, k - 1), s.objects[k - 1], bag)
    }
}

fn push(
    list: &mut Vec<TrackSeed>,
    property: Option<&JsonMap>,
    object_id: i64,
    key: &str,
    target: AnimTarget,
    base: Vec<Scalar>,
)
    ensures
        views(final(list)@) == with_seed(
            views(old(list)@),
            match property {
                Some(p) => animation_of(p@),
                None => None,
            },
            object_id,
            key@,
            target@,
            views(base@),
        ),
{
    if let Some(p) = property {
        if let Some(animation) = PropertyAnimation::parse(p) {
            if base.len() > 0 {
                let seed = TrackSeed { object_id, key: key.to_owned(), target, base, animation };
                proof {
                    lemma_views_push(list@, seed);
                }
                list.push(seed);
            }
        }
    }
}

fn push_layer(
    list: &mut Vec<TrackSeed>,
    m: &JsonMap,
    id: i64,
    key: &str,
    target: PropTarget,
    base: Vec<Scalar>,
)
    ensures
        views(final(list)@) == with_layer(
            views(old(list)@),
            m@,
            id,
            key@,
            target,
            views(base@),
        ),
{
    push(list, m.table(key), id, key, AnimTarget::Layer(target), base);
}

fn one(v: &Scalar) -> (r: Vec<Scalar>)
    ensures
        views(r@) == seq![v@],
{
    let mut out: Vec<Scalar> = Vec::new();
    out.push(v.duplicate());
    assert(views(out@) =~= seq![v@]);
    out
}

fn vector(v: &Vec3) -> (r: Vec<Scalar>)
    ensures
        views(r@) == three(v@),
{
    let mut out: Vec<Scalar> = Vec::new();
    out.push(v.x.duplicate());
    out.push(v.y.duplicate());
    out.push(v.z.duplicate());
    assert(views(out@) =~= three(v@));
    out
}

fn colour(c: &Color) -> (r: Vec<Scalar>)
    ensures
        views(r@) == rgb(c@),
{
    let mut out: Vec<Scalar> = Vec::new();
    out.push(c.r.duplicate());
    out.push(c.g.duplicate());
    out.push(c.b.duplicate());
    assert(views(out@) =~= rgb(c@));
    out
}

fn base_of(d: &DynamicValue) -> (r: Vec<Scalar>)
    ensures
        views(r@) == dynamic_base(d@),
{
    let mut out: Vec<Scalar> = Vec::new();
    match d {
        DynamicValue::Float(f) => {
            out.push(f.duplicate());
        },
        DynamicValue::Int(i) => {
            out.push(Scalar::Int(*i));
        },
        DynamicValue::Bool(b) => {
            out.push(
                Scalar::Single(
                    if *b {
                        ONE_BITS
                    } else {
                        ZERO_BITS
                    },
                ),
            );
        },
        DynamicValue::Vec(v) => {
            return copy_vec(v);
        },
        DynamicValue::Color(c) => {
            out.push(c.r.duplicate());
            out.push(c.g.duplicate());
            out.push(c.b.duplicate());
            out.push(c.a.duplicate());
        },
        _ => {},
    }
    assert(views(out@) =~= dynamic_base(d@));
    out
}

fn push_constants(
    list: &mut Vec<TrackSeed>,
    constants: &ConstantValues,
    doc: &JsonMap,
    id: i64,
    effect: usize,
)
    ensures
        views(final(list)@) == with_constants(
            views(old(list)@),
            constants@,
            names_of(constants@),
            doc@,
            id,
            effect,
            names_of(constants@).len() as int,
        ),
{
    let ghost start = views(list@);
    let names = constants.names();
    let ghost listed = views(names@);
    let mut i: usize = 0;
    while i < names.len()
        invariant
            i <= names@.len(),
            listed == views(names@),
            lists_names(listed, constants@),
            views(list@) == with_constants(start, constants@, listed, doc@, id, effect, i as int),
        decreases names@.len() - i,
    {
        let name = &names[i];
        assert(listed[i as int] == name@);
        assert(listed.contains(name@));
        if let Some(us) = constants.get(name.as_str()) {
            let target = AnimTarget::EffectConstant { effect, name: name.clone() };
            push(
                list,
                doc.table(name.as_str()),
                id,
                name.as_str(),
                target,
                base_of(&us.value),
            );
        }
        i += 1;
    }
}

fn push_passes(
    list: &mut Vec<TrackSeed>,
    passes: &Vec<PassOverride>,
    doc: &JsonMap,
    id: i64,
    effect: usize,
)
    ensures
        views(final(list)@) == with_passes(
            views(old(list)@),
            views(passes@),
            tables(doc@, "passes"@),
            id,
            effect,
            passes@.len() as int,
        ),
{
    let ghost start = views(list@);
    let ghost overrides = views(passes@);
    let docs = doc.tables("passes");
    let ghost all = tables(doc@, "passes"@);
    let none = JsonMap::new();
    let mut i: usize = 0;
    while i < passes.len()
        invariant
            i <= passes@.len(),
            overrides == views(passes@),
            docs@.len() == all.len(),
            forall|j: int| 0 <= j < docs@.len() ==> (#[trigger] docs@[j])@ == all[j],
            none@ == Members::empty(),
            views(list@) == with_passes(start, overrides, all, id, effect, i as int),
        decreases passes@.len() - i,
    {
        assert(overrides[i as int] == passes@[i as int]@);
        let d: &JsonMap = if i < docs.len() {
            docs[i]
        } else {
            &none
        };
        assert(d@ == doc_at(all, i as int));
        let c: &JsonMap = match d.table("constantshadervalues") {
            Some(c) => c,
            None => &none,
        };
        assert(c@ == section(d@, "constantshadervalues"@));
        push_constants(list, &passes[i].constantshadervalues, c, id, effect);
        i += 1;
    }
}

fn find_effect_docs(m: &JsonMap) -> (r: Vec<&JsonMap>)
    ensures
        ({
            let docs = tables(m@, "effects"@);
            let kept = effect_docs(docs, docs.len() as int);
            &&& r@.len() == kept.len()
            &&& forall|j: int| 0 <= j < kept.len() ==> (#[trigger] r@[j])@ == kept[j]
        }),
{
    let docs = m.tables("effects");
    let ghost all = tables(m@, "effects"@);
    let mut out: Vec<&JsonMap> = Vec::new();
    let mut i: usize = 0;
    while i < docs.len()
        invariant
            i <= docs@.len(),
            docs@.len() == all.len(),
            forall|j: int| 0 <= j < docs@.len() ==> (#[trigger] docs@[j])@ == all[j],
            out@.len() == effect_docs(all, i as int).len(),
            forall|j: int|
                0 <= j < out@.len() ==> (#[trigger] out@[j])@ == effect_docs(all, i as int)[j],
        decreases docs@.len() - i,
    {
        assert(docs@[i as int]@ == all[i as int]);
        if docs[i].text("file").is_some() {
            out.push(docs[i]);
        }
        i += 1;
    }
    out
}

fn push_effects(list: &mut Vec<TrackSeed>, effects: &Vec<Effect>, m: &JsonMap, id: i64)
    ensures
        views(final(list)@) == with_all_effects(views(old(list)@), views(effects@), m@, id),
{
    let ghost start = views(list@);
    let ghost models = views(effects@);
    let docs = find_effect_docs(m);
    let ghost all = effect_docs(tables(m@, "effects"@), tables(m@, "effects"@).len() as int);
    let none = JsonMap::new();
    let mut i: usize = 0;
    while i < effects.len()
        invariant
            i <= effects@.len(),
            models == views(effects@),
            docs@.len() == all.len(),
            forall|j: int| 0 <= j < docs@.len() ==> (#[trigger] docs@[j])@ == all[j],
            none@ == Members::empty(),
            views(list@) == with_effects(start, models, all, id, i as int),
        decreases effects@.len() - i,
    {
        assert(models[i as int] == effects@[i as int]@);
        let d: &JsonMap = if i < docs.len() {
            docs[i]
        } else {
            &none
        };
        assert(d@ == doc_at(all, i as int));
        push_passes(list, &effects[i].passes, d, id, i);
        i += 1;
    }
}

/// The width that a text is broken at.
pub fn max_width(t: &TextObject, m: &JsonMap, bag: &PropertyBag) -> (r: Scalar)
    ensures
        r@ == text_width(t@, m@, bag@),
{
    if m.table("maxwidth").is_some() {
        let mut us = user_f32(m, "maxwidth", MAX_WIDTH_BITS);
        resolve_us(&mut us, bag);
        us.value
    } else {
        t.maxwidth.duplicate()
    }
}

/// The zoom of a scene.
pub fn zoom_of(general: &General, bag: &PropertyBag) -> (r: Scalar)
    ensures
        r@ == scene_zoom(general@.extra, bag@),
{
    let mut us = user_f32(&general.extra, "zoom", ONE_BITS);
    resolve_us(&mut us, bag);
    us.value
}

fn push_override(list: &mut Vec<TrackSeed>, m: &JsonMap, id: i64, name: &str, base: &Scalar)
    ensures
        views(final(list)@) == with_override(views(old(list)@), m@, id, name@, base@),
{
    push(list, m.table(name), id, name, AnimTarget::ParticleOverride(name.to_owned()), one(base));
}

fn push_image(list: &mut Vec<TrackSeed>, m: &JsonMap, id: i64, img: &ImageObject)
    ensures
        views(final(list)@) == with_image(views(old(list)@), m@, id, img@),
{
    push_layer(list, m, id, "alpha", PropTarget::Alpha, one(&img.alpha.value));
    push_layer(list, m, id, "brightness", PropTarget::Brightness, one(&img.brightness.value));
    push_layer(list, m, id, "color", PropTarget::Color, colour(&img.color.value));
    push_effects(list, &img.effects, m, id);
}

fn push_text(list: &mut Vec<TrackSeed>, m: &JsonMap, id: i64, t: &TextObject, bag: &PropertyBag)
    ensures
        views(final(list)@) == with_text(views(old(list)@), m@, id, t@, bag@),
{
    push_layer(list, m, id, "alpha", PropTarget::Alpha, one(&t.alpha.value));
    push_layer(list, m, id, "color", PropTarget::Color, colour(&t.color.value));
    let width = max_width(t, m, bag);
    push(list, m.table("maxwidth"), id, "maxwidth", AnimTarget::TextMaxWidth, one(&width));
    let effects = read_text_effects(m, bag);
    push_effects(list, &effects, m, id);
}

fn push_particle(list: &mut Vec<TrackSeed>, m: &JsonMap, id: i64, p: &ParticleObject)
    ensures
        views(final(list)@) == with_particle(views(old(list)@), m@, id, p@),
{
    let none = JsonMap::new();
    let o: &JsonMap = match m.table("instanceoverride") {
        Some(o) => o,
        None => &none,
    };
    assert(o@ == section(m@, "instanceoverride"@));
    let io = &p.instanceoverride;
    push_override(list, o, id, "alpha", &io.alpha.value);
    push_override(list, o, id, "size", &io.size.value);
    push_override(list, o, id, "lifetime", &io.lifetime.value);
    push_override(list, o, id, "rate", &io.rate.value);
    push_override(list, o, id, "speed", &io.speed.value);
    push_override(list, o, id, "count", &io.count.value);
}

fn push_object(list: &mut Vec<TrackSeed>, o: &Object, bag: &PropertyBag)
    ensures
        views(final(list)@) == with_object(views(old(list)@), o@, bag@),
{
    let id = o.base.id;
    let m = &o.extra;
    push_layer(list, m, id, "origin", PropTarget::Origin, vector(&o.base.origin.value));
    push_layer(list, m, id, "scale", PropTarget::Scale, vector(&o.base.scale.value));
    push_layer(list, m, id, "angles", PropTarget::Angles, vector(&o.base.angles.value));
    match &o.kind {
        ObjectKind::Image(img) => push_image(list, m, id, img),
        ObjectKind::Text(t) => push_text(list, m, id, t, bag),
        ObjectKind::Particle(p) => push_particle(list, m, id, p),
        _ => {},
    }
}

/// The animated properties of a scene. The bag holds the properties that the
/// scene was resolved with.
pub fn animated_properties(scene: &Scene, bag: &PropertyBag) -> (r: Vec<TrackSeed>)
    ensures
        views(r@) == seeds_upto(scene@, bag@, scene@.objects.len() as int),
{
    let ghost all = scene@.objects;
    let mut out: Vec<TrackSeed> = Vec::new();
    assert(views(out@) =~= Seq::empty());
    let g = &scene.general.extra;
    let zoom = zoom_of(&scene.general, bag);
    push(&mut out, g.table("zoom"), SCENE_OBJECT, "zoom", AnimTarget::SceneZoom, one(&zoom));
    let mut i: usize = 0;
    while i < scene.objects.len()
        invariant
            i <= scene.objects@.len(),
            all == views(scene.objects@),
            all == scene@.objects,
            views(out@) == seeds_upto(scene@, bag@, i as int),
        decreases scene.objects@.len() - i,
    {
        assert(all[i as int] == scene.objects@[i as int]@);
        push_object(&mut out, &scene.objects[i], bag);
        i += 1;
    }
    out
}

/// Every animated property of a scene has a value that the animation changes.
pub proof fn law_animated_properties_have_values(s: SceneModelView, bag: Bag, k: int)
    requires
        0 <= k <= s.objects.len(),
    ensures
        all_based(seeds_upto(s, bag, k)),
    decreases k,
{
    if k > 0 {
        law_animated_properties_have_values(s, bag, k - 1);
        let o = s.objects[k - 1];
        lemma_object_based(seeds_upto(s, bag, k - 1), o, bag);
    }
}

/// Whether all properties in a list have values.
pub open spec fn all_based(list: Seq<Seed>) -> bool {
    forall|i: int| 0 <= i < list.len() ==> (#[trigger] list[i]).base.len() > 0
}

proof fn lemma_constants_based(
    list: Seq<Seed>,
    constants: Constants,
    names: Seq<Seq<char>>,
    doc: Members,
    id: i64,
    effect: usize,
    k: int,
)
    requires
        all_based(list),
    ensures
        all_based(with_constants(list, constants, names, doc, id, effect, k)),
    decreases k,
{
    if k > 0 {
        lemma_constants_based(list, constants, names, doc, id, effect, k - 1);
    }
}

proof fn lemma_passes_based(
    list: Seq<Seed>,
    passes: Seq<OverrideModel>,
    docs: Seq<Members>,
    id: i64,
    effect: usize,
    k: int,
)
    requires
        all_based(list),
    ensures
        all_based(with_passes(list, passes, docs, id, effect, k)),
    decreases k,
{
    if k > 0 {
        lemma_passes_based(list, passes, docs, id, effect, k - 1);
        let constants = passes[k - 1].constants;
        let names = names_of(constants);
        lemma_constants_based(
            with_passes(list, passes, docs, id, effect, k - 1),
            constants,
            names,
            section(doc_at(docs, k - 1), "constantshadervalues"@),
            id,
            effect,
            names.len() as int,
        );
    }
}

proof fn lemma_effects_based(
    list: Seq<Seed>,
    effects: Seq<EffectModel>,
    docs: Seq<Members>,
    id: i64,
    k: int,
)
    requires
        all_based(list),
    ensures
        all_based(with_effects(list, effects, docs, id, k)),
    decreases k,
{
    if k > 0 {
        lemma_effects_based(list, effects, docs, id, k - 1);
        let passes = effects[k - 1].passes;
        lemma_passes_based(
            with_effects(list, effects, docs, id, k - 1),
            passes,
            tables(doc_at(docs, k - 1), "passes"@),
            id,
            (k - 1) as usize,
            passes.len() as int,
        );
    }
}

proof fn lemma_object_based(list: Seq<Seed>, o: ObjectModel, bag: Bag)
    requires
        all_based(list),
    ensures
        all_based(with_object(list, o, bag)),
{
    let placed = with_place(list, o);
    let m = o.extra;
    let id = o.base.id;
    assert(all_based(placed));
    let docs = effect_docs(tables(m, "effects"@), tables(m, "effects"@).len() as int);
    match o.kind {
        KindModel::Image(i) => {
            let a = with_layer(
                with_layer(
                    with_layer(placed, m, id, "alpha"@, PropTarget::Alpha, seq![i.alpha.value]),
                    m,
                    id,
                    "brightness"@,
                    PropTarget::Brightness,
                    seq![i.brightness.value],
                ),
                m,
                id,
                "color"@,
                PropTarget::Color,
                rgb(i.color.value),
            );
            lemma_effects_based(a, i.effects, docs, id, i.effects.len() as int);
        },
        KindModel::Text(t) => {
            let a = with_seed(
                with_layer(
                    with_layer(placed, m, id, "alpha"@, PropTarget::Alpha, seq![t.alpha.value]),
                    m,
                    id,
                    "color"@,
                    PropTarget::Color,
                    rgb(t.color.value),
                ),
                member_animation(m, "maxwidth"@),
                id,
                "maxwidth"@,
                Driven::TextMaxWidth,
                seq![text_width(t, m, bag)],
            );
            let effects = text_effects(m, bag);
            lemma_effects_based(a, effects, docs, id, effects.len() as int);
        },
        _ => {},
    }
}

} // verus!
