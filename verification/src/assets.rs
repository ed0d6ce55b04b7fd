//! The files that a scene's objects are made of.
use vstd::prelude::*;

use crate::json::{json_document, parse, Json, Tree};
use crate::material::{
    effect_file_of, material_of, model_file_of, EffectFile, EffectFileModel, EffectPass,
    EffectPassModel, Material, ModelFile, ModelFileError, ModelFileModel, PassModel,
};
use crate::object::{
    Effect, EffectModel, ImageModel, ImageObject, KindModel, Object, ObjectKind, ObjectModel,
    ParticleModel, ParticleObject,
};
use crate::particle::{system_of, ParticleSystem, ParticleSystemModel};
use crate::plan::COLOR_BLEND_MATERIAL;
use crate::property::PropertyBag;
use crate::resolve::{resolve_objects, resolved_object, SceneModel};
use crate::scene::SceneModelView;
use crate::strings::{join2, lemma_views_push, opt_view, views};

verus! {

/// Where the files of a scene come from.
pub trait AssetSource {
    /// The bytes of a file, if there is one of that path.
    fn load(&self, path: &str) -> Option<Vec<u8>>;
}

/// A file that could not be used, and why.
#[derive(Debug, PartialEq, Eq)]
pub struct AssetProblem {
    pub path: String,
    pub reason: String,
}

/// What an [`AssetProblem`] holds.
pub struct Problem {
    pub path: Seq<char>,
    pub reason: Seq<char>,
}

impl View for AssetProblem {
    type V = Problem;

    open spec fn view(&self) -> Problem {
        Problem { path: self.path@, reason: self.reason@ }
    }
}

/// What a source answered: the bytes of a file, or none.
pub type Answer = Option<Seq<u8>>;

/// Whether a source that was asked for a path can have answered so.
pub open spec fn answers_with<S: AssetSource>(source: &S, path: Seq<char>, a: Answer) -> bool {
    exists|p: &str, r: Option<Vec<u8>>| #[trigger]
        call_ensures(S::load, (source, p), r) && p@ == path && opt_view(r) == a
}

/// The document in an answer, if it is one.
pub open spec fn document(a: Answer) -> Option<Tree> {
    match a {
        Some(bytes) => match json_document(bytes) {
            Ok(t) => Some(t),
            Err(m) => None,
        },
        None => None,
    }
}

/// What is wrong with an answer.
pub open spec fn complaints(path: Seq<char>, a: Answer) -> Seq<Problem> {
    match a {
        None => seq![Problem { path, reason: "asset not found"@ }],
        Some(bytes) => match json_document(bytes) {
            Ok(t) => Seq::empty(),
            Err(m) => seq![Problem { path, reason: "invalid JSON: "@ + m }],
        },
    }
}

/// Reads the document in an answer, and notes what is wrong with it.
pub fn read_asset(path: &str, loaded: Option<Vec<u8>>, problems: &mut Vec<AssetProblem>) -> (r:
    Option<Json>)
    ensures
        opt_view(r) == document(opt_view(loaded)),
        views(final(problems)@) == views(old(problems)@) + complaints(path@, opt_view(loaded)),
{
    let ghost start = views(problems@);
    match loaded {
        None => {
            let p = AssetProblem { path: path.to_owned(), reason: "asset not found".to_owned() };
            proof {
                lemma_views_push(problems@, p);
                assert(start.push(p@) =~= start + complaints(path@, None));
            }
            problems.push(p);
            None
        },
        Some(bytes) => match parse(bytes.as_slice()) {
            Ok(v) => {
                assert(start =~= start + complaints(path@, Some(bytes@)));
                Some(v)
            },
            Err(m) => {
                let p = AssetProblem {
                    path: path.to_owned(),
                    reason: join2("invalid JSON: ", m.as_str()),
                };
                proof {
                    lemma_views_push(problems@, p);
                    assert(start.push(p@) =~= start + complaints(path@, Some(bytes@)));
                }
                problems.push(p);
                None
            },
        },
    }
}

fn load_json<S: AssetSource>(source: &S, path: &str, problems: &mut Vec<AssetProblem>) -> (r: (
    Option<Json>,
    Ghost<Answer>,
))
    ensures
        answers_with(source, path@, r.1@),
        opt_view(r.0) == document(r.1@),
        views(final(problems)@) == views(old(problems)@) + complaints(path@, r.1@),
{
    let loaded = source.load(path);
    assert(call_ensures(S::load, (source, path), loaded));
    let ghost a: Answer = opt_view(loaded);
    let v = read_asset(path, loaded, problems);
    (v, Ghost(a))
}

/// What a source answered for the material of one pass of an effect.
pub open spec fn with_material(p: EffectPassModel, a: Answer) -> EffectPassModel {
    match p.material {
        Some(path) => match document(a) {
            Some(t) => EffectPassModel { resolved: Some(material_of(t)), ..p },
            None => p,
        },
        None => p,
    }
}

/// The passes of an effect with the materials that a source answered with.
pub open spec fn with_materials(
    passes: Seq<EffectPassModel>,
    answers: Seq<Answer>,
) -> Seq<EffectPassModel> {
    Seq::new(passes.len(), |i: int| with_material(passes[i], answers[i]))
}

/// What is wrong with the materials of the first `k` passes of an effect.
pub open spec fn material_complaints(
    passes: Seq<EffectPassModel>,
    answers: Seq<Answer>,
    k: int,
) -> Seq<Problem>
    decreases k,
{
    if k <= 0 {
        Seq::empty()
    } else {
        let before = material_complaints(passes, answers, k - 1);
        match passes[k - 1].material {
            Some(path) => before + complaints(path, answers[k - 1]),
            None => before,
        }
    }
}

/// Whether the answers are those of a source that was asked for the materials
/// of the passes of an effect.
pub open spec fn materials_asked<S: AssetSource>(
    source: &S,
    passes: Seq<EffectPassModel>,
    answers: Seq<Answer>,
) -> bool {
    &&& answers.len() == passes.len()
    &&& forall|i: int|
        0 <= i < passes.len() ==> (passes[i].material matches Some(path) ==> answers_with(
            source,
            path,
            #[trigger] answers[i],
        ))
}

/// What a source answered for an effect: its file, and the materials of its passes.
pub struct EffectAnswers {
    pub file: Answer,
    pub materials: Seq<Answer>,
}

/// Whether the answers are those of a source that was asked for the files of
/// an effect.
pub open spec fn effect_asked<S: AssetSource>(
    source: &S,
    e: EffectModel,
    a: EffectAnswers,
) -> bool {
    &&& answers_with(source, e.file, a.file)
    &&& document(a.file) matches Some(t) ==> materials_asked(
        source,
        effect_file_of(t).passes,
        a.materials,
    )
}

/// An effect with the files that a source answered with.
pub open spec fn loaded_effect(e: EffectModel, a: EffectAnswers) -> EffectModel {
    match document(a.file) {
        Some(t) => {
            let f = effect_file_of(t);
            EffectModel {
                resolved: Some(
                    EffectFileModel { passes: with_materials(f.passes, a.materials), ..f },
                ),
                ..e
            }
        },
        None => e,
    }
}

/// What is wrong with the files of an effect.
pub open spec fn effect_complaints(e: EffectModel, a: EffectAnswers) -> Seq<Problem> {
    complaints(e.file, a.file) + match document(a.file) {
        Some(t) => {
            let f = effect_file_of(t);
            material_complaints(f.passes, a.materials, f.passes.len() as int)
        },
        None => Seq::empty(),
    }
}

/// What is wrong with the files of the first `k` effects.
pub open spec fn effects_complaints(
    effects: Seq<EffectModel>,
    answers: Seq<EffectAnswers>,
    k: int,
) -> Seq<Problem>
    decreases k,
{
    if k <= 0 {
        Seq::empty()
    } else {
        effects_complaints(effects, answers, k - 1) + effect_complaints(
            effects[k - 1],
            answers[k - 1],
        )
    }
}

/// What a source answered for an image: its model, the model's material, and
/// the files of its effects.
pub struct ImageAnswers {
    pub model: Answer,
    pub material: Answer,
    pub effects: Seq<EffectAnswers>,
}

/// The model file in an answer, if it is one.
pub open spec fn model_in(a: Answer) -> Option<ModelFileModel> {
    match document(a) {
        Some(t) => model_file_of(t),
        None => None,
    }
}

/// Whether the answers are those of a source that was asked for the files of
/// an image.
pub open spec fn image_asked<S: AssetSource>(source: &S, i: ImageModel, a: ImageAnswers) -> bool {
    &&& answers_with(source, i.image, a.model)
    &&& model_in(a.model) matches Some(m) ==> answers_with(source, m.material, a.material)
    &&& a.effects.len() == i.effects.len()
    &&& forall|k: int|
        0 <= k < i.effects.len() ==> effect_asked(source, i.effects[k], #[trigger] a.effects[k])
}

/// An image with the files that a source answered with.
pub open spec fn loaded_image(i: ImageModel, a: ImageAnswers) -> ImageModel {
    ImageModel {
        model: match model_in(a.model) {
            Some(m) => Some(m),
            None => i.model,
        },
        material: match (model_in(a.model), document(a.material)) {
            (Some(m), Some(t)) => Some(material_of(t)),
            _ => i.material,
        },
        effects: Seq::new(i.effects.len(), |k: int| loaded_effect(i.effects[k], a.effects[k])),
        ..i
    }
}

/// What is said of a model file without a material.
pub open spec fn missing_material() -> Seq<char> {
    "model file: required key `material` missing"@
}

/// What is wrong with the files of an image.
pub open spec fn image_complaints(i: ImageModel, a: ImageAnswers) -> Seq<Problem> {
    complaints(i.image, a.model) + match (document(a.model), model_in(a.model)) {
        (Some(t), Some(m)) => complaints(m.material, a.material),
        (Some(t), None) => seq![Problem { path: i.image, reason: missing_material() }],
        _ => Seq::empty(),
    } + effects_complaints(i.effects, a.effects, i.effects.len() as int)
}

impl ModelFileError {
    pub fn message(&self) -> (r: String)
        ensures
            r@ == missing_material(),
    {
        "model file: required key `material` missing".to_owned()
    }
}

fn load_materials<S: AssetSource>(
    passes: &mut Vec<EffectPass>,
    source: &S,
    problems: &mut Vec<AssetProblem>,
) -> (r: Ghost<Seq<Answer>>)
    ensures
        materials_asked(source, views(old(passes)@), r@),
        views(final(passes)@) == with_materials(views(old(passes)@), r@),
        views(final(problems)@) == views(old(problems)@) + material_complaints(
            views(old(passes)@),
            r@,
            r@.len() as int,
        ),
{
    let n: usize = passes.len();
    let ghost start = views(passes@);
    let ghost noted = views(problems@);
    let ghost mut answers: Seq<Answer> = Seq::empty();
    let mut i: usize = 0;
    assert(noted =~= noted + material_complaints(start, answers, 0));
    while i < n
        invariant
            i <= n,
            n == passes@.len(),
            start.len() == n,
            answers.len() == i,
            forall|j: int|
                0 <= j < i ==> (start[j].material matches Some(path) ==> answers_with(
                    source,
                    path,
                    #[trigger] answers[j],
                )),
            forall|j: int|
                0 <= j < i ==> (#[trigger] passes@[j])@ == with_material(start[j], answers[j]),
            forall|j: int| i <= j < n ==> (#[trigger] passes@[j])@ == start[j],
            views(problems@) == noted + material_complaints(start, answers, i as int),
        decreases n - i,
    {
        let ghost old_answers = answers;
        let ghost mut a: Answer = None;
        assert(passes@[i as int]@ == start[i as int]);
        let path: Option<String> = match &passes[i].material {
            Some(p) => Some(p.clone()),
            None => None,
        };
        if let Some(p) = path {
            let (v, got) = load_json(source, p.as_str(), problems);
            proof {
                a = got@;
            }
            if let Some(value) = v {
                passes[i].resolved = Some(Material::from_value(&value));
            }
        }
        proof {
            answers = answers.push(a);
            lemma_material_complaints_extend(start, old_answers, answers, i as int);
            assert(views(problems@) =~= noted + material_complaints(start, answers, i + 1));
        }
        i += 1;
    }
    assert(views(passes@) =~= with_materials(start, answers));
    Ghost(answers)
}

proof fn lemma_material_complaints_extend(
    passes: Seq<EffectPassModel>,
    a: Seq<Answer>,
    b: Seq<Answer>,
    k: int,
)
    requires
        0 <= k <= a.len() <= b.len(),
        forall|i: int| 0 <= i < a.len() ==> a[i] == b[i],
    ensures
        material_complaints(passes, a, k) == material_complaints(passes, b, k),
    decreases k,
{
    if k > 0 {
        lemma_material_complaints_extend(passes, a, b, k - 1);
    }
}

proof fn lemma_effects_complaints_extend(
    effects: Seq<EffectModel>,
    a: Seq<EffectAnswers>,
    b: Seq<EffectAnswers>,
    k: int,
)
    requires
        0 <= k <= a.len() <= b.len(),
        forall|i: int| 0 <= i < a.len() ==> a[i] == b[i],
    ensures
        effects_complaints(effects, a, k) == effects_complaints(effects, b, k),
    decreases k,
{
    if k > 0 {
        lemma_effects_complaints_extend(effects, a, b, k - 1);
    }
}

fn load_effect<S: AssetSource>(
    effect: &mut Effect,
    source: &S,
    problems: &mut Vec<AssetProblem>,
) -> (r: Ghost<EffectAnswers>)
    ensures
        effect_asked(source, old(effect)@, r@),
        final(effect)@ == loaded_effect(old(effect)@, r@),
        views(final(problems)@) == views(old(problems)@) + effect_complaints(old(effect)@, r@),
{
    let ghost noted = views(problems@);
    let ghost before = effect@;
    let path = effect.file.clone();
    let (v, got) = load_json(source, path.as_str(), problems);
    let ghost mut answers = EffectAnswers { file: got@, materials: Seq::empty() };
    if let Some(value) = v {
        let mut file = EffectFile::from_value(&value);
        let ghost f = file@;
        let materials = load_materials(&mut file.passes, source, problems);
        proof {
            answers = EffectAnswers { file: got@, materials: materials@ };
            assert(file@ == (EffectFileModel {
                passes: with_materials(f.passes, materials@),
                ..f
            }));
        }
        effect.resolved = Some(file);
    }
    assert(views(problems@) =~= noted + effect_complaints(before, answers));
    Ghost(answers)
}

fn load_effects<S: AssetSource>(
    effects: &mut Vec<Effect>,
    source: &S,
    problems: &mut Vec<AssetProblem>,
) -> (r: Ghost<Seq<EffectAnswers>>)
    ensures
        r@.len() == old(effects)@.len(),
        forall|k: int|
            0 <= k < r@.len() ==> effect_asked(source, views(old(effects)@)[k], #[trigger] r@[k]),
        views(final(effects)@) == Seq::new(
            old(effects)@.len(),
            |k: int| loaded_effect(views(old(effects)@)[k], r@[k]),
        ),
        views(final(problems)@) == views(old(problems)@) + effects_complaints(
            views(old(effects)@),
            r@,
            r@.len() as int,
        ),
{
    let n: usize = effects.len();
    let ghost start = views(effects@);
    let ghost noted = views(problems@);
    let ghost mut answers: Seq<EffectAnswers> = Seq::empty();
    let mut i: usize = 0;
    assert(noted =~= noted + effects_complaints(start, answers, 0));
    while i < n
        invariant
            i <= n,
            n == effects@.len(),
            start.len() == n,
            answers.len() == i,
            forall|j: int| 0 <= j < i ==> effect_asked(source, start[j], #[trigger] answers[j]),
            forall|j: int|
                0 <= j < i ==> (#[trigger] effects@[j])@ == loaded_effect(start[j], answers[j]),
            forall|j: int| i <= j < n ==> (#[trigger] effects@[j])@ == start[j],
            views(problems@) == noted + effects_complaints(start, answers, i as int),
        decreases n - i,
    {
        let ghost old_answers = answers;
        assert(effects@[i as int]@ == start[i as int]);
        let got = load_effect(&mut effects[i], source, problems);
        proof {
            answers = answers.push(got@);
            lemma_effects_complaints_extend(start, old_answers, answers, i as int);
            assert(views(problems@) =~= noted + effects_complaints(start, answers, i + 1));
        }
        i += 1;
    }
    assert(views(effects@) =~= Seq::new(
        old(effects)@.len(),
        |k: int| loaded_effect(views(old(effects)@)[k], answers[k]),
    ));
    Ghost(answers)
}

fn load_image_assets<S: AssetSource>(
    img: &mut ImageObject,
    source: &S,
    problems: &mut Vec<AssetProblem>,
) -> (r: Ghost<ImageAnswers>)
    ensures
        image_asked(source, old(img)@, r@),
        final(img)@ == loaded_image(old(img)@, r@),
        views(final(problems)@) == views(old(problems)@) + image_complaints(old(img)@, r@),
{
    let ghost noted = views(problems@);
    let ghost before = img@;
    let path = img.image.clone();
    let (v, model_answer) = load_json(source, path.as_str(), problems);
    let ghost mut material_answer: Answer = None;
    if let Some(value) = v {
        match ModelFile::from_value(&value) {
            Ok(model) => {
                let (w, got) = load_json(source, model.material.as_str(), problems);
                proof {
                    material_answer = got@;
                }
                if let Some(material) = w {
                    img.material = Some(Material::from_value(&material));
                }
                img.model = Some(model);
            },
            Err(e) => {
                let p = AssetProblem { path: img.image.clone(), reason: e.message() };
                proof {
                    lemma_views_push(problems@, p);
                }
                problems.push(p);
            },
        }
    }
    let effects = load_effects(&mut img.effects, source, problems);
    let ghost answers = ImageAnswers {
        model: model_answer@,
        material: material_answer,
        effects: effects@,
    };
    proof {
        assert(views(problems@) =~= noted + image_complaints(before, answers));
        assert(img@.effects =~= loaded_image(before, answers).effects);
    }
    Ghost(answers)
}

/// What a source answered for a particle object: its system, and the system's material.
pub struct ParticleAnswers {
    pub system: Answer,
    pub material: Answer,
}

/// Whether the answers are those of a source that was asked for the files of
/// a particle object.
pub open spec fn particle_asked<S: AssetSource>(
    source: &S,
    p: ParticleModel,
    a: ParticleAnswers,
) -> bool {
    &&& p.particle_file matches Some(path) ==> answers_with(source, path, a.system)
    &&& loaded_file(p, a.system).material matches Some(path) ==> answers_with(
        source,
        path,
        a.material,
    )
}

/// The system of a particle object with the file that a source answered with.
pub open spec fn loaded_file(p: ParticleModel, a: Answer) -> ParticleSystemModel {
    match (p.particle_file, document(a)) {
        (Some(path), Some(t)) => system_of(t),
        _ => p.system,
    }
}

/// A particle object with the files that a source answered with.
pub open spec fn loaded_particle(p: ParticleModel, a: ParticleAnswers) -> ParticleModel {
    let system = loaded_file(p, a.system);
    ParticleModel {
        system: match (system.material, document(a.material)) {
            (Some(path), Some(t)) => ParticleSystemModel {
                resolved_material: Some(material_of(t)),
                ..system
            },
            _ => system,
        },
        ..p
    }
}

/// What is wrong with the files of a particle object.
pub open spec fn particle_complaints(p: ParticleModel, a: ParticleAnswers) -> Seq<Problem> {
    let system = loaded_file(p, a.system);
    (match p.particle_file {
        Some(path) => complaints(path, a.system),
        None => Seq::empty(),
    }) + match system.material {
        Some(path) => complaints(path, a.material),
        None => Seq::empty(),
    }
}

fn load_particle_assets<S: AssetSource>(
    p: &mut ParticleObject,
    source: &S,
    problems: &mut Vec<AssetProblem>,
) -> (r: Ghost<ParticleAnswers>)
    ensures
        particle_asked(source, old(p)@, r@),
        final(p)@ == loaded_particle(old(p)@, r@),
        views(final(problems)@) == views(old(problems)@) + particle_complaints(old(p)@, r@),
{
    let ghost noted = views(problems@);
    let ghost before = p@;
    let ghost mut answers = ParticleAnswers { system: None, material: None };
    let file: Option<String> = match &p.particle_file {
        Some(f) => Some(f.clone()),
        None => None,
    };
    if let Some(path) = file {
        let (v, got) = load_json(source, path.as_str(), problems);
        proof {
            answers = ParticleAnswers { system: got@, ..answers };
        }
        if let Some(value) = v {
            p.system = ParticleSystem::from_value(&value);
        }
    }
    assert(p@.system == loaded_file(before, answers.system));
    let material: Option<String> = match &p.system.material {
        Some(f) => Some(f.clone()),
        None => None,
    };
    if let Some(path) = material {
        let (v, got) = load_json(source, path.as_str(), problems);
        proof {
            answers = ParticleAnswers { material: got@, ..answers };
        }
        if let Some(value) = v {
            p.system.resolved_material = Some(Material::from_value(&value));
        }
    }
    assert(views(problems@) =~= noted + particle_complaints(before, answers));
    Ghost(answers)
}

/// What a source answered for an object.
pub enum ObjectAnswers {
    Image(ImageAnswers),
    Particle(ParticleAnswers),
    Nothing,
}

/// An object with the files that a source answered with.
pub open spec fn loaded_object(o: ObjectModel, a: ObjectAnswers) -> ObjectModel {
    ObjectModel {
        kind: match (o.kind, a) {
            (KindModel::Image(i), ObjectAnswers::Image(x)) => KindModel::Image(loaded_image(i, x)),
            (KindModel::Particle(p), ObjectAnswers::Particle(x)) => KindModel::Particle(
                loaded_particle(p, x),
            ),
            (k, _) => k,
        },
        ..o
    }
}

/// Whether the answers are those of a source that was asked for the files of
/// an object.
pub open spec fn object_asked<S: AssetSource>(
    source: &S,
    o: ObjectModel,
    a: ObjectAnswers,
) -> bool {
    match (o.kind, a) {
        (KindModel::Image(i), ObjectAnswers::Image(x)) => image_asked(source, i, x),
        (KindModel::Particle(p), ObjectAnswers::Particle(x)) => particle_asked(source, p, x),
        (KindModel::Image(i), _) => false,
        (KindModel::Particle(p), _) => false,
        _ => a is Nothing,
    }
}

/// What is wrong with the files of an object.
pub open spec fn object_complaints(o: ObjectModel, a: ObjectAnswers) -> Seq<Problem> {
    match (o.kind, a) {
        (KindModel::Image(i), ObjectAnswers::Image(x)) => image_complaints(i, x),
        (KindModel::Particle(p), ObjectAnswers::Particle(x)) => particle_complaints(p, x),
        _ => Seq::empty(),
    }
}

/// What is wrong with the files of the first `k` objects.
pub open spec fn scene_complaints(
    objects: Seq<ObjectModel>,
    answers: Seq<ObjectAnswers>,
    k: int,
) -> Seq<Problem>
    decreases k,
{
    if k <= 0 {
        Seq::empty()
    } else {
        scene_complaints(objects, answers, k - 1) + object_complaints(
            objects[k - 1],
            answers[k - 1],
        )
    }
}

proof fn lemma_scene_complaints_extend(
    objects: Seq<ObjectModel>,
    a: Seq<ObjectAnswers>,
    b: Seq<ObjectAnswers>,
    k: int,
)
    requires
        0 <= k <= a.len() <= b.len(),
        forall|i: int| 0 <= i < a.len() ==> a[i] == b[i],
    ensures
        scene_complaints(objects, a, k) == scene_complaints(objects, b, k),
    decreases k,
{
    if k > 0 {
        lemma_scene_complaints_extend(objects, a, b, k - 1);
    }
}

fn load_object<S: AssetSource>(
    object: &mut Object,
    source: &S,
    problems: &mut Vec<AssetProblem>,
) -> (r: Ghost<ObjectAnswers>)
    ensures
        object_asked(source, old(object)@, r@),
        final(object)@ == loaded_object(old(object)@, r@),
        views(final(problems)@) == views(old(problems)@) + object_complaints(old(object)@, r@),
{
    let ghost noted = views(problems@);
    let ghost before = object@;
    let ghost mut answers = ObjectAnswers::Nothing;
    match &mut object.kind {
        ObjectKind::Image(img) => {
            let got = load_image_assets(img, source, problems);
            proof {
                answers = ObjectAnswers::Image(got@);
            }
        },
        ObjectKind::Particle(p) => {
            let got = load_particle_assets(p, source, problems);
            proof {
                answers = ObjectAnswers::Particle(got@);
            }
        },
        _ => {},
    }
    assert(views(problems@) =~= noted + object_complaints(before, answers));
    Ghost(answers)
}

/// A scene whose objects were given the files that a source answered with,
/// and then resolved.
pub open spec fn loaded_scene(
    s: SceneModelView,
    answers: Seq<ObjectAnswers>,
    bag: crate::property::Bag,
) -> SceneModelView {
    SceneModelView {
        objects: Seq::new(
            s.objects.len(),
            |i: int| resolved_object(loaded_object(s.objects[i], answers[i]), bag),
        ),
        ..s
    }
}

/// Whether a scene and its problems are what loading gives with these answers.
pub open spec fn load_outcome<S: AssetSource>(
    source: &S,
    before: SceneModelView,
    after: SceneModelView,
    problems: Seq<Problem>,
    bag: crate::property::Bag,
    answers: Seq<ObjectAnswers>,
) -> bool {
    &&& answers.len() == before.objects.len()
    &&& forall|i: int|
        0 <= i < before.objects.len() ==> object_asked(
            source,
            before.objects[i],
            #[trigger] answers[i],
        )
    &&& after == loaded_scene(before, answers, bag)
    &&& problems == scene_complaints(before.objects, answers, before.objects.len() as int)
}

impl SceneModel {
    /// Loads the files of a scene's objects, resolves the objects, and returns
    /// what is wrong with the files. What the source holds is not known here:
    /// it was asked for each file in turn, and the scene and the problems are
    /// those that come of its answers.
    pub fn load_assets<S: AssetSource>(&mut self, source: &S, bag: &PropertyBag) -> (problems: Vec<
        AssetProblem,
    >)
        ensures
            exists|answers: Seq<ObjectAnswers>| #[trigger]
                load_outcome(
                    source,
                    old(self).scene@,
                    final(self).scene@,
                    views(problems@),
                    bag@,
                    answers,
                ),
    {
        let mut problems: Vec<AssetProblem> = Vec::new();
        let ghost start = views(self.scene.objects@);
        let ghost before = self.scene@;
        let n: usize = self.scene.objects.len();
        let ghost mut answers: Seq<ObjectAnswers> = Seq::empty();
        let mut i: usize = 0;
        assert(views(problems@) =~= Seq::empty());
        while i < n
            invariant
                i <= n,
                n == self.scene.objects@.len(),
                start.len() == n,
                answers.len() == i,
                self.scene@ == (SceneModelView { objects: views(self.scene.objects@), ..before }),
                forall|j: int| 0 <= j < i ==> object_asked(source, start[j], #[trigger] answers[j]),
                forall|j: int|
                    0 <= j < i ==> (#[trigger] self.scene.objects@[j])@ == loaded_object(
                        start[j],
                        answers[j],
                    ),
                forall|j: int| i <= j < n ==> (#[trigger] self.scene.objects@[j])@ == start[j],
                views(problems@) == scene_complaints(start, answers, i as int),
            decreases n - i,
        {
            let ghost old_answers = answers;
            assert(self.scene.objects@[i as int]@ == start[i as int]);
            let got = load_object(&mut self.scene.objects[i], source, &mut problems);
            proof {
                answers = answers.push(got@);
                lemma_scene_complaints_extend(start, old_answers, answers, i as int);
            }
            i += 1;
        }
        resolve_objects(&mut self.scene.objects, bag);
        proof {
            assert(self.scene@.objects =~= loaded_scene(before, answers, bag@).objects);
            assert(load_outcome(source, before, self.scene@, views(problems@), bag@, answers));
        }
        problems
    }
}

/// The material in an answer, if it is a document.
pub open spec fn material_answered(a: Answer) -> Option<Seq<PassModel>> {
    match document(a) {
        Some(t) => Some(material_of(t)),
        None => None,
    }
}

/// The material that blends a layer with what is below it: none where the
/// layer has no colour blend mode, or where the source has none.
pub fn color_blend_material<S: AssetSource>(image: &ImageObject, source: &S) -> (r: Option<Material>)
    ensures
        image@.color_blend_mode.value <= 0 ==> r is None,
        image@.color_blend_mode.value > 0 ==> exists|a: Answer| #[trigger]
            answers_with(source, COLOR_BLEND_MATERIAL@, a) && opt_view(r) == material_answered(a),
{
    if image.color_blend_mode.value <= 0 {
        return None;
    }
    let loaded = source.load(COLOR_BLEND_MATERIAL);
    assert(call_ensures(S::load, (source, COLOR_BLEND_MATERIAL), loaded));
    let ghost a: Answer = opt_view(loaded);
    assert(answers_with(source, COLOR_BLEND_MATERIAL@, a));
    match loaded {
        Some(bytes) => match parse(bytes.as_slice()) {
            Ok(v) => Some(Material::from_value(&v)),
            Err(_) => None,
        },
        None => None,
    }
}

} // verus!
