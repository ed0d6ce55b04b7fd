//! What a user property shows, hides or makes over.
use std::collections::HashMap;

use vstd::prelude::*;

use crate::copy::Duplicate;
use crate::object::{
    AnimationLayer, AnimationLayerModel, EffectModel, ImageModel, ImageObject, KindModel, Object,
    ObjectKind, ObjectModel, ParticleModel, ParticleObject, TextModel, TextObject,
};
use crate::property::{Bag, PropertyBag};
use crate::resolve::{resolve_us, resolved};
use crate::scene::{Scene, SceneModelView};
use crate::strings::{lemma_views_push, opt_view, views};
use crate::table::TextSet;
use crate::user::{Reference, Setting, UserRef, UserSetting};

verus! {

broadcast use vstd::std_specs::hash::group_hash_axioms;

/// How many ancestors are looked at.
pub const ANCESTOR_LIMIT: u32 = 64;

/// The parent of an object, if it is known to have one.
pub open spec fn parent_of(parents: Map<i64, Option<i64>>, id: i64) -> Option<i64> {
    if parents.contains_key(id) {
        parents[id]
    } else {
        None
    }
}

/// Whether an object and its ancestors, at most `steps` in all, are visible.
/// An object of which nothing is known is.
pub open spec fn line_visible(
    parents: Map<i64, Option<i64>>,
    visible: Map<i64, bool>,
    start: Option<i64>,
    steps: nat,
) -> bool
    decreases steps,
{
    match start {
        None => true,
        Some(id) => if steps == 0 {
            true
        } else if visible.contains_key(id) && !visible[id] {
            false
        } else {
            line_visible(parents, visible, parent_of(parents, id), (steps - 1) as nat)
        },
    }
}

/// Whether an object and its ancestors are visible.
pub fn ancestors_visible(
    parent_by_id: &HashMap<i64, Option<i64>>,
    visible_by_id: &HashMap<i64, bool>,
    start: Option<i64>,
) -> (r: bool)
    ensures
        r == line_visible(parent_by_id@, visible_by_id@, start, ANCESTOR_LIMIT as nat),
{
    let mut cur: Option<i64> = start;
    let mut left: u32 = ANCESTOR_LIMIT;
    while left > 0
        invariant
            left <= ANCESTOR_LIMIT,
            line_visible(parent_by_id@, visible_by_id@, start, ANCESTOR_LIMIT as nat)
                == line_visible(parent_by_id@, visible_by_id@, cur, left as nat),
        decreases left,
    {
        match cur {
            None => {
                return true;
            },
            Some(id) => {
                if let Some(v) = visible_by_id.get(&id) {
                    if !*v {
                        return false;
                    }
                }
                cur = match parent_by_id.get(&id) {
                    Some(p) => *p,
                    None => None,
                };
            },
        }
        left -= 1;
    }
    true
}

/// A hidden object is not shown, and neither is any object that hangs from it.
pub proof fn law_hidden_parents_hide(
    parents: Map<i64, Option<i64>>,
    visible: Map<i64, bool>,
    id: i64,
    steps: nat,
)
    requires
        visible.contains_key(id) && !visible[id],
        steps > 0,
    ensures
        !line_visible(parents, visible, Some(id), steps),
        forall|child: i64|
            parent_of(parents, child) == Some(id) ==> !#[trigger] line_visible(
                parents,
                visible,
                Some(child),
                steps + 1,
            ),
{
    assert forall|child: i64| parent_of(parents, child) == Some(id) implies !#[trigger] line_visible(
        parents,
        visible,
        Some(child),
        steps + 1,
    ) by {
        assert((steps + 1 - 1) as nat == steps);
        assert(!line_visible(parents, visible, parent_of(parents, child), steps));
    }
}

/// The visibility of an object that a user property drives.
#[derive(Debug)]
pub struct VisBinding {
    pub id: i64,
    pub base: UserSetting<bool>,
    /// The visibility of its own that an image has.
    pub image: Option<UserSetting<bool>>,
}

/// What a [`VisBinding`] holds.
pub struct BindingModel {
    pub id: i64,
    pub base: Setting<bool>,
    pub image: Option<Setting<bool>>,
}

impl View for VisBinding {
    type V = BindingModel;

    open spec fn view(&self) -> BindingModel {
        BindingModel { id: self.id, base: self.base@, image: opt_view(self.image) }
    }
}

/// The visibility of its own that an image has.
pub open spec fn image_visibility(o: ObjectModel) -> Option<Setting<bool>> {
    match o.kind {
        KindModel::Image(i) => Some(i.visible),
        _ => None,
    }
}

/// Whether a user property drives the visibility of an object.
pub open spec fn visibility_bound(o: ObjectModel) -> bool {
    o.base.visible.user is Some || (image_visibility(o) matches Some(v) && v.user is Some)
}

/// The driven visibilities among the first `k` objects.
pub open spec fn bindings_upto(objects: Seq<ObjectModel>, k: int) -> Seq<BindingModel>
    decreases k,
{
    if k <= 0 {
        Seq::empty()
    } else {
        let before = bindings_upto(objects, k - 1);
        let o = objects[k - 1];
        if visibility_bound(o) {
            before.push(
                BindingModel { id: o.base.id, base: o.base.visible, image: image_visibility(o) },
            )
        } else {
            before
        }
    }
}

pub fn collect_visibility_bindings(scene: &Scene) -> (r: Vec<VisBinding>)
    ensures
        views(r@) == bindings_upto(scene@.objects, scene@.objects.len() as int),
{
    let ghost all = scene@.objects;
    let mut out: Vec<VisBinding> = Vec::new();
    let mut i: usize = 0;
    assert(views(out@) =~= Seq::empty());
    while i < scene.objects.len()
        invariant
            i <= scene.objects@.len(),
            all == views(scene.objects@),
            views(out@) == bindings_upto(all, i as int),
        decreases scene.objects@.len() - i,
    {
        broadcast use lemma_views_push;

        let o = &scene.objects[i];
        assert(all[i as int] == o@);
        let image: Option<UserSetting<bool>> = match &o.kind {
            ObjectKind::Image(img) => Some(img.visible.duplicate()),
            _ => None,
        };
        let image_bound = match &image {
            Some(v) => v.user.is_some(),
            None => false,
        };
        if o.base.visible.user.is_some() || image_bound {
            out.push(VisBinding { id: o.base.id, base: o.base.visible.duplicate(), image });
        }
        i += 1;
    }
    out
}

/// Whether a driven visibility shows its object.
pub open spec fn binding_shows(b: BindingModel) -> bool {
    b.base.value && (b.image matches Some(v) ==> v.value)
}

/// A driven visibility with changed properties.
pub open spec fn rebound(b: BindingModel, bag: Bag) -> BindingModel {
    BindingModel {
        base: resolved::<bool>(b.base, bag),
        image: match b.image {
            Some(v) => Some(resolved::<bool>(v, bag)),
            None => None,
        },
        ..b
    }
}

impl VisBinding {
    /// Takes the changed properties, and says whether the object is shown.
    pub fn reresolve(&mut self, bag: &PropertyBag) -> (shown: bool)
        ensures
            final(self)@ == rebound(old(self)@, bag@),
            shown == binding_shows(final(self)@),
    {
        resolve_us(&mut self.base, bag);
        let mut shown = self.base.value;
        if let Some(img) = &mut self.image {
            resolve_us(img, bag);
            shown = shown && img.value;
        }
        shown
    }
}

/// The visibility of an effect that a user property drives, and the one that
/// the layer was planned with.
#[derive(Debug)]
pub struct EffectVisBinding {
    pub us: UserSetting<bool>,
    pub planned: bool,
}

/// What an [`EffectVisBinding`] holds.
pub struct EffectBindingModel {
    pub us: Setting<bool>,
    pub planned: bool,
}

impl View for EffectVisBinding {
    type V = EffectBindingModel;

    open spec fn view(&self) -> EffectBindingModel {
        EffectBindingModel { us: self.us@, planned: self.planned }
    }
}

/// The driven visibilities among the first `k` effects of an image.
pub open spec fn effect_bindings_upto(effects: Seq<EffectModel>, k: int) -> Seq<EffectBindingModel>
    decreases k,
{
    if k <= 0 {
        Seq::empty()
    } else {
        let before = effect_bindings_upto(effects, k - 1);
        let v = effects[k - 1].visible;
        if v.user is Some {
            before.push(EffectBindingModel { us: v, planned: v.value })
        } else {
            before
        }
    }
}

/// The driven visibilities of effects among the first `k` objects.
pub open spec fn scene_effect_bindings(objects: Seq<ObjectModel>, k: int) -> Seq<EffectBindingModel>
    decreases k,
{
    if k <= 0 {
        Seq::empty()
    } else {
        let before = scene_effect_bindings(objects, k - 1);
        match objects[k - 1].kind {
            KindModel::Image(i) => before + effect_bindings_upto(i.effects, i.effects.len() as int),
            _ => before,
        }
    }
}

pub fn collect_effect_vis_bindings(scene: &Scene) -> (r: Vec<EffectVisBinding>)
    ensures
        views(r@) == scene_effect_bindings(scene@.objects, scene@.objects.len() as int),
{
    let ghost all = scene@.objects;
    let mut out: Vec<EffectVisBinding> = Vec::new();
    let mut i: usize = 0;
    assert(views(out@) =~= Seq::empty());
    while i < scene.objects.len()
        invariant
            i <= scene.objects@.len(),
            all == views(scene.objects@),
            views(out@) == scene_effect_bindings(all, i as int),
        decreases scene.objects@.len() - i,
    {
        let o = &scene.objects[i];
        assert(all[i as int] == o@);
        if let ObjectKind::Image(img) = &o.kind {
            let ghost start = views(out@);
            let ghost effects = views(img.effects@);
            let mut k: usize = 0;
            assert(start =~= start + effect_bindings_upto(effects, 0));
            while k < img.effects.len()
                invariant
                    k <= img.effects@.len(),
                    effects == views(img.effects@),
                    views(out@) == start + effect_bindings_upto(effects, k as int),
                decreases img.effects@.len() - k,
            {
                let e = &img.effects[k];
                assert(effects[k as int] == e@);
                if e.visible.user.is_some() {
                    let b = EffectVisBinding {
                        us: e.visible.duplicate(),
                        planned: e.visible.value,
                    };
                    proof {
                        lemma_views_push(out@, b);
                        assert(views(out@).push(b@) =~= start + effect_bindings_upto(
                            effects,
                            k + 1,
                        ));
                    }
                    out.push(b);
                }
                k += 1;
            }
        }
        i += 1;
    }
    out
}

/// Whether the first `k` effects are, with changed properties, as they were planned.
pub open spec fn effects_as_planned(bindings: Seq<EffectBindingModel>, bag: Bag, k: int) -> bool {
    forall|i: int|
        0 <= i < k ==> resolved::<bool>((#[trigger] bindings[i]).us, bag).value
            == bindings[i].planned
}

/// Takes the changed properties, and says whether an effect is no longer as
/// it was planned.
pub fn effects_diverge(bindings: &mut Vec<EffectVisBinding>, bag: &PropertyBag) -> (r: bool)
    ensures
        r == !effects_as_planned(views(old(bindings)@), bag@, old(bindings)@.len() as int),
        final(bindings)@.len() == old(bindings)@.len(),
        forall|i: int|
            0 <= i < final(bindings)@.len() ==> (#[trigger] final(bindings)@[i])@ == (
            EffectBindingModel {
                us: resolved::<bool>(old(bindings)@[i]@.us, bag@),
                planned: old(bindings)@[i]@.planned,
            }),
{
    let ghost start = views(bindings@);
    let n: usize = bindings.len();
    let mut diverged = false;
    let mut i: usize = 0;
    while i < n
        invariant
            i <= n,
            n == bindings@.len(),
            start.len() == n,
            diverged == !effects_as_planned(start, bag@, i as int),
            forall|j: int|
                0 <= j < i ==> (#[trigger] bindings@[j])@ == (EffectBindingModel {
                    us: resolved::<bool>(start[j].us, bag@),
                    planned: start[j].planned,
                }),
            forall|j: int| i <= j < n ==> (#[trigger] bindings@[j])@ == start[j],
        decreases n - i,
    {
        assert(bindings@[i as int]@ == start[i as int]);
        resolve_us(&mut bindings[i].us, bag);
        let b = &bindings[i];
        if b.us.value != b.planned {
            assert(resolved::<bool>(start[i as int].us, bag@).value != start[i as int].planned);
            diverged = true;
        }
        i += 1;
    }
    diverged
}

/// The property that a setting follows.
pub open spec fn follows(user: Option<Reference>) -> Set<Seq<char>> {
    match user {
        Some(r) => Set::<Seq<char>>::empty().insert(r.name()),
        None => Set::<Seq<char>>::empty(),
    }
}

/// The properties that the first `k` animation layers follow.
pub open spec fn layer_names(layers: Seq<AnimationLayerModel>, k: int) -> Set<Seq<char>>
    decreases k,
{
    if k <= 0 {
        Set::empty()
    } else {
        let l = layers[k - 1];
        layer_names(layers, k - 1) + follows(l.rate.user) + follows(l.visible.user) + follows(
            l.blend.user,
        ) + follows(l.animation.user)
    }
}

/// The properties that the make-up of an image follows.
pub open spec fn image_names(i: ImageModel) -> Set<Seq<char>> {
    follows(i.scale.user) + follows(i.angles.user) + follows(i.color_blend_mode.user) + layer_names(
        i.animationlayers,
        i.animationlayers.len() as int,
    )
}

/// The properties that the make-up of a particle system follows.
pub open spec fn particle_names(p: ParticleModel) -> Set<Seq<char>> {
    let o = p.instanceoverride;
    follows(p.scale.user) + follows(p.angles.user) + follows(p.visible.user) + follows(
        o.enabled.user,
    ) + follows(o.alpha.user) + follows(o.size.user) + follows(o.lifetime.user) + follows(
        o.rate.user,
    ) + follows(o.speed.user) + follows(o.count.user) + follows(o.color.user) + follows(
        o.colorn.user,
    )
}

/// The properties that the make-up of a text follows.
pub open spec fn text_names(t: TextModel) -> Set<Seq<char>> {
    follows(t.text.user) + follows(t.pointsize.user) + follows(t.scale.user) + follows(t.color.user)
        + follows(t.alpha.user) + follows(t.visible.user)
}

/// The properties that the make-up of an object follows.
pub open spec fn object_names(o: ObjectModel) -> Set<Seq<char>> {
    follows(o.base.origin.user) + follows(o.base.scale.user) + follows(o.base.angles.user)
        + match o.kind {
        KindModel::Image(i) => image_names(i),
        KindModel::Particle(p) => particle_names(p),
        KindModel::Text(t) => text_names(t),
        _ => Set::<Seq<char>>::empty(),
    }
}

/// The properties that the make-up of the first `k` objects follows.
pub open spec fn objects_names(objects: Seq<ObjectModel>, k: int) -> Set<Seq<char>>
    decreases k,
{
    if k <= 0 {
        Set::empty()
    } else {
        objects_names(objects, k - 1) + object_names(objects[k - 1])
    }
}

/// The properties that a scene cannot take without being built anew.
pub open spec fn structural_names(s: SceneModelView) -> Set<Seq<char>> {
    follows(s.general.bloom.user) + objects_names(s.objects, s.objects.len() as int)
}

fn add_name(out: &mut TextSet, user: &Option<UserRef>)
    ensures
        final(out)@ == old(out)@ + follows(opt_view(*user)),
{
    match user {
        Some(u) => {
            let fresh = out.insert(u.name());
            assert(out@ =~= old(out)@ + follows(opt_view(*user)));
        },
        None => {
            assert(out@ =~= old(out)@ + follows(opt_view(*user)));
        },
    }
}

fn add_layers(out: &mut TextSet, layers: &Vec<AnimationLayer>)
    ensures
        final(out)@ == old(out)@ + layer_names(views(layers@), layers@.len() as int),
{
    let ghost all = views(layers@);
    let ghost start = out@;
    let mut i: usize = 0;
    assert(start =~= start + layer_names(all, 0));
    while i < layers.len()
        invariant
            i <= layers@.len(),
            all == views(layers@),
            out@ == start + layer_names(all, i as int),
        decreases layers@.len() - i,
    {
        let l = &layers[i];
        assert(all[i as int] == l@);
        add_name(out, &l.rate.user);
        add_name(out, &l.visible.user);
        add_name(out, &l.blend.user);
        add_name(out, &l.animation.user);
        assert(out@ =~= start + layer_names(all, i + 1));
        i += 1;
    }
}

fn add_image(out: &mut TextSet, img: &ImageObject)
    ensures
        final(out)@ == old(out)@ + image_names(img@),
{
    let ghost start = out@;
    add_name(out, &img.scale.user);
    add_name(out, &img.angles.user);
    add_name(out, &img.color_blend_mode.user);
    add_layers(out, &img.animationlayers);
    assert(out@ =~= start + image_names(img@));
}

fn add_particle(out: &mut TextSet, p: &ParticleObject)
    ensures
        final(out)@ == old(out)@ + particle_names(p@),
{
    let ghost start = out@;
    let o = &p.instanceoverride;
    add_name(out, &p.scale.user);
    add_name(out, &p.angles.user);
    add_name(out, &p.visible.user);
    add_name(out, &o.enabled.user);
    add_name(out, &o.alpha.user);
    add_name(out, &o.size.user);
    add_name(out, &o.lifetime.user);
    add_name(out, &o.rate.user);
    add_name(out, &o.speed.user);
    add_name(out, &o.count.user);
    add_name(out, &o.color.user);
    add_name(out, &o.colorn.user);
    assert(out@ =~= start + particle_names(p@));
}

fn add_text(out: &mut TextSet, t: &TextObject)
    ensures
        final(out)@ == old(out)@ + text_names(t@),
{
    let ghost start = out@;
    add_name(out, &t.text.user);
    add_name(out, &t.pointsize.user);
    add_name(out, &t.scale.user);
    add_name(out, &t.color.user);
    add_name(out, &t.alpha.user);
    add_name(out, &t.visible.user);
    assert(out@ =~= start + text_names(t@));
}

fn add_object(out: &mut TextSet, o: &Object)
    ensures
        final(out)@ == old(out)@ + object_names(o@),
{
    let ghost start = out@;
    add_name(out, &o.base.origin.user);
    add_name(out, &o.base.scale.user);
    add_name(out, &o.base.angles.user);
    match &o.kind {
        ObjectKind::Image(img) => add_image(out, img),
        ObjectKind::Particle(p) => add_particle(out, p),
        ObjectKind::Text(t) => add_text(out, t),
        _ => {},
    }
    assert(out@ =~= start + object_names(o@));
}

/// The properties that a scene cannot take without being built anew.
pub fn collect_structural_props(scene: &Scene) -> (r: TextSet)
    ensures
        r@ == structural_names(scene@),
{
    let ghost all = scene@.objects;
    let mut out = TextSet::new();
    add_name(&mut out, &scene.general.bloom.user);
    let ghost start = out@;
    assert(start =~= follows(scene@.general.bloom.user));
    let mut i: usize = 0;
    assert(start =~= start + objects_names(all, 0));
    while i < scene.objects.len()
        invariant
            i <= scene.objects@.len(),
            all == views(scene.objects@),
            out@ == start + objects_names(all, i as int),
        decreases scene.objects@.len() - i,
    {
        assert(all[i as int] == scene.objects@[i as int]@);
        add_object(&mut out, &scene.objects[i]);
        assert(out@ =~= start + objects_names(all, i + 1));
        i += 1;
    }
    out
}

/// What a changed property asks of a scene that is shown.
#[derive(Clone, Copy, Debug, PartialEq, Eq, Structural)]
pub enum PropertyImpact {
    Live,
    NeedsRebuild,
}

/// What a changed property asks for: a scene is built anew where the property
/// is structural, or an effect is no longer as it was planned.
pub fn property_impact(structural: &TextSet, key: &str, effects_diverged: bool) -> (r: PropertyImpact)
    ensures
        r == (if effects_diverged || structural@.contains(key@) {
            PropertyImpact::NeedsRebuild
        } else {
            PropertyImpact::Live
        }),
{
    if effects_diverged || structural.contains(key) {
        PropertyImpact::NeedsRebuild
    } else {
        PropertyImpact::Live
    }
}

} // verus!
