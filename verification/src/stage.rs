//! A scene while it is shown: how scripts, animations and user properties
//! change it.
use std::collections::HashMap;

use vstd::prelude::*;

use crate::frame::{in_layer_order, sort_items, VideoState};
use crate::items::{
    apply_aspect, apply_material_op, apply_script_updates, change_all, changed_all, items_after,
    material_set, with_properties, Aspect, Hide, ImageItemModel, ItemModel, Properties, Reparent,
    SceneItem, ShowImage,
};
use crate::orders::{
    after_video_ops, calls_upto, lists_of, particle_calls, particle_orders, video_orders, Act,
    ParticleAct, ParticleCall,
};
use crate::property::{Bag, PropertyBag};
use crate::resolve::{resolved_camera, resolved_general};
use crate::runtime::{
    after_creations, after_removal, after_sorting, distinct_ids, layers_after, runtime_at,
    lemma_runtime_at, RuntimeLayers, RuntimeModel, RuntimeState, RuntimeTemplate, TemplateModel,
};
use crate::scene::{Camera, CameraModel, General, GeneralModel};
use crate::script::{
    as_f32, as_flag, as_rgb, colour_of, flag_of, number_of, ScriptValue, Scripted,
};
use crate::scripting::{
    CameraOp, HostModel, LayerModel, PropTarget, PropUpdate, ScriptHost, UpdateModel,
};
use crate::strings::{lemma_views_push, same_text, views};
use crate::table::TextSet;
use crate::transforms::{
    apply_image_transforms, local_views, moved_ids, moved_images, places_after, LocalModel, LocalXf,
};
use crate::user::{Setting, UserSetting};
use crate::value::{Color, Number, Scalar, Vec3, ONE_BITS};
use crate::visibility::{
    binding_shows, effects_as_planned, effects_diverge, property_impact, rebound, BindingModel,
    EffectBindingModel, EffectVisBinding, PropertyImpact, VisBinding,
};

verus! {

broadcast use vstd::std_specs::hash::group_hash_axioms;

/// A setting with another value.
pub open spec fn with_value<W>(s: Setting<W>, value: W) -> Setting<W> {
    Setting { value, ..s }
}

/// A setting with another value, if there is one.
pub open spec fn with_given<W>(s: Setting<W>, value: Option<W>) -> Setting<W> {
    match value {
        Some(v) => with_value(s, v),
        None => s,
    }
}

/// A colour without transparency.
pub open spec fn opaque(c: Option<(Number, Number, Number)>) -> Option<
    (Number, Number, Number, Number),
> {
    match c {
        Some(v) => Some((v.0, v.1, v.2, Number::Single(ONE_BITS))),
        None => None,
    }
}

/// The settings of a scene after a script set `name`. A name that is none, or
/// a value that does not fit it, changes nothing.
pub open spec fn general_after(g: GeneralModel, name: Seq<char>, value: Scripted) -> GeneralModel {
    let flag = flag_of(value);
    let number = number_of(value);
    let colour = opaque(colour_of(value));
    if name == "bloom"@ {
        GeneralModel { bloom: with_given(g.bloom, flag), ..g }
    } else if name == "bloomstrength"@ {
        GeneralModel { bloomstrength: with_given(g.bloomstrength, number), ..g }
    } else if name == "bloomthreshold"@ {
        GeneralModel { bloomthreshold: with_given(g.bloomthreshold, number), ..g }
    } else if name == "camerafade"@ {
        GeneralModel { camerafade: with_given(g.camerafade, flag), ..g }
    } else if name == "camerashake"@ {
        GeneralModel { camerashake: with_given(g.camerashake, flag), ..g }
    } else if name == "camerashakespeed"@ {
        GeneralModel { camerashakespeed: with_given(g.camerashakespeed, number), ..g }
    } else if name == "camerashakeamplitude"@ {
        GeneralModel { camerashakeamplitude: with_given(g.camerashakeamplitude, number), ..g }
    } else if name == "camerashakeroughness"@ {
        GeneralModel { camerashakeroughness: with_given(g.camerashakeroughness, number), ..g }
    } else if name == "cameraparallax"@ {
        GeneralModel { cameraparallax: with_given(g.cameraparallax, flag), ..g }
    } else if name == "cameraparallaxamount"@ {
        GeneralModel { cameraparallaxamount: with_given(g.cameraparallaxamount, number), ..g }
    } else if name == "cameraparallaxdelay"@ {
        GeneralModel { cameraparallaxdelay: with_given(g.cameraparallaxdelay, number), ..g }
    } else if name == "cameraparallaxmouseinfluence"@ {
        GeneralModel {
            cameraparallaxmouseinfluence: with_given(g.cameraparallaxmouseinfluence, number),
            ..g
        }
    } else if name == "clearcolor"@ {
        GeneralModel { clearcolor: with_given(g.clearcolor, colour), ..g }
    } else if name == "ambientcolor"@ {
        GeneralModel { ambientcolor: with_given(g.ambientcolor, colour), ..g }
    } else if name == "skylightcolor"@ {
        GeneralModel { skylightcolor: with_given(g.skylightcolor, colour), ..g }
    } else {
        g
    }
}

/// Whether a setting is one that the bloom is tuned by.
pub open spec fn tunes_bloom(name: Seq<char>) -> bool {
    name == "bloomstrength"@ || name == "bloomthreshold"@
}

fn set_flag(s: &mut UserSetting<bool>, value: &ScriptValue)
    ensures
        final(s)@ == with_given(old(s)@, flag_of(value@)),
{
    if let Some(b) = as_flag(value) {
        s.value = b;
    }
}

fn set_number(s: &mut UserSetting<Scalar>, value: &ScriptValue)
    ensures
        final(s)@ == with_given(old(s)@, number_of(value@)),
{
    if let Some(n) = as_f32(value) {
        s.value = n;
    }
}

fn set_colour(s: &mut UserSetting<Color>, value: &ScriptValue)
    ensures
        final(s)@ == with_given(old(s)@, opaque(colour_of(value@))),
{
    if let Some(c) = as_rgb(value) {
        s.value = Color { r: c.x, g: c.y, b: c.z, a: Scalar::Single(ONE_BITS) };
    }
}

/// Sets a setting of the scene. Returns whether the bloom is tuned by it.
pub fn apply_scene_property(g: &mut General, name: &str, value: &ScriptValue) -> (r: bool)
    ensures
        final(g)@ == general_after(old(g)@, name@, value@),
        r == tunes_bloom(name@),
{
    let tunes = same_text(name, "bloomstrength") || same_text(name, "bloomthreshold");
    if same_text(name, "bloom") {
        set_flag(&mut g.bloom, value);
    } else if same_text(name, "bloomstrength") {
        set_number(&mut g.bloomstrength, value);
    } else if same_text(name, "bloomthreshold") {
        set_number(&mut g.bloomthreshold, value);
    } else if same_text(name, "camerafade") {
        set_flag(&mut g.camerafade, value);
    } else if same_text(name, "camerashake") {
        set_flag(&mut g.camerashake, value);
    } else if same_text(name, "camerashakespeed") {
        set_number(&mut g.camerashakespeed, value);
    } else if same_text(name, "camerashakeamplitude") {
        set_number(&mut g.camerashakeamplitude, value);
    } else if same_text(name, "camerashakeroughness") {
        set_number(&mut g.camerashakeroughness, value);
    } else if same_text(name, "cameraparallax") {
        set_flag(&mut g.cameraparallax, value);
    } else if same_text(name, "cameraparallaxamount") {
        set_number(&mut g.cameraparallaxamount, value);
    } else if same_text(name, "cameraparallaxdelay") {
        set_number(&mut g.cameraparallaxdelay, value);
    } else if same_text(name, "cameraparallaxmouseinfluence") {
        set_number(&mut g.cameraparallaxmouseinfluence, value);
    } else if same_text(name, "clearcolor") {
        set_colour(&mut g.clearcolor, value);
    } else if same_text(name, "ambientcolor") {
        set_colour(&mut g.ambientcolor, value);
    } else if same_text(name, "skylightcolor") {
        set_colour(&mut g.skylightcolor, value);
    }
    tunes
}

/// The settings after the first `k` changes.
pub open spec fn general_after_all(
    g: GeneralModel,
    ops: Seq<(Seq<char>, Scripted)>,
    k: int,
) -> GeneralModel
    decreases k,
{
    if k <= 0 {
        g
    } else {
        general_after(general_after_all(g, ops, k - 1), ops[k - 1].0, ops[k - 1].1)
    }
}

/// Three singles as a vector.
pub open spec fn point(v: [u32; 3]) -> (Number, Number, Number) {
    (Number::Single(v[0]), Number::Single(v[1]), Number::Single(v[2]))
}

fn point_of(v: [u32; 3]) -> (r: Vec3)
    ensures
        r@ == point(v),
{
    Vec3 { x: Scalar::Single(v[0]), y: Scalar::Single(v[1]), z: Scalar::Single(v[2]) }
}

/// The camera after a script moved it.
pub open spec fn camera_after(c: CameraModel, op: Option<CameraOp>) -> CameraModel {
    match op {
        Some(o) => CameraModel {
            eye: match o.eye {
                Some(v) => point(v),
                None => c.eye,
            },
            center: match o.center {
                Some(v) => point(v),
                None => c.center,
            },
            up: match o.up {
                Some(v) => point(v),
                None => c.up,
            },
            fov: match o.fov {
                Some(f) => with_value(c.fov, Number::Single(f)),
                None => c.fov,
            },
            ..c
        },
        None => c,
    }
}

/// The zoom that a script asks for: a positive one. The bits are a single's.
pub open spec fn asked_zoom(op: Option<CameraOp>) -> Option<u32> {
    match op {
        Some(o) => positive_zoom(o.zoom),
        None => None,
    }
}

/// A zoom that is above zero.
pub open spec fn positive_zoom(zoom: Option<u32>) -> Option<u32> {
    match zoom {
        Some(z) => if 0 < z <= 0x7f80_0000 {
            Some(z)
        } else {
            None
        },
        None => None,
    }
}

fn move_camera(c: &mut Camera, op: &Option<CameraOp>)
    ensures
        final(c)@ == camera_after(old(c)@, *op),
{
    if let Some(o) = op {
        if let Some(v) = o.eye {
            c.eye = point_of(v);
        }
        if let Some(v) = o.center {
            c.center = point_of(v);
        }
        if let Some(v) = o.up {
            c.up = point_of(v);
        }
        if let Some(f) = o.fov {
            c.fov.value = Scalar::Single(f);
        }
    }
}

/// A scene while it is shown.
#[derive(Debug)]
pub struct Stage {
    pub items: Vec<SceneItem>,
    pub runtime: RuntimeLayers,
    pub templates: Vec<RuntimeTemplate>,
    pub parents: HashMap<i64, Option<i64>>,
    pub visible: HashMap<i64, bool>,
    pub locals: HashMap<i64, LocalXf>,
    pub general: General,
    pub camera: Camera,
    pub videos: Vec<VideoState>,
    /// For each video, the positions of the items that show it.
    pub video_users: Vec<Vec<usize>>,
    pub bindings: Vec<VisBinding>,
    pub effect_bindings: Vec<EffectVisBinding>,
    pub structural: TextSet,
}

/// What a [`Stage`] holds.
pub struct StageModel {
    pub items: Seq<ItemModel>,
    pub runtime: RuntimeState,
    pub templates: Seq<TemplateModel>,
    pub parents: Map<i64, Option<i64>>,
    pub visible: Map<i64, bool>,
    pub locals: Map<i64, LocalModel>,
    pub general: GeneralModel,
    pub camera: CameraModel,
    pub videos: Seq<VideoState>,
    pub video_users: Seq<Seq<usize>>,
    pub bindings: Seq<BindingModel>,
    pub effect_bindings: Seq<EffectBindingModel>,
    pub structural: Set<Seq<char>>,
}

impl View for Stage {
    type V = StageModel;

    open spec fn view(&self) -> StageModel {
        StageModel {
            items: views(self.items@),
            runtime: self.runtime@,
            templates: views(self.templates@),
            parents: self.parents@,
            visible: self.visible@,
            locals: local_views(self.locals@),
            general: self.general@,
            camera: self.camera@,
            videos: self.videos@,
            video_users: lists_of(self.video_users@),
            bindings: views(self.bindings@),
            effect_bindings: views(self.effect_bindings@),
            structural: self.structural@,
        }
    }
}

/// The items after the first `k` constants that scripts set.
pub open spec fn materials_set(
    items: Seq<ItemModel>,
    ops: Seq<(i64, usize, Seq<char>, Scripted)>,
    k: int,
) -> Seq<ItemModel>
    decreases k,
{
    if k <= 0 {
        items
    } else {
        let op = ops[k - 1];
        material_set(materials_set(items, ops, k - 1), op.0, op.1, op.2, op.3)
    }
}

/// The items with those of an object hidden.
pub open spec fn hidden(items: Seq<ItemModel>, id: i64) -> Seq<ItemModel> {
    Seq::new(
        items.len(),
        |i: int|
            if items[i].id() == id {
                items[i].with_visible(false)
            } else {
                items[i]
            },
    )
}

/// The scene after a script destroyed a layer: one that a script made goes,
/// one of the scene itself is hidden.
pub open spec fn after_destruction(s: StageModel, id: i64) -> StageModel {
    if runtime_at(s.runtime.layers, id, 0) is Some {
        StageModel { runtime: after_removal(s.runtime, id), ..s }
    } else {
        StageModel { visible: s.visible.insert(id, false), items: hidden(s.items, id), ..s }
    }
}

/// The scene after scripts destroyed the first `k` layers.
pub open spec fn after_destructions(s: StageModel, ids: Seq<i64>, k: int) -> StageModel
    decreases k,
{
    if k <= 0 {
        s
    } else {
        after_destruction(after_destructions(s, ids, k - 1), ids[k - 1])
    }
}

/// The items with the image layers of an object hung from another.
pub open spec fn rehung(items: Seq<ItemModel>, id: i64, parent: i64) -> Seq<ItemModel> {
    Seq::new(
        items.len(),
        |i: int|
            match items[i] {
                ItemModel::Image(o) => if o.id == id {
                    ItemModel::Image(ImageItemModel { parent: Some(parent), ..o })
                } else {
                    items[i]
                },
                _ => items[i],
            },
    )
}

/// The scene after scripts hung the first `k` objects from others.
pub open spec fn after_parents(s: StageModel, updates: Seq<(i64, i64)>, k: int) -> StageModel
    decreases k,
{
    if k <= 0 {
        s
    } else {
        let before = after_parents(s, updates, k - 1);
        let u = updates[k - 1];
        StageModel {
            parents: before.parents.insert(u.0, Some(u.1)),
            items: rehung(before.items, u.0, u.1),
            ..before
        }
    }
}

/// The scene after scripts put its layers in order.
pub open spec fn after_order(s: StageModel, order: Option<Seq<i64>>) -> StageModel {
    match order {
        Some(ids) => StageModel {
            runtime: after_sorting(s.runtime, ids),
            items: in_layer_order(s.items, ids),
            ..s
        },
        None => s,
    }
}

/// The order in which scripts put the layers, if they did.
pub open spec fn layer_order(h: HostModel) -> Option<Seq<i64>> {
    if h.order_dirty {
        Some(h.layers.map_values(|l: LayerModel| l.id))
    } else {
        None
    }
}

/// The scene after what scripts did to layers, videos and materials.
pub open spec fn after_layer_ops(s: StageModel, h: HostModel) -> StageModel {
    StageModel {
        runtime: after_creations(s.runtime, h.created, s.templates, h.created.len() as int),
        videos: after_video_ops(
            s.videos,
            s.video_users,
            s.items,
            h.video_ops,
            h.video_ops.len() as int,
        ).0,
        items: materials_set(s.items, h.material_ops, h.material_ops.len() as int),
        ..s
    }
}

/// The scene after scripts destroyed layers, moved the camera, hung objects
/// elsewhere and put layers in order.
pub open spec fn after_scene_moves(s: StageModel, h: HostModel) -> StageModel {
    let b = after_destructions(s, h.destroyed, h.destroyed.len() as int);
    let c = StageModel { camera: camera_after(b.camera, h.camera_op), ..b };
    let d = after_parents(c, h.parent_updates, h.parent_updates.len() as int);
    after_order(d, layer_order(h))
}

/// The scene after all that scripts did since the last time: layers are made,
/// videos and materials set, layers destroyed, the camera moved, objects hung
/// elsewhere, layers put in order, and settings set, in this order.
pub open spec fn after_scene_ops(s: StageModel, h: HostModel) -> StageModel {
    let e = after_scene_moves(after_layer_ops(s, h), h);
    StageModel { general: general_after_all(e.general, h.scene_ops, h.scene_ops.len() as int), ..e }
}

/// The scripts' state once what they did to layers, videos and materials is taken.
pub open spec fn layer_ops_taken(h: HostModel) -> HostModel {
    HostModel {
        created: Seq::empty(),
        video_ops: Seq::empty(),
        material_ops: Seq::empty(),
        particle_ops: Seq::empty(),
        ..h
    }
}

/// The scripts' state once what they did to the scene as a whole is taken.
pub open spec fn scene_moves_taken(h: HostModel) -> HostModel {
    HostModel {
        destroyed: Seq::empty(),
        camera_op: None,
        parent_updates: Seq::empty(),
        order_dirty: false,
        ..h
    }
}

/// The scripts' state once what they did to the scene is taken.
pub open spec fn host_taken(h: HostModel) -> HostModel {
    HostModel {
        created: Seq::empty(),
        video_ops: Seq::empty(),
        material_ops: Seq::empty(),
        scene_ops: Seq::empty(),
        particle_ops: Seq::empty(),
        destroyed: Seq::empty(),
        camera_op: None,
        parent_updates: Seq::empty(),
        order_dirty: false,
        ..h
    }
}

/// What is left to do, after scripts changed a scene, by those who hold its
/// players, particles and buffers.
#[derive(Debug)]
pub struct Errands {
    /// The speeds of videos, as the bits of doubles.
    pub speeds: Vec<(usize, u64)>,
    pub particles: Vec<ParticleCall>,
    /// A zoom above zero that is asked for, as the bits of a single.
    pub zoom: Option<u32>,
    /// Whether the bloom is tuned anew.
    pub tune_bloom: bool,
}

/// Whether errands are those that come of what scripts did to a scene.
pub open spec fn errands_for(e: Errands, s: StageModel, h: HostModel) -> bool {
    &&& e.speeds@ == after_video_ops(
        s.videos,
        s.video_users,
        s.items,
        h.video_ops,
        h.video_ops.len() as int,
    ).1
    &&& views(e.particles@) == particle_calls(
        after_layer_ops(s, h).items,
        h.particle_ops,
        h.particle_ops.len() as int,
    )
    &&& e.zoom == asked_zoom(h.camera_op)
    &&& e.tune_bloom == exists|i: int|
        0 <= i < h.scene_ops.len() && tunes_bloom(#[trigger] h.scene_ops[i].0)
}

impl Stage {
    fn set_materials(&mut self, ops: &Vec<(i64, usize, String, ScriptValue)>)
        ensures
            final(self)@ == (StageModel {
                items: materials_set(old(self)@.items, views(ops@), ops@.len() as int),
                ..old(self)@
            }),
    {
        let ghost start = self@;
        let ghost all = views(ops@);
        let mut k: usize = 0;
        while k < ops.len()
            invariant
                k <= ops@.len(),
                all == views(ops@),
                self@ == (StageModel { items: materials_set(start.items, all, k as int), ..start }),
            decreases ops@.len() - k,
        {
            let op = &ops[k];
            assert(all[k as int] == (op.0, op.1, op.2@, op.3@));
            apply_material_op(&mut self.items, op.0, op.1, op.2.as_str(), &op.3);
            k += 1;
        }
    }

    fn destroy(&mut self, ids: &Vec<i64>)
        ensures
            final(self)@ == after_destructions(old(self)@, ids@, ids@.len() as int),
    {
        let ghost start = self@;
        let mut k: usize = 0;
        while k < ids.len()
            invariant
                k <= ids@.len(),
                self@ == after_destructions(start, ids@, k as int),
            decreases ids@.len() - k,
        {
            let id = ids[k];
            let ghost before = self@;
            if !self.runtime.remove(id) {
                self.visible.insert(id, false);
                let hide = Hide { id };
                change_all(&mut self.items, &hide);
                assert(changed_all(hide, before.items) =~= hidden(before.items, id));
            }
            assert(self@ == after_destruction(before, id));
            k += 1;
        }
    }

    fn hang(&mut self, updates: &Vec<(i64, i64)>)
        ensures
            final(self)@ == after_parents(old(self)@, updates@, updates@.len() as int),
    {
        let ghost start = self@;
        let mut k: usize = 0;
        while k < updates.len()
            invariant
                k <= updates@.len(),
                self@ == after_parents(start, updates@, k as int),
            decreases updates@.len() - k,
        {
            let (id, parent) = updates[k];
            let ghost before = self@;
            self.parents.insert(id, Some(parent));
            let change = Reparent { id, parent };
            change_all(&mut self.items, &change);
            assert(changed_all(change, before.items) =~= rehung(before.items, id, parent));
            k += 1;
        }
    }

    fn order(&mut self, order: &Option<Vec<i64>>)
        requires
            order matches Some(ids) ==> ids@.len() < i64::MAX,
        ensures
            final(self)@ == after_order(
                old(self)@,
                match order {
                    Some(ids) => Some(ids@),
                    None => None,
                },
            ),
    {
        if let Some(ids) = order {
            self.runtime.sort(ids);
            sort_items(&mut self.items, ids);
        }
    }

    fn set_scene(&mut self, ops: &Vec<(String, ScriptValue)>) -> (r: bool)
        ensures
            final(self)@ == (StageModel {
                general: general_after_all(old(self)@.general, views(ops@), ops@.len() as int),
                ..old(self)@
            }),
            r == exists|i: int| 0 <= i < ops@.len() && tunes_bloom(#[trigger] ops@[i].0@),
    {
        let ghost start = self@;
        let ghost all = views(ops@);
        let mut tuned = false;
        let mut k: usize = 0;
        while k < ops.len()
            invariant
                k <= ops@.len(),
                all == views(ops@),
                self@ == (StageModel {
                    general: general_after_all(start.general, all, k as int),
                    ..start
                }),
                tuned == exists|i: int| 0 <= i < k && tunes_bloom(#[trigger] ops@[i].0@),
            decreases ops@.len() - k,
        {
            let op = &ops[k];
            assert(all[k as int] == (op.0@, op.1@));
            let tunes = apply_scene_property(&mut self.general, op.0.as_str(), &op.1);
            assert(tunes == tunes_bloom(ops@[k as int].0@));
            if tunes {
                tuned = true;
            }
            k += 1;
        }
        tuned
    }

    fn take_layer_ops(&mut self, host: &mut ScriptHost) -> (r: (Vec<(usize, u64)>, Vec<ParticleCall>))
        requires
            old(self)@.runtime.next + old(host)@.created.len() <= i64::MAX,
        ensures
            final(self)@ == after_layer_ops(old(self)@, old(host)@),
            final(host)@ == layer_ops_taken(old(host)@),
            r.0@ == after_video_ops(
                old(self)@.videos,
                old(self)@.video_users,
                old(self)@.items,
                old(host)@.video_ops,
                old(host)@.video_ops.len() as int,
            ).1,
            views(r.1@) == particle_calls(
                after_layer_ops(old(self)@, old(host)@).items,
                old(host)@.particle_ops,
                old(host)@.particle_ops.len() as int,
            ),
    {
        let created = host.take_created();
        assert(created@.len() == views(created@).len());
        self.runtime.create_all(&created, &self.templates);
        let video_ops = host.take_video_ops();
        assert(video_ops@.len() == views(video_ops@).len());
        let speeds = video_orders(&mut self.videos, &self.video_users, &self.items, &video_ops);
        let material_ops = host.take_material_ops();
        assert(material_ops@.len() == views(material_ops@).len());
        self.set_materials(&material_ops);
        let particle_ops = host.take_particle_ops();
        assert(particle_ops@.len() == views(particle_ops@).len());
        let particles = particle_orders(&self.items, &particle_ops);
        (speeds, particles)
    }

    fn take_scene_moves(&mut self, host: &mut ScriptHost) -> (zoom: Option<u32>)
        requires
            old(host)@.layers.len() < i64::MAX,
        ensures
            final(self)@ == after_scene_moves(old(self)@, old(host)@),
            final(host)@ == scene_moves_taken(old(host)@),
            zoom == asked_zoom(old(host)@.camera_op),
    {
        let destroyed = host.take_destroyed();
        self.destroy(&destroyed);
        let camera_op = host.take_camera();
        move_camera(&mut self.camera, &camera_op);
        let zoom: Option<u32> = match &camera_op {
            Some(o) => match o.zoom {
                Some(z) => if 0 < z && z <= 0x7f80_0000 {
                    Some(z)
                } else {
                    None
                },
                None => None,
            },
            None => None,
        };
        let parents = host.take_parent_updates();
        self.hang(&parents);
        let order = host.take_layer_order();
        self.order(&order);
        zoom
    }

    /// Takes all that scripts did to the scene since the last time.
    pub fn apply_script_scene_ops(&mut self, host: &mut ScriptHost) -> (r: Errands)
        requires
            old(self)@.runtime.next + old(host)@.created.len() <= i64::MAX,
            old(host)@.layers.len() < i64::MAX,
        ensures
            final(self)@ == after_scene_ops(old(self)@, old(host)@),
            final(host)@ == host_taken(old(host)@),
            errands_for(r, old(self)@, old(host)@),
    {
        let ghost h = host@;
        let (speeds, particles) = self.take_layer_ops(host);
        let zoom = self.take_scene_moves(host);
        let scene_ops = host.take_scene_ops();
        let tune_bloom = self.set_scene(&scene_ops);
        proof {
            assert(scene_ops@.len() == views(scene_ops@).len());
            assert forall|i: int| 0 <= i < h.scene_ops.len() implies #[trigger] h.scene_ops[i].0
                == scene_ops@[i].0@ by {
                assert(views(scene_ops@)[i] == scene_ops@[i]@);
            }
            if tune_bloom {
                let i = choose|i: int|
                    0 <= i < scene_ops@.len() && tunes_bloom(#[trigger] scene_ops@[i].0@);
                assert(h.scene_ops[i].0 == scene_ops@[i].0@);
            }
        }
        Errands { speeds, particles, zoom, tune_bloom }
    }
}

/// The visibilities after the first `k` updates.
pub open spec fn visible_after(
    visible: Map<i64, bool>,
    updates: Seq<UpdateModel>,
    k: int,
) -> Map<i64, bool>
    decreases k,
{
    if k <= 0 {
        visible
    } else {
        let before = visible_after(visible, updates, k - 1);
        let u = updates[k - 1];
        match (u.target, u.value) {
            (PropTarget::Visible, Scripted::Bool(v)) => before.insert(u.object_id, v),
            _ => before,
        }
    }
}

/// The scene with the visibilities that updates set.
pub open spec fn seen_after(s: StageModel, updates: Seq<UpdateModel>) -> StageModel {
    StageModel { visible: visible_after(s.visible, updates, updates.len() as int), ..s }
}

/// The positions of the image layers that stand elsewhere after updates.
pub open spec fn images_moved(s: StageModel, updates: Seq<UpdateModel>) -> Seq<usize> {
    let n = updates.len() as int;
    moved_images(
        items_after(
            items_after(s.items, updates, Aspect::State, n),
            updates,
            Aspect::Place,
            n,
        ),
        places_after(s.locals, updates, n),
        moved_ids(s.locals, updates, n),
        s.items.len() as int,
    )
}

/// The scene after updates of its objects. Only when a frame is drawn do texts
/// take their tint from them.
pub open spec fn after_updates(s: StageModel, updates: Seq<UpdateModel>, in_frame: bool) -> StageModel {
    let n = updates.len() as int;
    let items = items_after(
        items_after(s.items, updates, Aspect::State, n),
        updates,
        Aspect::Place,
        n,
    );
    StageModel {
        runtime: RuntimeState { layers: layers_after(s.runtime.layers, updates, n), ..s.runtime },
        items: if in_frame {
            items_after(items, updates, Aspect::Tint, n)
        } else {
            items
        },
        locals: places_after(s.locals, updates, n),
        ..s
    }
}

impl Stage {
    fn note_visibility(&mut self, updates: &Vec<PropUpdate>)
        ensures
            final(self)@ == seen_after(old(self)@, views(updates@)),
    {
        let ghost start = self@;
        let ghost all = views(updates@);
        let mut k: usize = 0;
        while k < updates.len()
            invariant
                k <= updates@.len(),
                all == views(updates@),
                self@ == (StageModel {
                    visible: visible_after(start.visible, all, k as int),
                    ..start
                }),
            decreases updates@.len() - k,
        {
            let u = &updates[k];
            assert(all[k as int] == u@);
            if let PropTarget::Visible = u.target {
                if let ScriptValue::Bool(v) = &u.value {
                    self.visible.insert(u.object_id, *v);
                }
            }
            k += 1;
        }
    }

    /// Applies updates of objects, and returns the positions of the image
    /// layers that stand elsewhere now.
    pub fn apply_updates(&mut self, updates: &Vec<PropUpdate>, in_frame: bool) -> (moved: Vec<usize>)
        ensures
            final(self)@ == after_updates(old(self)@, views(updates@), in_frame),
            moved@ == images_moved(old(self)@, views(updates@)),
    {
        self.runtime.apply_runtime_updates(updates);
        apply_script_updates(&mut self.items, updates);
        apply_aspect(&mut self.items, updates, Aspect::Place);
        let moved = apply_image_transforms(&self.items, &mut self.locals, updates);
        if in_frame {
            apply_aspect(&mut self.items, updates, Aspect::Tint);
        }
        moved
    }

    /// One frame of what animations and scripts did: scripts' changes of the
    /// scene first, then the updates.
    pub fn advance(&mut self, host: Option<&mut ScriptHost>, updates: &Vec<PropUpdate>) -> (r: (
        Option<Errands>,
        Vec<usize>,
    ))
        requires
            host matches Some(h) ==> old(self)@.runtime.next + h@.created.len() <= i64::MAX
                && h@.layers.len() < i64::MAX,
        ensures
            final(self)@ == after_updates(
                seen_after(
                    match host {
                        Some(h) => after_scene_ops(old(self)@, h@),
                        None => old(self)@,
                    },
                    views(updates@),
                ),
                views(updates@),
                true,
            ),
            host matches Some(h) ==> final(h)@ == host_taken(h@),
            match (r.0, host) {
                (Some(e), Some(h)) => errands_for(e, old(self)@, h@),
                (None, None) => true,
                _ => false,
            },
            r.1@ == images_moved(
                match host {
                    Some(h) => after_scene_ops(old(self)@, h@),
                    None => old(self)@,
                },
                views(updates@),
            ),
    {
        let errands = match host {
            Some(h) => Some(self.apply_script_scene_ops(h)),
            None => None,
        };
        self.note_visibility(updates);
        let moved = self.apply_updates(updates, true);
        (errands, moved)
    }
}

/// A number that animations give a particle system.
#[derive(Debug)]
pub struct ParticleScalar {
    pub id: i64,
    pub name: String,
    pub value: u32,
}

impl View for ParticleScalar {
    type V = (i64, Seq<char>, u32);

    open spec fn view(&self) -> (i64, Seq<char>, u32) {
        (self.id, self.name@, self.value)
    }
}

/// What the particle systems are told by the first `k` numbers, in turn.
pub open spec fn scalar_calls(
    items: Seq<ItemModel>,
    set: Seq<(i64, Seq<char>, u32)>,
    k: int,
) -> Seq<(usize, Act)>
    decreases k,
{
    if k <= 0 {
        Seq::empty()
    } else {
        let (id, name, value) = set[k - 1];
        scalar_calls(items, set, k - 1) + calls_upto(
            items,
            id,
            Act::Scalar { name, value: Number::Single(value) },
            items.len() as int,
        )
    }
}

/// The positions of the texts of an object among the first `k` items, each
/// with a width.
pub open spec fn widths_upto(items: Seq<ItemModel>, id: i64, width: u32, k: int) -> Seq<(usize, u32)>
    decreases k,
{
    if k <= 0 {
        Seq::empty()
    } else if items[k - 1] is Text && items[k - 1].id() == id {
        widths_upto(items, id, width, k - 1).push(((k - 1) as usize, width))
    } else {
        widths_upto(items, id, width, k - 1)
    }
}

/// The positions of the texts that the first `k` widths are for, in turn.
pub open spec fn all_widths(items: Seq<ItemModel>, set: Seq<(i64, u32)>, k: int) -> Seq<(usize, u32)>
    decreases k,
{
    if k <= 0 {
        Seq::empty()
    } else {
        all_widths(items, set, k - 1) + widths_upto(
            items,
            set[k - 1].0,
            set[k - 1].1,
            items.len() as int,
        )
    }
}

/// The positions of the texts, among the first `k` items, whose words differ.
pub open spec fn reworded(before: Seq<ItemModel>, now: Seq<ItemModel>, k: int) -> Seq<usize>
    decreases k,
{
    if k <= 0 {
        Seq::empty()
    } else {
        let rest = reworded(before, now, k - 1);
        match (before[k - 1], now[k - 1]) {
            (ItemModel::Text(a), ItemModel::Text(b)) => if a.text != b.text {
                rest.push((k - 1) as usize)
            } else {
                rest
            },
            _ => rest,
        }
    }
}

fn words_of(items: &Vec<SceneItem>) -> (r: Vec<String>)
    ensures
        r@.len() == items@.len(),
        forall|i: int|
            0 <= i < items@.len() ==> (items@[i]@ matches ItemModel::Text(t) ==> (#[trigger] r@[i])@
                == t.text),
{
    let mut out: Vec<String> = Vec::new();
    let mut i: usize = 0;
    while i < items.len()
        invariant
            i <= items@.len(),
            out@.len() == i,
            forall|j: int|
                0 <= j < i ==> (items@[j]@ matches ItemModel::Text(t) ==> (#[trigger] out@[j])@
                    == t.text),
        decreases items@.len() - i,
    {
        let words = match &items[i] {
            SceneItem::Text(t) => t.text.clone(),
            _ => String::new(),
        };
        out.push(words);
        i += 1;
    }
    out
}

impl Stage {
    /// Takes what animations set beside updates: constants of effects, numbers
    /// of particle systems, and widths of texts. Returns what the particle
    /// systems are told, and the positions of the texts with their widths.
    pub fn apply_animation_side_effects(
        &mut self,
        effect: &Vec<(i64, usize, String, ScriptValue)>,
        particle: &Vec<ParticleScalar>,
        text_width: &Vec<(i64, u32)>,
    ) -> (r: (Vec<ParticleCall>, Vec<(usize, u32)>))
        ensures
            final(self)@ == (StageModel {
                items: materials_set(old(self)@.items, views(effect@), effect@.len() as int),
                ..old(self)@
            }),
            views(r.0@) == scalar_calls(
                final(self)@.items,
                views(particle@),
                particle@.len() as int,
            ),
            r.1@ == all_widths(final(self)@.items, text_width@, text_width@.len() as int),
    {
        self.set_materials(effect);
        let ghost items = self@.items;
        let ghost set = views(particle@);
        let mut calls: Vec<ParticleCall> = Vec::new();
        let mut k: usize = 0;
        assert(views(calls@) =~= Seq::empty());
        while k < particle.len()
            invariant
                k <= particle@.len(),
                set == views(particle@),
                items == views(self.items@),
                views(calls@) == scalar_calls(items, set, k as int),
            decreases particle@.len() - k,
        {
            let p = &particle[k];
            assert(set[k as int] == p@);
            let ghost before = views(calls@);
            let ghost act = Act::Scalar { name: p.name@, value: Number::Single(p.value) };
            let mut i: usize = 0;
            assert(before + calls_upto(items, p.id, act, 0) =~= before);
            while i < self.items.len()
                invariant
                    i <= self.items@.len(),
                    items == views(self.items@),
                    act == (Act::Scalar { name: p.name@, value: Number::Single(p.value) }),
                    views(calls@) == before + calls_upto(items, p.id, act, i as int),
                decreases self.items@.len() - i,
            {
                assert(items[i as int] == self.items@[i as int]@);
                if let SceneItem::Particle(pg) = &self.items[i] {
                    if pg.id == p.id {
                        let call = ParticleCall {
                            item: i,
                            act: ParticleAct::Scalar {
                                name: p.name.clone(),
                                value: Scalar::Single(p.value),
                            },
                        };
                        proof {
                            lemma_views_push(calls@, call);
                            assert((before + calls_upto(items, p.id, act, i as int)).push(call@)
                                =~= before + calls_upto(items, p.id, act, i + 1));
                        }
                        calls.push(call);
                    }
                }
                i += 1;
            }
            k += 1;
        }
        let widths = self.find_widths(text_width);
        (calls, widths)
    }

    fn find_widths(&self, text_width: &Vec<(i64, u32)>) -> (r: Vec<(usize, u32)>)
        ensures
            r@ == all_widths(self@.items, text_width@, text_width@.len() as int),
    {
        let ghost items = self@.items;
        let mut out: Vec<(usize, u32)> = Vec::new();
        let mut k: usize = 0;
        while k < text_width.len()
            invariant
                k <= text_width@.len(),
                items == views(self.items@),
                out@ == all_widths(items, text_width@, k as int),
            decreases text_width@.len() - k,
        {
            let (id, width) = text_width[k];
            let ghost before = out@;
            let mut i: usize = 0;
            assert(before + widths_upto(items, id, width, 0) =~= before);
            while i < self.items.len()
                invariant
                    i <= self.items@.len(),
                    items == views(self.items@),
                    out@ == before + widths_upto(items, id, width, i as int),
                decreases self.items@.len() - i,
            {
                assert(items[i as int] == self.items@[i as int]@);
                if let SceneItem::Text(t) = &self.items[i] {
                    if t.id == id {
                        assert((before + widths_upto(items, id, width, i as int)).push((i, width))
                            =~= before + widths_upto(items, id, width, i + 1));
                        out.push((i, width));
                    }
                }
                i += 1;
            }
            k += 1;
        }
        out
    }

    /// Gives texts their words from updates. Returns the positions of those
    /// that have to be set anew.
    pub fn apply_words(&mut self, updates: &Vec<PropUpdate>) -> (r: Vec<usize>)
        ensures
            final(self)@ == (StageModel {
                items: items_after(
                    old(self)@.items,
                    views(updates@),
                    Aspect::Words,
                    updates@.len() as int,
                ),
                ..old(self)@
            }),
            r@ == reworded(old(self)@.items, final(self)@.items, old(self)@.items.len() as int),
    {
        let ghost start = self@.items;
        let words = words_of(&self.items);
        assert forall|i: int| 0 <= i < start.len() implies (start[i] matches ItemModel::Text(t)
            ==> (#[trigger] words@[i])@ == t.text) by {
            assert(start[i] == self.items@[i]@);
        }
        apply_aspect(&mut self.items, updates, Aspect::Words);
        proof {
            lemma_words_keep_kinds(start, views(updates@), updates@.len() as int);
        }
        let ghost now = self@.items;
        let mut out: Vec<usize> = Vec::new();
        let mut i: usize = 0;
        while i < self.items.len()
            invariant
                i <= self.items@.len(),
                self.items@.len() == words@.len(),
                start.len() == words@.len(),
                now == views(self.items@),
                forall|j: int|
                    0 <= j < start.len() ==> ((#[trigger] now[j]) is Text) == (start[j] is Text),
                forall|j: int|
                    0 <= j < start.len() ==> (start[j] matches ItemModel::Text(t) ==> (
                    #[trigger] words@[j])@ == t.text),
                out@ == reworded(start, now, i as int),
            decreases self.items@.len() - i,
        {
            assert(now[i as int] == self.items@[i as int]@);
            if let SceneItem::Text(t) = &self.items[i] {
                if !same_text(t.text.as_str(), words[i].as_str()) {
                    out.push(i);
                }
            }
            i += 1;
        }
        out
    }
}

proof fn lemma_words_keep_kinds(items: Seq<ItemModel>, updates: Seq<UpdateModel>, k: int)
    ensures
        items_after(items, updates, Aspect::Words, k).len() == items.len(),
        forall|j: int|
            0 <= j < items.len() ==> ((#[trigger] items_after(items, updates, Aspect::Words, k)[j])
                is Text) == (items[j] is Text),
    decreases k,
{
    if k > 0 {
        lemma_words_keep_kinds(items, updates, k - 1);
    }
}

/// The visibilities once the first `k` driven ones are known anew.
pub open spec fn visible_rebound(
    visible: Map<i64, bool>,
    bindings: Seq<BindingModel>,
    k: int,
) -> Map<i64, bool>
    decreases k,
{
    if k <= 0 {
        visible
    } else {
        visible_rebound(visible, bindings, k - 1).insert(
            bindings[k - 1].id,
            binding_shows(bindings[k - 1]),
        )
    }
}

/// The items with the image layers of an object shown or hidden.
pub open spec fn image_shown(items: Seq<ItemModel>, id: i64, visible: bool) -> Seq<ItemModel> {
    Seq::new(
        items.len(),
        |i: int|
            if items[i] is Image && items[i].id() == id {
                items[i].with_visible(visible)
            } else {
                items[i]
            },
    )
}

/// The items once the first `k` driven visibilities are known anew.
pub open spec fn items_rebound(
    items: Seq<ItemModel>,
    bindings: Seq<BindingModel>,
    k: int,
) -> Seq<ItemModel>
    decreases k,
{
    if k <= 0 {
        items
    } else {
        image_shown(
            items_rebound(items, bindings, k - 1),
            bindings[k - 1].id,
            binding_shows(bindings[k - 1]),
        )
    }
}

/// The items with the constants that properties drive.
pub open spec fn items_with_properties(items: Seq<ItemModel>, bag: Bag) -> Seq<ItemModel> {
    Seq::new(
        items.len(),
        |i: int|
            match items[i] {
                ItemModel::Image(o) => ItemModel::Image(
                    ImageItemModel { passes: with_properties(o.passes, bag), ..o },
                ),
                _ => items[i],
            },
    )
}

/// Driven visibilities with changed properties.
pub open spec fn all_rebound(bindings: Seq<BindingModel>, bag: Bag) -> Seq<BindingModel> {
    Seq::new(bindings.len(), |i: int| rebound(bindings[i], bag))
}

/// The scene with changed properties, before any script knows of them.
pub open spec fn after_properties(s: StageModel, bag: Bag) -> StageModel {
    let bindings = all_rebound(s.bindings, bag);
    let n = bindings.len() as int;
    StageModel {
        camera: resolved_camera(s.camera, bag),
        general: resolved_general(s.general, bag),
        bindings,
        visible: visible_rebound(s.visible, bindings, n),
        items: items_rebound(items_with_properties(s.items, bag), bindings, n),
        ..s
    }
}

/// The effects' visibilities with changed properties.
pub open spec fn effects_rebound(bindings: Seq<EffectBindingModel>, bag: Bag) -> Seq<
    EffectBindingModel,
> {
    Seq::new(
        bindings.len(),
        |i: int|
            EffectBindingModel {
                us: crate::resolve::resolved::<bool>(bindings[i].us, bag),
                planned: bindings[i].planned,
            },
    )
}

impl Stage {
    fn rebind(&mut self, bag: &PropertyBag)
        ensures
            final(self)@ == (StageModel {
                bindings: all_rebound(old(self)@.bindings, bag@),
                visible: visible_rebound(
                    old(self)@.visible,
                    all_rebound(old(self)@.bindings, bag@),
                    old(self)@.bindings.len() as int,
                ),
                items: items_rebound(
                    old(self)@.items,
                    all_rebound(old(self)@.bindings, bag@),
                    old(self)@.bindings.len() as int,
                ),
                ..old(self)@
            }),
    {
        let ghost start = self@;
        let ghost now = all_rebound(start.bindings, bag@);
        let n: usize = self.bindings.len();
        let mut k: usize = 0;
        while k < n
            invariant
                k <= n,
                n == self.bindings@.len(),
                start.bindings.len() == n,
                now == all_rebound(start.bindings, bag@),
                forall|j: int| 0 <= j < k ==> (#[trigger] self.bindings@[j])@ == now[j],
                forall|j: int| k <= j < n ==> (#[trigger] self.bindings@[j])@ == start.bindings[j],
                self@ == (StageModel {
                    bindings: views(self.bindings@),
                    visible: visible_rebound(start.visible, now, k as int),
                    items: items_rebound(start.items, now, k as int),
                    ..start
                }),
            decreases n - k,
        {
            let ghost before = self@;
            assert(self.bindings@[k as int]@ == start.bindings[k as int]);
            let visible = self.bindings[k].reresolve(bag);
            let id = self.bindings[k].id;
            self.visible.insert(id, visible);
            let change = ShowImage { id, visible };
            change_all(&mut self.items, &change);
            assert(changed_all(change, before.items) =~= image_shown(before.items, id, visible));
            k += 1;
        }
        assert(views(self.bindings@) =~= now);
    }

    /// Takes a changed property, as far as no script is needed for it.
    pub fn take_properties(&mut self, bag: &PropertyBag)
        ensures
            final(self)@ == after_properties(old(self)@, bag@),
    {
        let ghost start = self@;
        let change = Properties { bag };
        change_all(&mut self.items, &change);
        assert(changed_all(change, start.items) =~= items_with_properties(start.items, bag@));
        self.camera.reresolve(bag);
        self.general.resolve(bag);
        self.rebind(bag);
    }

    /// Takes what scripts did about a changed property, and says whether the
    /// scene has to be built anew.
    pub fn finish_property(
        &mut self,
        host: Option<&mut ScriptHost>,
        updates: &Vec<PropUpdate>,
        key: &str,
        bag: &PropertyBag,
    ) -> (r: (PropertyImpact, Option<Errands>, Vec<usize>))
        requires
            host matches Some(h) ==> old(self)@.runtime.next + h@.created.len() <= i64::MAX
                && h@.layers.len() < i64::MAX,
        ensures
            final(self)@ == ({
                let seen = seen_after(old(self)@, views(updates@));
                let s = match host {
                    Some(h) => after_scene_ops(seen, h@),
                    None => seen,
                };
                let a = after_updates(s, views(updates@), false);
                StageModel { effect_bindings: effects_rebound(a.effect_bindings, bag@), ..a }
            }),
            host matches Some(h) ==> final(h)@ == host_taken(h@),
            r.0 == (if !effects_as_planned(
                old(self)@.effect_bindings,
                bag@,
                old(self)@.effect_bindings.len() as int,
            ) || old(self)@.structural.contains(key@) {
                PropertyImpact::NeedsRebuild
            } else {
                PropertyImpact::Live
            }),
            match (r.1, host) {
                (Some(e), Some(h)) => errands_for(e, seen_after(old(self)@, views(updates@)), h@),
                (None, None) => true,
                _ => false,
            },
            r.2@ == images_moved(
                match host {
                    Some(h) => after_scene_ops(seen_after(old(self)@, views(updates@)), h@),
                    None => seen_after(old(self)@, views(updates@)),
                },
                views(updates@),
            ),
    {
        let ghost start = self@;
        self.note_visibility(updates);
        let ghost seen = self@;
        let errands = match host {
            Some(h) => Some(self.apply_script_scene_ops(h)),
            None => None,
        };
        proof {
            lemma_scene_ops_keep(seen);
        }
        let moved = self.apply_updates(updates, false);
        let ghost before = self@;
        let diverged = effects_diverge(&mut self.effect_bindings, bag);
        assert(views(self.effect_bindings@) =~= effects_rebound(before.effect_bindings, bag@));
        let impact = property_impact(&self.structural, key, diverged);
        (impact, errands, moved)
    }
}

proof fn lemma_destructions_keep(s: StageModel, ids: Seq<i64>, k: int)
    ensures
        after_destructions(s, ids, k).effect_bindings == s.effect_bindings,
        after_destructions(s, ids, k).structural == s.structural,
    decreases k,
{
    if k > 0 {
        lemma_destructions_keep(s, ids, k - 1);
    }
}

proof fn lemma_parents_keep(s: StageModel, updates: Seq<(i64, i64)>, k: int)
    ensures
        after_parents(s, updates, k).effect_bindings == s.effect_bindings,
        after_parents(s, updates, k).structural == s.structural,
    decreases k,
{
    if k > 0 {
        lemma_parents_keep(s, updates, k - 1);
    }
}

proof fn lemma_scene_ops_keep(s: StageModel)
    ensures
        forall|m: HostModel|
            (#[trigger] after_scene_ops(s, m)).effect_bindings == s.effect_bindings
                && after_scene_ops(s, m).structural == s.structural,
{
    assert forall|m: HostModel|
        (#[trigger] after_scene_ops(s, m)).effect_bindings == s.effect_bindings && after_scene_ops(
            s,
            m,
        ).structural == s.structural by {
        let a = after_layer_ops(s, m);
        lemma_destructions_keep(a, m.destroyed, m.destroyed.len() as int);
        let b = after_destructions(a, m.destroyed, m.destroyed.len() as int);
        let c = StageModel { camera: camera_after(b.camera, m.camera_op), ..b };
        lemma_parents_keep(c, m.parent_updates, m.parent_updates.len() as int);
    }
}

/// A layer that a script destroyed is gone or hidden: no layer made by a
/// script has its id any more, or none of its items is visible.
pub proof fn law_destroyed_layers_are_hidden(s: StageModel, id: i64)
    requires
        distinct_ids(s.runtime.layers),
    ensures
        runtime_at(after_destruction(s, id).runtime.layers, id, 0) is None,
        runtime_at(s.runtime.layers, id, 0) is None ==> after_destruction(s, id).visible[id] == false
            && forall|i: int|
            0 <= i < s.items.len() && (#[trigger] s.items[i]).id() == id
                ==> !after_destruction(s, id).items[i].visible(),
{
    lemma_runtime_at(s.runtime.layers, id, 0);
    if let Some(at) = runtime_at(s.runtime.layers, id, 0) {
        let left = s.runtime.layers.remove(at);
        lemma_runtime_at(left, id, 0);
        if let Some(j) = runtime_at(left, id, 0) {
            let k = if j < at {
                j
            } else {
                j + 1
            };
            assert(left[j] == s.runtime.layers[k]);
        }
    } else {
        assert forall|i: int| 0 <= i < s.items.len() && (#[trigger] s.items[i]).id() == id implies
            !after_destruction(s, id).items[i].visible() by {
            assert(after_destruction(s, id).items[i] == s.items[i].with_visible(false));
        }
    }
}

proof fn lemma_creations_distinct(
    s: RuntimeState,
    created: Seq<(i64, Seq<char>)>,
    templates: Seq<TemplateModel>,
    k: int,
)
    requires
        distinct_ids(s.layers),
    ensures
        distinct_ids(after_creations(s, created, templates, k).layers),
    decreases k,
{
    if k > 0 {
        lemma_creations_distinct(s, created, templates, k - 1);
        let before = after_creations(s, created, templates, k - 1);
        lemma_runtime_at(before.layers, created[k - 1].0, 0);
    }
}

proof fn lemma_destructions_distinct(s: StageModel, ids: Seq<i64>, k: int)
    requires
        distinct_ids(s.runtime.layers),
    ensures
        distinct_ids(after_destructions(s, ids, k).runtime.layers),
    decreases k,
{
    if k > 0 {
        lemma_destructions_distinct(s, ids, k - 1);
        let before = after_destructions(s, ids, k - 1).runtime.layers;
        lemma_runtime_at(before, ids[k - 1], 0);
        if let Some(at) = runtime_at(before, ids[k - 1], 0) {
            let left = before.remove(at);
            assert forall|i: int, j: int| 0 <= i < j < left.len() implies (#[trigger] left[i]).id
                != (#[trigger] left[j]).id by {
                let a = if i < at {
                    i
                } else {
                    i + 1
                };
                let b = if j < at {
                    j
                } else {
                    j + 1
                };
                assert(left[i] == before[a] && left[j] == before[b]);
            }
        }
    }
}

proof fn lemma_parents_keep_runtime(s: StageModel, updates: Seq<(i64, i64)>, k: int)
    ensures
        after_parents(s, updates, k).runtime == s.runtime,
    decreases k,
{
    if k > 0 {
        lemma_parents_keep_runtime(s, updates, k - 1);
    }
}

proof fn lemma_updates_distinct(layers: Seq<RuntimeModel>, updates: Seq<UpdateModel>, k: int)
    requires
        distinct_ids(layers),
    ensures
        distinct_ids(layers_after(layers, updates, k)),
    decreases k,
{
    if k > 0 {
        lemma_updates_distinct(layers, updates, k - 1);
    }
}

/// No two layers that scripts made ever have one id: whatever scripts do to a
/// scene, and whatever updates it takes.
pub proof fn law_runtime_ids_stay_distinct(
    s: StageModel,
    h: HostModel,
    updates: Seq<UpdateModel>,
    in_frame: bool,
)
    requires
        distinct_ids(s.runtime.layers),
    ensures
        distinct_ids(after_scene_ops(s, h).runtime.layers),
        distinct_ids(after_updates(s, updates, in_frame).runtime.layers),
{
    let a = after_layer_ops(s, h);
    lemma_creations_distinct(s.runtime, h.created, s.templates, h.created.len() as int);
    lemma_destructions_distinct(a, h.destroyed, h.destroyed.len() as int);
    let b = after_destructions(a, h.destroyed, h.destroyed.len() as int);
    let c = StageModel { camera: camera_after(b.camera, h.camera_op), ..b };
    lemma_parents_keep_runtime(c, h.parent_updates, h.parent_updates.len() as int);
    lemma_updates_distinct(s.runtime.layers, updates, updates.len() as int);
}

} // verus!
