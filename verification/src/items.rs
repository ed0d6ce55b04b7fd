//! The things that a scene is made of while it is shown.
use std::sync::Arc;

use vstd::prelude::*;

use crate::copy::Duplicate;
use crate::material::{Pass, PassModel};
use crate::params::{param_values, resolve_params, Numbers, ParamModel, Parameter};
use crate::property::{Bag, PropertyBag};
use crate::resolve::{resolve_constants, resolved_constants};
use crate::script::{
    as_f32, as_rgb, colour_of, number_of, ScriptValue, Scripted,
};
use crate::scripting::{given, PropTarget, PropUpdate, UpdateModel};
use crate::strings::{opt_view, views};
use crate::table::TextMap;
use crate::user::{literal_setting, UserSetting};
use crate::value::{Dynamic, DynamicValue, Number, Scalar, Vec2, Vec3};

verus! {

broadcast use vstd::std_specs::hash::group_hash_axioms;

/// A pass of a layer, with the values that its shaders' parameters take.
#[derive(Debug)]
pub struct LivePass {
    /// The effect that the pass belongs to; none for the layer's own material.
    pub effect_index: Option<usize>,
    pub material_pass: Pass,
    pub params_vs: Arc<Vec<Parameter>>,
    pub params_fs: Arc<Vec<Parameter>>,
    pub vs_params: TextMap<Numbers>,
    pub fs_params: TextMap<Numbers>,
}

/// What a [`LivePass`] holds.
pub struct LivePassModel {
    pub effect_index: Option<usize>,
    pub material: PassModel,
    pub params_vs: Seq<ParamModel>,
    pub params_fs: Seq<ParamModel>,
    pub vs_params: Map<Seq<char>, Seq<Number>>,
    pub fs_params: Map<Seq<char>, Seq<Number>>,
}

impl View for LivePass {
    type V = LivePassModel;

    open spec fn view(&self) -> LivePassModel {
        LivePassModel {
            effect_index: self.effect_index,
            material: self.material_pass@,
            params_vs: views((*self.params_vs)@),
            params_fs: views((*self.params_fs)@),
            vs_params: self.vs_params@,
            fs_params: self.fs_params@,
        }
    }
}

impl LivePassModel {
    /// The pass with the values that its constants give.
    pub open spec fn refreshed(self) -> LivePassModel {
        LivePassModel {
            vs_params: param_values(
                self.material.constants,
                self.params_vs,
                self.params_vs.len() as int,
            ),
            fs_params: param_values(
                self.material.constants,
                self.params_fs,
                self.params_fs.len() as int,
            ),
            ..self
        }
    }

    /// The pass with changed properties.
    pub open spec fn with_properties(self, bag: Bag) -> LivePassModel {
        LivePassModel {
            material: PassModel {
                constants: resolved_constants(self.material.constants, bag),
                ..self.material
            },
            ..self
        }.refreshed()
    }

    /// The pass with a constant set, if it belongs to the effect.
    pub open spec fn with_constant(self, effect: usize, name: Seq<char>, v: Dynamic) -> LivePassModel {
        if self.effect_index == Some(effect) {
            LivePassModel {
                material: PassModel {
                    constants: self.material.constants.insert(name, literal_setting(v)),
                    ..self.material
                },
                ..self
            }.refreshed()
        } else {
            self
        }
    }
}

impl LivePass {
    fn refresh(&mut self)
        ensures
            final(self)@ == old(self)@.refreshed(),
    {
        let vs = resolve_params(&*self.params_vs, &self.material_pass);
        let fs = resolve_params(&*self.params_fs, &self.material_pass);
        self.vs_params = vs;
        self.fs_params = fs;
    }

    fn set_properties(&mut self, bag: &PropertyBag)
        ensures
            final(self)@ == old(self)@.with_properties(bag@),
    {
        resolve_constants(&mut self.material_pass.constantshadervalues, bag);
        self.refresh();
    }

    fn set_constant(&mut self, effect: usize, name: &str, v: &DynamicValue)
        ensures
            final(self)@ == old(self)@.with_constant(effect, name@, v@),
    {
        match self.effect_index {
            Some(e) => if e != effect {
                return;
            },
            None => {
                return;
            },
        }
        self.material_pass.constantshadervalues.insert(
            name.to_owned(),
            UserSetting::literal(v.duplicate()),
        );
        self.refresh();
    }
}

/// An image layer.
#[derive(Debug)]
pub struct ImageItem {
    pub id: i64,
    pub parent: Option<i64>,
    pub passes: Vec<LivePass>,
    pub alpha: Scalar,
    pub brightness: Scalar,
    pub color: Vec3,
    pub color_alpha: Scalar,
    pub visible: bool,
    /// Whether a pass samples the scene as drawn so far.
    pub reads_scene: bool,
    /// Whether the layer is drawn for the sake of others alone.
    pub offscreen_donor: bool,
    pub parallax_depth: Vec2,
}

/// What an [`ImageItem`] holds.
pub struct ImageItemModel {
    pub id: i64,
    pub parent: Option<i64>,
    pub passes: Seq<LivePassModel>,
    pub alpha: Number,
    pub brightness: Number,
    pub color: (Number, Number, Number),
    pub color_alpha: Number,
    pub visible: bool,
    pub reads_scene: bool,
    pub offscreen_donor: bool,
    pub parallax_depth: (Number, Number),
}

impl View for ImageItem {
    type V = ImageItemModel;

    open spec fn view(&self) -> ImageItemModel {
        ImageItemModel {
            id: self.id,
            parent: self.parent,
            passes: views(self.passes@),
            alpha: self.alpha@,
            brightness: self.brightness@,
            color: self.color@,
            color_alpha: self.color_alpha@,
            visible: self.visible,
            reads_scene: self.reads_scene,
            offscreen_donor: self.offscreen_donor,
            parallax_depth: self.parallax_depth@,
        }
    }
}

/// A particle system.
#[derive(Debug)]
pub struct ParticleItem {
    pub id: i64,
    pub visible: bool,
    /// The rate that a script gave it.
    pub rate: Option<Scalar>,
}

/// What a [`ParticleItem`] holds.
pub struct ParticleItemModel {
    pub id: i64,
    pub visible: bool,
    pub rate: Option<Number>,
}

impl View for ParticleItem {
    type V = ParticleItemModel;

    open spec fn view(&self) -> ParticleItemModel {
        ParticleItemModel { id: self.id, visible: self.visible, rate: opt_view(self.rate) }
    }
}

/// A text layer.
#[derive(Debug)]
pub struct TextItem {
    pub id: i64,
    pub visible: bool,
    /// Whether the text leaves no mark.
    pub blank: bool,
    pub text: String,
    pub origin: Vec2,
    pub scale: Vec2,
    pub tint: Vec3,
    pub alpha: Scalar,
}

/// What a [`TextItem`] holds.
pub struct TextItemModel {
    pub id: i64,
    pub visible: bool,
    pub blank: bool,
    pub text: Seq<char>,
    pub origin: (Number, Number),
    pub scale: (Number, Number),
    pub tint: (Number, Number, Number),
    pub alpha: Number,
}

impl View for TextItem {
    type V = TextItemModel;

    open spec fn view(&self) -> TextItemModel {
        TextItemModel {
            id: self.id,
            visible: self.visible,
            blank: self.blank,
            text: self.text@,
            origin: self.origin@,
            scale: self.scale@,
            tint: self.tint@,
            alpha: self.alpha@,
        }
    }
}

/// A 3D model.
#[derive(Debug)]
pub struct ModelItem {
    pub id: i64,
    pub visible: bool,
    pub reads_scene: bool,
    /// Whether its angles follow an animation.
    pub animated: bool,
    pub origin: Vec3,
    pub scale: Vec3,
    pub angles: Vec3,
}

/// What a [`ModelItem`] holds.
pub struct ModelItemModel {
    pub id: i64,
    pub visible: bool,
    pub reads_scene: bool,
    pub animated: bool,
    pub origin: (Number, Number, Number),
    pub scale: (Number, Number, Number),
    pub angles: (Number, Number, Number),
}

impl View for ModelItem {
    type V = ModelItemModel;

    open spec fn view(&self) -> ModelItemModel {
        ModelItemModel {
            id: self.id,
            visible: self.visible,
            reads_scene: self.reads_scene,
            animated: self.animated,
            origin: self.origin@,
            scale: self.scale@,
            angles: self.angles@,
        }
    }
}

impl ModelItem {
    pub fn set_origin(&mut self, v: Vec3)
        ensures
            final(self)@ == (ModelItemModel { origin: v@, ..old(self)@ }),
    {
        self.origin = v;
    }

    pub fn set_scale(&mut self, v: Vec3)
        ensures
            final(self)@ == (ModelItemModel { scale: v@, ..old(self)@ }),
    {
        self.scale = v;
    }

    pub fn set_angles(&mut self, v: Vec3)
        ensures
            final(self)@ == (ModelItemModel { angles: v@, ..old(self)@ }),
    {
        self.angles = v;
    }

    pub fn has_animation(&self) -> (r: bool)
        ensures
            r == self@.animated,
    {
        self.animated
    }
}

/// One thing that is drawn.
#[derive(Debug)]
pub enum SceneItem {
    Image(ImageItem),
    Particle(ParticleItem),
    Text(TextItem),
    Model(ModelItem),
}

/// What a [`SceneItem`] holds.
pub enum ItemModel {
    Image(ImageItemModel),
    Particle(ParticleItemModel),
    Text(TextItemModel),
    Model(ModelItemModel),
}

impl View for SceneItem {
    type V = ItemModel;

    open spec fn view(&self) -> ItemModel {
        match self {
            SceneItem::Image(o) => ItemModel::Image(o@),
            SceneItem::Particle(p) => ItemModel::Particle(p@),
            SceneItem::Text(t) => ItemModel::Text(t@),
            SceneItem::Model(m) => ItemModel::Model(m@),
        }
    }
}

impl ItemModel {
    pub open spec fn id(self) -> i64 {
        match self {
            ItemModel::Image(o) => o.id,
            ItemModel::Particle(p) => p.id,
            ItemModel::Text(t) => t.id,
            ItemModel::Model(m) => m.id,
        }
    }

    pub open spec fn visible(self) -> bool {
        match self {
            ItemModel::Image(o) => o.visible,
            ItemModel::Particle(p) => p.visible,
            ItemModel::Text(t) => t.visible,
            ItemModel::Model(m) => m.visible,
        }
    }

    /// The item, shown or hidden.
    pub open spec fn with_visible(self, v: bool) -> ItemModel {
        match self {
            ItemModel::Image(o) => ItemModel::Image(ImageItemModel { visible: v, ..o }),
            ItemModel::Particle(p) => ItemModel::Particle(ParticleItemModel { visible: v, ..p }),
            ItemModel::Text(t) => ItemModel::Text(TextItemModel { visible: v, ..t }),
            ItemModel::Model(m) => ItemModel::Model(ModelItemModel { visible: v, ..m }),
        }
    }

    /// Whether the item samples the scene as drawn so far.
    pub open spec fn reads_scene(self) -> bool {
        match self {
            ItemModel::Image(o) => o.reads_scene,
            ItemModel::Model(m) => m.reads_scene,
            _ => false,
        }
    }
}

pub fn item_id(item: &SceneItem) -> (id: i64)
    ensures
        id == item@.id(),
{
    match item {
        SceneItem::Image(o) => o.id,
        SceneItem::Particle(p) => p.id,
        SceneItem::Text(t) => t.id,
        SceneItem::Model(m) => m.id,
    }
}

/// Whether an item is visible by itself.
pub fn is_visible(item: &SceneItem) -> (r: bool)
    ensures
        r == item@.visible(),
{
    match item {
        SceneItem::Image(o) => o.visible,
        SceneItem::Particle(p) => p.visible,
        SceneItem::Text(t) => t.visible,
        SceneItem::Model(m) => m.visible,
    }
}

pub fn set_visible(item: &mut SceneItem, v: bool)
    ensures
        final(item)@ == old(item)@.with_visible(v),
{
    match item {
        SceneItem::Image(o) => {
            o.visible = v;
        },
        SceneItem::Particle(p) => {
            p.visible = v;
        },
        SceneItem::Text(t) => {
            t.visible = v;
        },
        SceneItem::Model(m) => {
            m.visible = v;
        },
    }
}

/// A change that every item takes in its own way.
pub trait Change {
    spec fn changed(&self, item: ItemModel) -> ItemModel;

    fn change(&self, item: &mut SceneItem)
        ensures
            final(item)@ == self.changed(old(item)@),
    ;
}

/// All items after a change.
pub open spec fn changed_all<C: Change>(c: C, items: Seq<ItemModel>) -> Seq<ItemModel> {
    Seq::new(items.len(), |i: int| c.changed(items[i]))
}

pub fn change_all<C: Change>(items: &mut Vec<SceneItem>, c: &C)
    ensures
        views(final(items)@) == changed_all(*c, views(old(items)@)),
        final(items)@.len() == old(items)@.len(),
{
    let ghost start = views(items@);
    let n: usize = items.len();
    let mut i: usize = 0;
    while i < n
        invariant
            i <= n,
            n == items@.len(),
            start.len() == n,
            forall|j: int| 0 <= j < i ==> (#[trigger] items@[j])@ == c.changed(start[j]),
            forall|j: int| i <= j < n ==> (#[trigger] items@[j])@ == start[j],
        decreases n - i,
    {
        assert(items@[i as int]@ == start[i as int]);
        c.change(&mut items[i]);
        i += 1;
    }
    assert(views(items@) =~= changed_all(*c, start));
}

/// Hides every item of an object.
pub struct Hide {
    pub id: i64,
}

impl Change for Hide {
    open spec fn changed(&self, item: ItemModel) -> ItemModel {
        if item.id() == self.id {
            item.with_visible(false)
        } else {
            item
        }
    }

    fn change(&self, item: &mut SceneItem) {
        if item_id(item) == self.id {
            set_visible(item, false);
        }
    }
}

/// Shows or hides the image layers of an object.
pub struct ShowImage {
    pub id: i64,
    pub visible: bool,
}

impl Change for ShowImage {
    open spec fn changed(&self, item: ItemModel) -> ItemModel {
        if item is Image && item.id() == self.id {
            item.with_visible(self.visible)
        } else {
            item
        }
    }

    fn change(&self, item: &mut SceneItem) {
        if let SceneItem::Image(o) = item {
            if o.id == self.id {
                o.visible = self.visible;
            }
        }
    }
}

/// Hangs the image layers of an object from another.
pub struct Reparent {
    pub id: i64,
    pub parent: i64,
}

impl Change for Reparent {
    open spec fn changed(&self, item: ItemModel) -> ItemModel {
        match item {
            ItemModel::Image(o) => if o.id == self.id {
                ItemModel::Image(ImageItemModel { parent: Some(self.parent), ..o })
            } else {
                item
            },
            _ => item,
        }
    }

    fn change(&self, item: &mut SceneItem) {
        if let SceneItem::Image(o) = item {
            if o.id == self.id {
                o.parent = Some(self.parent);
            }
        }
    }
}

/// Hides all but the wanted objects.
pub struct Pick<'a> {
    pub only: &'a Vec<i64>,
    pub skip: &'a Vec<i64>,
}

/// Whether a list holds an id.
pub fn lists(ids: &Vec<i64>, id: i64) -> (r: bool)
    ensures
        r == ids@.contains(id),
{
    let mut i: usize = 0;
    while i < ids.len()
        invariant
            i <= ids@.len(),
            forall|j: int| 0 <= j < i ==> ids@[j] != id,
        decreases ids@.len() - i,
    {
        if ids[i] == id {
            assert(ids@.contains(id));
            return true;
        }
        i += 1;
    }
    false
}

impl<'a> Change for Pick<'a> {
    open spec fn changed(&self, item: ItemModel) -> ItemModel {
        let wanted = self.only@.len() == 0 || self.only@.contains(item.id());
        if wanted && !self.skip@.contains(item.id()) {
            item
        } else {
            item.with_visible(false)
        }
    }

    fn change(&self, item: &mut SceneItem) {
        let id = item_id(item);
        let wanted = self.only.len() == 0 || lists(self.only, id);
        if wanted && !lists(self.skip, id) {
            return;
        }
        set_visible(item, false);
    }
}

/// The image after an update.
pub open spec fn updated_image(o: ImageItemModel, u: UpdateModel) -> ImageItemModel {
    match u.target {
        PropTarget::Alpha => ImageItemModel { alpha: given(o.alpha, number_of(u.value)), ..o },
        PropTarget::Brightness => ImageItemModel {
            brightness: given(o.brightness, number_of(u.value)),
            ..o
        },
        PropTarget::Color => ImageItemModel { color: given(o.color, colour_of(u.value)), ..o },
        PropTarget::Visible => match u.value {
            Scripted::Bool(v) => ImageItemModel { visible: v, ..o },
            _ => o,
        },
        PropTarget::ParallaxDepth => match u.vector() {
            Some(v) => ImageItemModel { parallax_depth: (v.0, v.1), ..o },
            None => o,
        },
        _ => o,
    }
}

/// The particle system after an update.
pub open spec fn updated_particle(p: ParticleItemModel, u: UpdateModel) -> ParticleItemModel {
    match u.target {
        PropTarget::ParticleRate => match number_of(u.value) {
            Some(n) => ParticleItemModel { rate: Some(n), ..p },
            None => p,
        },
        PropTarget::Visible => match u.value {
            Scripted::Bool(v) => ParticleItemModel { visible: v, ..p },
            _ => p,
        },
        _ => p,
    }
}

/// What of a text an update may change: whether it is shown, where it stands,
/// its tint, or the text itself.
#[derive(Clone, Copy, Debug, PartialEq, Eq, Structural)]
pub enum Aspect {
    State,
    Place,
    Tint,
    Words,
}

/// The text after an update.
pub open spec fn updated_text(t: TextItemModel, u: UpdateModel, aspect: Aspect) -> TextItemModel {
    match (aspect, u.target) {
        (Aspect::State, PropTarget::Visible) => match u.value {
            Scripted::Bool(v) => TextItemModel { visible: v, ..t },
            _ => t,
        },
        (Aspect::Place, PropTarget::Origin) => match u.vector() {
            Some(v) => TextItemModel { origin: (v.0, v.1), ..t },
            None => t,
        },
        (Aspect::Place, PropTarget::Scale) => match u.vector() {
            Some(v) => TextItemModel { scale: (v.0, v.1), ..t },
            None => t,
        },
        (Aspect::Tint, PropTarget::Color) => TextItemModel {
            tint: given(t.tint, colour_of(u.value)),
            ..t
        },
        (Aspect::Tint, PropTarget::Alpha) => TextItemModel {
            alpha: given(t.alpha, number_of(u.value)),
            ..t
        },
        (Aspect::Words, PropTarget::Text) => match u.value {
            Scripted::Str(s) => TextItemModel { text: s, ..t },
            _ => t,
        },
        _ => t,
    }
}

/// The model after an update.
pub open spec fn updated_model(m: ModelItemModel, u: UpdateModel) -> ModelItemModel {
    match u.target {
        PropTarget::Visible => match u.value {
            Scripted::Bool(v) => ModelItemModel { visible: v, ..m },
            _ => m,
        },
        PropTarget::Origin => ModelItemModel { origin: given(m.origin, u.vector()), ..m },
        PropTarget::Scale => ModelItemModel { scale: given(m.scale, u.vector()), ..m },
        PropTarget::Angles => ModelItemModel { angles: given(m.angles, u.vector()), ..m },
        _ => m,
    }
}

/// An item after an update; one of another object stays as it is. What is
/// not a text takes all of an update as its state.
pub open spec fn updated_item(item: ItemModel, u: UpdateModel, aspect: Aspect) -> ItemModel {
    if item.id() != u.object_id {
        item
    } else {
        match item {
            ItemModel::Text(t) => ItemModel::Text(updated_text(t, u, aspect)),
            _ => if aspect == Aspect::State {
                match item {
                    ItemModel::Image(o) => ItemModel::Image(updated_image(o, u)),
                    ItemModel::Particle(p) => ItemModel::Particle(updated_particle(p, u)),
                    ItemModel::Model(m) => ItemModel::Model(updated_model(m, u)),
                    _ => item,
                }
            } else {
                item
            },
        }
    }
}

fn update_image(o: &mut ImageItem, u: &PropUpdate)
    ensures
        final(o)@ == updated_image(old(o)@, u@),
{
    match u.target {
        PropTarget::Alpha => {
            if let Some(a) = as_f32(&u.value) {
                o.alpha = a;
            }
        },
        PropTarget::Brightness => {
            if let Some(b) = as_f32(&u.value) {
                o.brightness = b;
            }
        },
        PropTarget::Color => {
            if let Some(c) = as_rgb(&u.value) {
                o.color = c;
            }
        },
        PropTarget::Visible => {
            if let ScriptValue::Bool(v) = &u.value {
                o.visible = *v;
            }
        },
        PropTarget::ParallaxDepth => {
            if let Some(v) = u.vector() {
                o.parallax_depth = Vec2 { x: v.x, y: v.y };
            }
        },
        _ => {},
    }
}

fn update_particle(p: &mut ParticleItem, u: &PropUpdate)
    ensures
        final(p)@ == updated_particle(old(p)@, u@),
{
    match u.target {
        PropTarget::ParticleRate => {
            if let Some(r) = as_f32(&u.value) {
                p.rate = Some(r);
            }
        },
        PropTarget::Visible => {
            if let ScriptValue::Bool(v) = &u.value {
                p.visible = *v;
            }
        },
        _ => {},
    }
}

fn update_text(t: &mut TextItem, u: &PropUpdate, aspect: Aspect)
    ensures
        final(t)@ == updated_text(old(t)@, u@, aspect),
{
    match (aspect, u.target) {
        (Aspect::State, PropTarget::Visible) => {
            if let ScriptValue::Bool(v) = &u.value {
                t.visible = *v;
            }
        },
        (Aspect::Place, PropTarget::Origin) => {
            if let Some(v) = u.vector() {
                t.origin = Vec2 { x: v.x, y: v.y };
            }
        },
        (Aspect::Place, PropTarget::Scale) => {
            if let Some(v) = u.vector() {
                t.scale = Vec2 { x: v.x, y: v.y };
            }
        },
        (Aspect::Tint, PropTarget::Color) => {
            if let Some(c) = as_rgb(&u.value) {
                t.tint = c;
            }
        },
        (Aspect::Tint, PropTarget::Alpha) => {
            if let Some(a) = as_f32(&u.value) {
                t.alpha = a;
            }
        },
        (Aspect::Words, PropTarget::Text) => {
            if let ScriptValue::Str(s) = &u.value {
                t.text = s.clone();
            }
        },
        _ => {},
    }
}

fn update_model(m: &mut ModelItem, u: &PropUpdate)
    ensures
        final(m)@ == updated_model(old(m)@, u@),
{
    match u.target {
        PropTarget::Visible => {
            if let ScriptValue::Bool(v) = &u.value {
                m.visible = *v;
            }
        },
        PropTarget::Origin => {
            if let Some(v) = u.vector() {
                m.set_origin(v);
            }
        },
        PropTarget::Scale => {
            if let Some(v) = u.vector() {
                m.set_scale(v);
            }
        },
        PropTarget::Angles => {
            if let Some(v) = u.vector() {
                m.set_angles(v);
            }
        },
        _ => {},
    }
}

/// An update, and what of a text it may change.
pub struct Update<'a> {
    pub update: &'a PropUpdate,
    pub aspect: Aspect,
}

impl<'a> Change for Update<'a> {
    open spec fn changed(&self, item: ItemModel) -> ItemModel {
        updated_item(item, self.update@, self.aspect)
    }

    fn change(&self, item: &mut SceneItem) {
        if item_id(item) != self.update.object_id {
            return;
        }
        if let SceneItem::Text(t) = item {
            update_text(t, self.update, self.aspect);
            return;
        }
        match self.aspect {
            Aspect::State => match item {
                SceneItem::Image(o) => update_image(o, self.update),
                SceneItem::Particle(p) => update_particle(p, self.update),
                SceneItem::Text(_) => {},
                SceneItem::Model(m) => update_model(m, self.update),
            },
            _ => {},
        }
    }
}

/// All items after one update.
pub open spec fn items_updated(
    items: Seq<ItemModel>,
    u: UpdateModel,
    aspect: Aspect,
) -> Seq<ItemModel> {
    Seq::new(items.len(), |i: int| updated_item(items[i], u, aspect))
}

/// All items after the first `k` updates.
pub open spec fn items_after(
    items: Seq<ItemModel>,
    updates: Seq<UpdateModel>,
    aspect: Aspect,
    k: int,
) -> Seq<ItemModel>
    decreases k,
{
    if k <= 0 {
        items
    } else {
        items_updated(items_after(items, updates, aspect, k - 1), updates[k - 1], aspect)
    }
}

/// Applies one aspect of the updates in turn, each to all items.
pub fn apply_aspect(items: &mut Vec<SceneItem>, updates: &Vec<PropUpdate>, aspect: Aspect)
    ensures
        views(final(items)@) == items_after(
            views(old(items)@),
            views(updates@),
            aspect,
            updates@.len() as int,
        ),
        final(items)@.len() == old(items)@.len(),
{
    let ghost start = views(items@);
    let ghost len = items@.len();
    let ghost all = views(updates@);
    let mut k: usize = 0;
    while k < updates.len()
        invariant
            k <= updates@.len(),
            all == views(updates@),
            items@.len() == len,
            views(items@) == items_after(start, all, aspect, k as int),
        decreases updates@.len() - k,
    {
        let u = Update { update: &updates[k], aspect };
        assert(all[k as int] == u.update@);
        let ghost before = views(items@);
        change_all(items, &u);
        assert(changed_all(u, before) =~= items_updated(before, u.update@, aspect));
        k += 1;
    }
}

/// Applies the updates in turn, each to all items.
pub fn apply_script_updates(items: &mut Vec<SceneItem>, updates: &Vec<PropUpdate>)
    ensures
        views(final(items)@) == items_after(
            views(old(items)@),
            views(updates@),
            Aspect::State,
            updates@.len() as int,
        ),
        final(items)@.len() == old(items)@.len(),
{
    apply_aspect(items, updates, Aspect::State);
}

/// The items of an object that no update speaks of stay as they are.
pub proof fn law_updates_touch_their_object_alone(
    items: Seq<ItemModel>,
    updates: Seq<UpdateModel>,
    aspect: Aspect,
    k: int,
    i: int,
)
    requires
        0 <= k <= updates.len(),
        0 <= i < items.len(),
        forall|j: int| 0 <= j < k ==> (#[trigger] updates[j]).object_id != items[i].id(),
    ensures
        items_after(items, updates, aspect, k).len() == items.len(),
        items_after(items, updates, aspect, k)[i] == items[i],
    decreases k,
{
    if k > 0 {
        law_updates_touch_their_object_alone(items, updates, aspect, k - 1, i);
        assert(updates[k - 1].object_id != items[i].id());
    }
}

/// The value that a script's value is for a shader; none if it is none.
pub open spec fn constant_of(v: Scripted) -> Option<Dynamic> {
    match v {
        Scripted::Float(f) => Some(Dynamic::Float(Number::Real(f))),
        Scripted::Int(i) => Some(Dynamic::Int(i)),
        Scripted::Vec2(a) => Some(
            Dynamic::Vec(seq![Number::Single(a[0]), Number::Single(a[1])]),
        ),
        Scripted::Vec3(a) => Some(
            Dynamic::Vec(seq![Number::Single(a[0]), Number::Single(a[1]), Number::Single(a[2])]),
        ),
        Scripted::Vec4(a) => Some(
            Dynamic::Vec(
                seq![
                    Number::Single(a[0]),
                    Number::Single(a[1]),
                    Number::Single(a[2]),
                    Number::Single(a[3]),
                ],
            ),
        ),
        _ => None,
    }
}

fn constant_value(v: &ScriptValue) -> (r: Option<DynamicValue>)
    ensures
        opt_view(r) == constant_of(v@),
{
    let mut out: Vec<Scalar> = Vec::new();
    match v {
        ScriptValue::Float(f) => {
            return Some(DynamicValue::Float(Scalar::Real(*f)));
        },
        ScriptValue::Int(i) => {
            return Some(DynamicValue::Int(*i));
        },
        ScriptValue::Vec2(a) => {
            out.push(Scalar::Single(a[0]));
            out.push(Scalar::Single(a[1]));
        },
        ScriptValue::Vec3(a) => {
            out.push(Scalar::Single(a[0]));
            out.push(Scalar::Single(a[1]));
            out.push(Scalar::Single(a[2]));
        },
        ScriptValue::Vec4(a) => {
            out.push(Scalar::Single(a[0]));
            out.push(Scalar::Single(a[1]));
            out.push(Scalar::Single(a[2]));
            out.push(Scalar::Single(a[3]));
        },
        _ => {
            return None;
        },
    }
    assert(views(out@) =~= constant_of(v@)->0->Vec_0);
    Some(DynamicValue::Vec(out))
}

/// Sets a constant of an effect's passes.
pub struct SetConstant<'a> {
    pub layer_id: i64,
    pub effect: usize,
    pub name: &'a str,
    pub value: DynamicValue,
}

/// Passes with a constant set.
pub open spec fn with_constant(
    passes: Seq<LivePassModel>,
    effect: usize,
    name: Seq<char>,
    v: Dynamic,
) -> Seq<LivePassModel> {
    Seq::new(passes.len(), |i: int| passes[i].with_constant(effect, name, v))
}

/// Passes with changed properties.
pub open spec fn with_properties(passes: Seq<LivePassModel>, bag: Bag) -> Seq<LivePassModel> {
    Seq::new(passes.len(), |i: int| passes[i].with_properties(bag))
}

impl<'a> Change for SetConstant<'a> {
    open spec fn changed(&self, item: ItemModel) -> ItemModel {
        match item {
            ItemModel::Image(o) => if o.id == self.layer_id {
                ItemModel::Image(
                    ImageItemModel {
                        passes: with_constant(o.passes, self.effect, self.name@, self.value@),
                        ..o
                    },
                )
            } else {
                item
            },
            _ => item,
        }
    }

    fn change(&self, item: &mut SceneItem) {
        if let SceneItem::Image(o) = item {
            if o.id == self.layer_id {
                let ghost start = views(o.passes@);
                let n: usize = o.passes.len();
                let mut i: usize = 0;
                let ghost frame = o@;
                while i < n
                    invariant
                        i <= n,
                        n == o.passes@.len(),
                        start.len() == n,
                        o@ == (ImageItemModel { passes: views(o.passes@), ..frame }),
                        forall|j: int|
                            0 <= j < i ==> (#[trigger] o.passes@[j])@ == start[j].with_constant(
                                self.effect,
                                self.name@,
                                self.value@,
                            ),
                        forall|j: int| i <= j < n ==> (#[trigger] o.passes@[j])@ == start[j],
                    decreases n - i,
                {
                    assert(o.passes@[i as int]@ == start[i as int]);
                    o.passes[i].set_constant(self.effect, self.name, &self.value);
                    i += 1;
                }
                assert(views(o.passes@) =~= with_constant(
                    start,
                    self.effect,
                    self.name@,
                    self.value@,
                ));
            }
        }
    }
}

/// All items after a constant is set on a layer's effect. A value that a
/// shader cannot take changes nothing.
pub open spec fn material_set(
    items: Seq<ItemModel>,
    layer_id: i64,
    effect: usize,
    name: Seq<char>,
    value: Scripted,
) -> Seq<ItemModel> {
    match constant_of(value) {
        Some(v) => Seq::new(
            items.len(),
            |i: int|
                match items[i] {
                    ItemModel::Image(o) => if o.id == layer_id {
                        ItemModel::Image(
                            ImageItemModel { passes: with_constant(o.passes, effect, name, v), ..o },
                        )
                    } else {
                        items[i]
                    },
                    _ => items[i],
                },
        ),
        None => items,
    }
}

pub fn apply_material_op(
    items: &mut Vec<SceneItem>,
    layer_id: i64,
    effect_idx: usize,
    name: &str,
    value: &ScriptValue,
)
    ensures
        views(final(items)@) == material_set(
            views(old(items)@),
            layer_id,
            effect_idx,
            name@,
            value@,
        ),
        final(items)@.len() == old(items)@.len(),
{
    let ghost start = views(items@);
    if let Some(v) = constant_value(value) {
        let c = SetConstant { layer_id, effect: effect_idx, name, value: v };
        change_all(items, &c);
        assert(changed_all(c, start) =~= material_set(start, layer_id, effect_idx, name@, value@));
    }
}

/// Changed properties, for the constants that follow them.
pub struct Properties<'a> {
    pub bag: &'a PropertyBag,
}

impl<'a> Change for Properties<'a> {
    open spec fn changed(&self, item: ItemModel) -> ItemModel {
        match item {
            ItemModel::Image(o) => ItemModel::Image(
                ImageItemModel { passes: with_properties(o.passes, self.bag@), ..o },
            ),
            _ => item,
        }
    }

    fn change(&self, item: &mut SceneItem) {
        if let SceneItem::Image(o) = item {
            let ghost start = views(o.passes@);
            let n: usize = o.passes.len();
            let mut i: usize = 0;
            let ghost frame = o@;
            while i < n
                invariant
                    i <= n,
                    n == o.passes@.len(),
                    start.len() == n,
                    o@ == (ImageItemModel { passes: views(o.passes@), ..frame }),
                    forall|j: int|
                        0 <= j < i ==> (#[trigger] o.passes@[j])@ == start[j].with_properties(
                            self.bag@,
                        ),
                    forall|j: int| i <= j < n ==> (#[trigger] o.passes@[j])@ == start[j],
                decreases n - i,
            {
                assert(o.passes@[i as int]@ == start[i as int]);
                o.passes[i].set_properties(self.bag);
                i += 1;
            }
            assert(views(o.passes@) =~= with_properties(start, self.bag@));
        }
    }
}

} // verus!
