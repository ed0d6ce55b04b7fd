//! The scene as its scripts see it, and what they do to it.
use vstd::prelude::*;

use crate::copy::{copy_opt, copy_vec, Duplicate};
use crate::script::{
    as_f32, as_flag, as_rgb, as_vec3, colour_of, flag_of, number_of, prop_to_script,
    property_for_script, vector_of, ScriptValue, Scripted,
};
use crate::strings::{lemma_views_push, opt_view, same_text, views};
use crate::table::TextMap;
use crate::value::{Number, Scalar, Vec2, Vec3, ONE_BITS, ZERO_BITS};

verus! {

/// The property of a layer that an update is about.
#[derive(Clone, Copy, Debug, PartialEq, Eq, Structural)]
pub enum PropTarget {
    Alpha,
    Brightness,
    Color,
    Visible,
    Text,
    ParticleRate,
    Origin,
    Scale,
    Angles,
    ParallaxDepth,
    Volume,
}

/// The property of that name, if there is one.
pub open spec fn target_of(name: Seq<char>) -> Option<PropTarget> {
    if name == "alpha"@ {
        Some(PropTarget::Alpha)
    } else if name == "brightness"@ {
        Some(PropTarget::Brightness)
    } else if name == "color"@ {
        Some(PropTarget::Color)
    } else if name == "visible"@ {
        Some(PropTarget::Visible)
    } else if name == "text"@ {
        Some(PropTarget::Text)
    } else if name == "rate"@ {
        Some(PropTarget::ParticleRate)
    } else if name == "origin"@ {
        Some(PropTarget::Origin)
    } else if name == "scale"@ {
        Some(PropTarget::Scale)
    } else if name == "angles"@ {
        Some(PropTarget::Angles)
    } else if name == "parallaxDepth"@ {
        Some(PropTarget::ParallaxDepth)
    } else if name == "volume"@ {
        Some(PropTarget::Volume)
    } else {
        None
    }
}

impl PropTarget {
    pub fn from_field(name: &str) -> (r: Option<Self>)
        ensures
            r == target_of(name@),
    {
        if same_text(name, "alpha") {
            Some(PropTarget::Alpha)
        } else if same_text(name, "brightness") {
            Some(PropTarget::Brightness)
        } else if same_text(name, "color") {
            Some(PropTarget::Color)
        } else if same_text(name, "visible") {
            Some(PropTarget::Visible)
        } else if same_text(name, "text") {
            Some(PropTarget::Text)
        } else if same_text(name, "rate") {
            Some(PropTarget::ParticleRate)
        } else if same_text(name, "origin") {
            Some(PropTarget::Origin)
        } else if same_text(name, "scale") {
            Some(PropTarget::Scale)
        } else if same_text(name, "angles") {
            Some(PropTarget::Angles)
        } else if same_text(name, "parallaxDepth") {
            Some(PropTarget::ParallaxDepth)
        } else if same_text(name, "volume") {
            Some(PropTarget::Volume)
        } else {
            None
        }
    }
}

/// A property that a script drives, and the key under which it answers.
#[derive(Debug)]
pub struct ScriptedProp {
    pub key: String,
    pub object_id: i64,
    pub target: PropTarget,
    pub effect_constant: Option<EffectConstant>,
}

/// The constant of an effect that a script drives.
#[derive(Debug)]
pub struct EffectConstant {
    pub effect: usize,
    pub name: String,
}

impl View for EffectConstant {
    type V = (usize, Seq<char>);

    open spec fn view(&self) -> (usize, Seq<char>) {
        (self.effect, self.name@)
    }
}

/// What a [`ScriptedProp`] holds.
pub struct PropModel {
    pub key: Seq<char>,
    pub object_id: i64,
    pub target: PropTarget,
    pub effect_constant: Option<(usize, Seq<char>)>,
}

impl View for ScriptedProp {
    type V = PropModel;

    open spec fn view(&self) -> PropModel {
        PropModel {
            key: self.key@,
            object_id: self.object_id,
            target: self.target,
            effect_constant: opt_view(self.effect_constant),
        }
    }
}

/// A new value for a property of a layer. Scripts give angles in degrees, the
/// scene keeps them in radians: `in_degrees` says which this value is in.
#[derive(Debug, PartialEq)]
pub struct PropUpdate {
    pub object_id: i64,
    pub target: PropTarget,
    pub value: ScriptValue,
    pub in_degrees: bool,
}

/// What a [`PropUpdate`] holds.
pub struct UpdateModel {
    pub object_id: i64,
    pub target: PropTarget,
    pub value: Scripted,
    pub in_degrees: bool,
}

impl View for PropUpdate {
    type V = UpdateModel;

    open spec fn view(&self) -> UpdateModel {
        UpdateModel {
            object_id: self.object_id,
            target: self.target,
            value: self.value@,
            in_degrees: self.in_degrees,
        }
    }
}

/// Three numbers of degrees, in radians.
pub open spec fn in_radians(v: (Number, Number, Number)) -> (Number, Number, Number) {
    (
        Number::Radians(Box::new(v.0)),
        Number::Radians(Box::new(v.1)),
        Number::Radians(Box::new(v.2)),
    )
}

/// Three numbers of radians, in degrees.
pub open spec fn in_degrees(v: (Number, Number, Number)) -> (Number, Number, Number) {
    (
        Number::Degrees(Box::new(v.0)),
        Number::Degrees(Box::new(v.1)),
        Number::Degrees(Box::new(v.2)),
    )
}

impl UpdateModel {
    /// The vector of an update in the scene's own units.
    pub open spec fn vector(self) -> Option<(Number, Number, Number)> {
        match vector_of(self.value) {
            Some(v) => Some(
                if self.in_degrees {
                    in_radians(v)
                } else {
                    v
                },
            ),
            None => None,
        }
    }
}

fn to_radians(v: Vec3) -> (r: Vec3)
    ensures
        r@ == in_radians(v@),
{
    Vec3 {
        x: Scalar::Radians(Box::new(v.x)),
        y: Scalar::Radians(Box::new(v.y)),
        z: Scalar::Radians(Box::new(v.z)),
    }
}

pub(crate) fn to_degrees(v: Vec3) -> (r: Vec3)
    ensures
        r@ == in_degrees(v@),
{
    Vec3 {
        x: Scalar::Degrees(Box::new(v.x)),
        y: Scalar::Degrees(Box::new(v.y)),
        z: Scalar::Degrees(Box::new(v.z)),
    }
}

impl PropUpdate {
    /// The vector of the update in the scene's own units.
    pub fn vector(&self) -> (r: Option<Vec3>)
        ensures
            match r {
                Some(v) => self@.vector() == Some(v@),
                None => self@.vector() is None,
            },
    {
        match as_vec3(&self.value) {
            Some(v) => if self.in_degrees {
                Some(to_radians(v))
            } else {
                Some(v)
            },
            None => None,
        }
    }
}

/// What a script does to the camera. The numbers are bits of singles.
#[derive(Clone, Copy, Debug, PartialEq)]
pub struct CameraOp {
    pub eye: Option<[u32; 3]>,
    pub center: Option<[u32; 3]>,
    pub up: Option<[u32; 3]>,
    pub fov: Option<u32>,
    pub zoom: Option<u32>,
}

/// `new` where it is given, else `old`.
pub open spec fn newer<T>(old_value: Option<T>, new_value: Option<T>) -> Option<T> {
    if new_value is Some {
        new_value
    } else {
        old_value
    }
}

/// A camera operation with nothing in it.
pub open spec fn no_camera_op() -> CameraOp {
    CameraOp { eye: None, center: None, up: None, fov: None, zoom: None }
}

/// A camera operation after another: what the second gives wins, field by field.
pub open spec fn camera_then(slot: Option<CameraOp>, op: CameraOp) -> CameraOp {
    let old_op = match slot {
        Some(o) => o,
        None => no_camera_op(),
    };
    CameraOp {
        eye: newer(old_op.eye, op.eye),
        center: newer(old_op.center, op.center),
        up: newer(old_op.up, op.up),
        fov: newer(old_op.fov, op.fov),
        zoom: newer(old_op.zoom, op.zoom),
    }
}

/// Adds a camera operation to those that wait.
pub fn merge_camera(slot: &mut Option<CameraOp>, op: CameraOp)
    ensures
        *final(slot) == Some(camera_then(*old(slot), op)),
{
    let mut dst = match *slot {
        Some(o) => o,
        None => CameraOp { eye: None, center: None, up: None, fov: None, zoom: None },
    };
    if op.eye.is_some() {
        dst.eye = op.eye;
    }
    if op.center.is_some() {
        dst.center = op.center;
    }
    if op.up.is_some() {
        dst.up = op.up;
    }
    if op.fov.is_some() {
        dst.fov = op.fov;
    }
    if op.zoom.is_some() {
        dst.zoom = op.zoom;
    }
    *slot = Some(dst);
}

/// Merging camera operations is merging them field by field, so it does not
/// matter how a run of them is grouped.
pub proof fn law_camera_ops_group(slot: Option<CameraOp>, a: CameraOp, b: CameraOp)
    ensures
        camera_then(Some(camera_then(slot, a)), b) == camera_then(
            slot,
            camera_then(Some(a), b),
        ),
{
}

/// An effect of a layer: its name, and how many of its passes have a material.
#[derive(Debug)]
pub struct EffectInfo {
    pub name: String,
    pub materials: u32,
}

impl View for EffectInfo {
    type V = (Seq<char>, u32);

    open spec fn view(&self) -> (Seq<char>, u32) {
        (self.name@, self.materials)
    }
}

impl Duplicate for EffectInfo {
    fn duplicate(&self) -> (r: Self) {
        EffectInfo { name: self.name.clone(), materials: self.materials }
    }
}

/// A layer as scripts see it. Angles are in degrees.
#[derive(Debug)]
pub struct LayerState {
    pub id: i64,
    pub name: String,
    pub parent: Option<i64>,
    pub origin: Option<Vec3>,
    pub scale: Option<Vec3>,
    pub angles: Option<Vec3>,
    pub visible: Option<bool>,
    pub alpha: Option<Scalar>,
    pub color: Option<Vec3>,
    pub text: Option<String>,
    pub size: Option<Vec2>,
    pub point_size: Option<Scalar>,
    pub effects: Option<Vec<EffectInfo>>,
    pub solid: Option<bool>,
    pub parallax_depth: Option<Scalar>,
}

/// What a [`LayerState`] holds.
pub struct LayerModel {
    pub id: i64,
    pub name: Seq<char>,
    pub parent: Option<i64>,
    pub origin: Option<(Number, Number, Number)>,
    pub scale: Option<(Number, Number, Number)>,
    pub angles: Option<(Number, Number, Number)>,
    pub visible: Option<bool>,
    pub alpha: Option<Number>,
    pub color: Option<(Number, Number, Number)>,
    pub text: Option<Seq<char>>,
    pub size: Option<(Number, Number)>,
    pub point_size: Option<Number>,
    pub effects: Option<Seq<(Seq<char>, u32)>>,
    pub solid: Option<bool>,
    pub parallax_depth: Option<Number>,
}

impl View for LayerState {
    type V = LayerModel;

    open spec fn view(&self) -> LayerModel {
        LayerModel {
            id: self.id,
            name: self.name@,
            parent: self.parent,
            origin: opt_view(self.origin),
            scale: opt_view(self.scale),
            angles: opt_view(self.angles),
            visible: self.visible,
            alpha: opt_view(self.alpha),
            color: opt_view(self.color),
            text: opt_view(self.text),
            size: opt_view(self.size),
            point_size: opt_view(self.point_size),
            effects: match self.effects {
                Some(e) => Some(views(e@)),
                None => None,
            },
            solid: self.solid,
            parallax_depth: opt_view(self.parallax_depth),
        }
    }
}

impl Duplicate for LayerState {
    fn duplicate(&self) -> (r: Self) {
        LayerState {
            id: self.id,
            name: self.name.clone(),
            parent: self.parent,
            origin: copy_opt(&self.origin),
            scale: copy_opt(&self.scale),
            angles: copy_opt(&self.angles),
            visible: self.visible,
            alpha: copy_opt(&self.alpha),
            color: copy_opt(&self.color),
            text: copy_opt(&self.text),
            size: copy_opt(&self.size),
            point_size: copy_opt(&self.point_size),
            effects: match &self.effects {
                Some(e) => Some(copy_vec(e)),
                None => None,
            },
            solid: self.solid,
            parallax_depth: copy_opt(&self.parallax_depth),
        }
    }
}

/// A layer of that id with nothing known of it.
pub open spec fn blank_layer(id: i64, name: Seq<char>) -> LayerModel {
    LayerModel {
        id,
        name,
        parent: None,
        origin: None,
        scale: None,
        angles: None,
        visible: None,
        alpha: None,
        color: None,
        text: None,
        size: None,
        point_size: None,
        effects: None,
        solid: None,
        parallax_depth: None,
    }
}

impl LayerState {
    pub fn blank(id: i64, name: String) -> (r: LayerState)
        ensures
            r@ == blank_layer(id, name@),
    {
        LayerState {
            id,
            name,
            parent: None,
            origin: None,
            scale: None,
            angles: None,
            visible: None,
            alpha: None,
            color: None,
            text: None,
            size: None,
            point_size: None,
            effects: None,
            solid: None,
            parallax_depth: None,
        }
    }
}

/// Where the layer of that id first stands.
pub open spec fn layer_at(layers: Seq<LayerModel>, id: i64, from: int) -> Option<int>
    decreases layers.len() - from,
{
    if from < 0 || from >= layers.len() {
        None
    } else if layers[from].id == id {
        Some(from)
    } else {
        layer_at(layers, id, from + 1)
    }
}

fn find_layer(layers: &Vec<LayerState>, id: i64) -> (r: Option<usize>)
    ensures
        match r {
            Some(i) => layer_at(views(layers@), id, 0) == Some(i as int) && i < layers@.len(),
            None => layer_at(views(layers@), id, 0) is None,
        },
{
    let mut i: usize = 0;
    while i < layers.len()
        invariant
            i <= layers@.len(),
            layer_at(views(layers@), id, 0) == layer_at(views(layers@), id, i as int),
        decreases layers@.len() - i,
    {
        if layers[i].id == id {
            return Some(i);
        }
        i += 1;
    }
    None
}

/// A layer after a value was recorded in it. A value that does not fit the
/// property changes nothing.
pub open spec fn recorded(layer: LayerModel, target: PropTarget, value: Scripted) -> LayerModel {
    match target {
        PropTarget::Alpha => LayerModel { alpha: newer(layer.alpha, number_of(value)), ..layer },
        PropTarget::Color => LayerModel { color: newer(layer.color, colour_of(value)), ..layer },
        PropTarget::Visible => match value {
            Scripted::Bool(b) => LayerModel { visible: Some(b), ..layer },
            _ => layer,
        },
        PropTarget::Text => match value {
            Scripted::Str(s) => LayerModel { text: Some(s), ..layer },
            _ => layer,
        },
        PropTarget::Origin => LayerModel { origin: newer(layer.origin, vector_of(value)), ..layer },
        PropTarget::Scale => LayerModel { scale: newer(layer.scale, vector_of(value)), ..layer },
        PropTarget::Angles => LayerModel { angles: newer(layer.angles, vector_of(value)), ..layer },
        PropTarget::ParallaxDepth => match vector_of(value) {
            Some(v) => LayerModel { parallax_depth: Some(v.0), ..layer },
            None => layer,
        },
        PropTarget::Brightness | PropTarget::ParticleRate | PropTarget::Volume => layer,
    }
}

/// The layers after a value was recorded in the one of that id.
pub open spec fn recorded_in(
    layers: Seq<LayerModel>,
    id: i64,
    target: PropTarget,
    value: Scripted,
) -> Seq<LayerModel> {
    match layer_at(layers, id, 0) {
        Some(i) => layers.update(i, recorded(layers[i], target, value)),
        None => layers,
    }
}

fn record(layer: &mut LayerState, target: PropTarget, value: &ScriptValue)
    ensures
        final(layer)@ == recorded(old(layer)@, target, value@),
{
    match target {
        PropTarget::Alpha => {
            if let Some(a) = as_f32(value) {
                layer.alpha = Some(a);
            }
        },
        PropTarget::Color => {
            if let Some(c) = as_rgb(value) {
                layer.color = Some(c);
            }
        },
        PropTarget::Visible => {
            if let ScriptValue::Bool(b) = value {
                layer.visible = Some(*b);
            }
        },
        PropTarget::Text => {
            if let ScriptValue::Str(s) = value {
                layer.text = Some(s.clone());
            }
        },
        PropTarget::Origin => {
            if let Some(v) = as_vec3(value) {
                layer.origin = Some(v);
            }
        },
        PropTarget::Scale => {
            if let Some(v) = as_vec3(value) {
                layer.scale = Some(v);
            }
        },
        PropTarget::Angles => {
            if let Some(v) = as_vec3(value) {
                layer.angles = Some(v);
            }
        },
        PropTarget::ParallaxDepth => {
            if let Some(v) = as_vec3(value) {
                layer.parallax_depth = Some(v.x);
            }
        },
        PropTarget::Brightness | PropTarget::ParticleRate | PropTarget::Volume => {},
    }
}

fn record_layer(layers: &mut Vec<LayerState>, id: i64, target: PropTarget, value: &ScriptValue)
    ensures
        views(final(layers)@) == recorded_in(views(old(layers)@), id, target, value@),
{
    if let Some(i) = find_layer(layers, id) {
        let ghost before = views(layers@);
        record(&mut layers[i], target, value);
        assert(views(layers@) =~= before.update(
            i as int,
            recorded(before[i as int], target, value@),
        ));
    }
}

/// What a `SetParent` asks of the scene: nothing where a layer is unparented
/// or made its own parent.
pub fn parent_update(layer_id: i64, parent: Option<i64>) -> (r: Option<(i64, i64)>)
    ensures
        r == parent_change(layer_id, parent),
{
    match parent {
        Some(p) => if p != layer_id {
            Some((layer_id, p))
        } else {
            None
        },
        None => None,
    }
}

pub open spec fn parent_change(layer_id: i64, parent: Option<i64>) -> Option<(i64, i64)> {
    match parent {
        Some(p) => if p != layer_id {
            Some((layer_id, p))
        } else {
            None
        },
        None => None,
    }
}

/// Where a layer goes that is moved to `index` among `n` others.
pub open spec fn destination(index: i64, n: nat) -> int {
    if index < 0 || index > n {
        n as int
    } else {
        index as int
    }
}

/// The layers after the one of that id was moved to `index`.
pub open spec fn moved_layer(layers: Seq<LayerModel>, id: i64, index: i64) -> Seq<LayerModel> {
    match layer_at(layers, id, 0) {
        Some(i) => {
            let others = layers.remove(i);
            others.insert(destination(index, others.len()), layers[i])
        },
        None => layers,
    }
}

/// Moves a layer in the order. Returns whether there is such a layer.
pub fn sort_layer_apply(layers: &mut Vec<LayerState>, layer_id: i64, index: i64) -> (r: bool)
    ensures
        r == (layer_at(views(old(layers)@), layer_id, 0) is Some),
        views(final(layers)@) == moved_layer(views(old(layers)@), layer_id, index),
{
    let ghost start = views(layers@);
    match find_layer(layers, layer_id) {
        None => false,
        Some(pos) => {
            let layer = layers.remove(pos);
            assert(views(layers@) =~= start.remove(pos as int));
            let ghost others = views(layers@);
            let n: usize = layers.len();
            let at: usize = if index < 0 || index as u64 > n as u64 {
                n
            } else {
                index as usize
            };
            layers.insert(at, layer);
            assert(views(layers@) =~= others.insert(at as int, start[pos as int]));
            true
        },
    }
}

proof fn lemma_layer_at(layers: Seq<LayerModel>, id: i64, from: int)
    requires
        0 <= from,
    ensures
        match layer_at(layers, id, from) {
            Some(i) => from <= i < layers.len() && layers[i].id == id,
            None => forall|i: int| from <= i < layers.len() ==> layers[i].id != id,
        },
    decreases layers.len() - from,
{
    if from < layers.len() && layers[from].id != id {
        lemma_layer_at(layers, id, from + 1);
    }
}

/// Moving a layer keeps all layers: none is lost, doubled or changed.
pub proof fn law_moving_a_layer_keeps_all(layers: Seq<LayerModel>, id: i64, index: i64)
    ensures
        moved_layer(layers, id, index).to_multiset() == layers.to_multiset(),
{
    broadcast use vstd::seq_lib::group_to_multiset_ensures;

    lemma_layer_at(layers, id, 0);
    if let Some(i) = layer_at(layers, id, 0) {
        let others = layers.remove(i);
        let at = destination(index, others.len());
        vstd::seq_lib::to_multiset_remove(layers, i);
        vstd::seq_lib::to_multiset_insert(others, at, layers[i]);
        assert(layers.to_multiset().count(layers[i]) > 0) by {
            assert(layers.contains(layers[i]));
        }
        assert(others.to_multiset().insert(layers[i]) =~= layers.to_multiset());
    }
}

/// The camera as scripts see it.
#[derive(Debug)]
pub struct CameraState {
    pub eye: Vec3,
    pub center: Vec3,
    pub up: Vec3,
    pub fov: Scalar,
}

/// What a [`CameraState`] holds.
pub struct CameraStateModel {
    pub eye: (Number, Number, Number),
    pub center: (Number, Number, Number),
    pub up: (Number, Number, Number),
    pub fov: Number,
}

impl View for CameraState {
    type V = CameraStateModel;

    open spec fn view(&self) -> CameraStateModel {
        CameraStateModel {
            eye: self.eye@,
            center: self.center@,
            up: self.up@,
            fov: self.fov@,
        }
    }
}

/// The scene's own settings as scripts see them. The two bloom numbers are
/// read as whole numbers, towards zero.
#[derive(Debug)]
pub struct SceneState {
    pub clearcolor: Vec3,
    pub ambientcolor: Vec3,
    pub skylightcolor: Vec3,
    pub bloom: bool,
    pub bloomstrength: Scalar,
    pub bloomthreshold: Scalar,
    pub clearenabled: bool,
    pub fov: Scalar,
    pub nearz: Scalar,
    pub farz: Scalar,
    pub camerafade: bool,
    pub camerashake: bool,
    pub camerashakespeed: Scalar,
    pub camerashakeamplitude: Scalar,
    pub camerashakeroughness: Scalar,
    pub cameraparallax: bool,
    pub cameraparallaxamount: Scalar,
    pub cameraparallaxdelay: Scalar,
    pub cameraparallaxmouseinfluence: Scalar,
    pub camera: CameraState,
}

/// What a [`SceneState`] holds.
pub struct StateModel {
    pub clearcolor: (Number, Number, Number),
    pub ambientcolor: (Number, Number, Number),
    pub skylightcolor: (Number, Number, Number),
    pub bloom: bool,
    pub bloomstrength: Number,
    pub bloomthreshold: Number,
    pub clearenabled: bool,
    pub fov: Number,
    pub nearz: Number,
    pub farz: Number,
    pub camerafade: bool,
    pub camerashake: bool,
    pub camerashakespeed: Number,
    pub camerashakeamplitude: Number,
    pub camerashakeroughness: Number,
    pub cameraparallax: bool,
    pub cameraparallaxamount: Number,
    pub cameraparallaxdelay: Number,
    pub cameraparallaxmouseinfluence: Number,
    pub camera: CameraStateModel,
}

impl View for SceneState {
    type V = StateModel;

    open spec fn view(&self) -> StateModel {
        StateModel {
            clearcolor: self.clearcolor@,
            ambientcolor: self.ambientcolor@,
            skylightcolor: self.skylightcolor@,
            bloom: self.bloom,
            bloomstrength: self.bloomstrength@,
            bloomthreshold: self.bloomthreshold@,
            clearenabled: self.clearenabled,
            fov: self.fov@,
            nearz: self.nearz@,
            farz: self.farz@,
            camerafade: self.camerafade,
            camerashake: self.camerashake,
            camerashakespeed: self.camerashakespeed@,
            camerashakeamplitude: self.camerashakeamplitude@,
            camerashakeroughness: self.camerashakeroughness@,
            cameraparallax: self.cameraparallax,
            cameraparallaxamount: self.cameraparallaxamount@,
            cameraparallaxdelay: self.cameraparallaxdelay@,
            cameraparallaxmouseinfluence: self.cameraparallaxmouseinfluence@,
            camera: self.camera@,
        }
    }
}

impl Duplicate for SceneState {
    fn duplicate(&self) -> (r: Self) {
        SceneState {
            clearcolor: self.clearcolor.duplicate(),
            ambientcolor: self.ambientcolor.duplicate(),
            skylightcolor: self.skylightcolor.duplicate(),
            bloom: self.bloom,
            bloomstrength: self.bloomstrength.duplicate(),
            bloomthreshold: self.bloomthreshold.duplicate(),
            clearenabled: self.clearenabled,
            fov: self.fov.duplicate(),
            nearz: self.nearz.duplicate(),
            farz: self.farz.duplicate(),
            camerafade: self.camerafade,
            camerashake: self.camerashake,
            camerashakespeed: self.camerashakespeed.duplicate(),
            camerashakeamplitude: self.camerashakeamplitude.duplicate(),
            camerashakeroughness: self.camerashakeroughness.duplicate(),
            cameraparallax: self.cameraparallax,
            cameraparallaxamount: self.cameraparallaxamount.duplicate(),
            cameraparallaxdelay: self.cameraparallaxdelay.duplicate(),
            cameraparallaxmouseinfluence: self.cameraparallaxmouseinfluence.duplicate(),
            camera: CameraState {
                eye: self.camera.eye.duplicate(),
                center: self.camera.center.duplicate(),
                up: self.camera.up.duplicate(),
                fov: self.camera.fov.duplicate(),
            },
        }
    }
}

/// `new` where it is given, else `old`.
pub open spec fn given<T>(old_value: T, new_value: Option<T>) -> T {
    match new_value {
        Some(v) => v,
        None => old_value,
    }
}

/// The scene's settings after a script set `name`; none if there is no such
/// setting. A value that does not fit the setting changes nothing.
pub open spec fn state_after(s: StateModel, name: Seq<char>, value: Scripted) -> Option<StateModel> {
    if name == "bloom"@ {
        Some(StateModel { bloom: given(s.bloom, flag_of(value)), ..s })
    } else if name == "bloomstrength"@ {
        Some(StateModel { bloomstrength: given(s.bloomstrength, number_of(value)), ..s })
    } else if name == "bloomthreshold"@ {
        Some(StateModel { bloomthreshold: given(s.bloomthreshold, number_of(value)), ..s })
    } else if name == "clearenabled"@ {
        Some(StateModel { clearenabled: given(s.clearenabled, flag_of(value)), ..s })
    } else if name == "camerafade"@ {
        Some(StateModel { camerafade: given(s.camerafade, flag_of(value)), ..s })
    } else if name == "camerashake"@ {
        Some(StateModel { camerashake: given(s.camerashake, flag_of(value)), ..s })
    } else if name == "camerashakespeed"@ {
        Some(StateModel { camerashakespeed: given(s.camerashakespeed, number_of(value)), ..s })
    } else if name == "camerashakeamplitude"@ {
        Some(
            StateModel {
                camerashakeamplitude: given(s.camerashakeamplitude, number_of(value)),
                ..s
            },
        )
    } else if name == "camerashakeroughness"@ {
        Some(
            StateModel {
                camerashakeroughness: given(s.camerashakeroughness, number_of(value)),
                ..s
            },
        )
    } else if name == "cameraparallax"@ {
        Some(StateModel { cameraparallax: given(s.cameraparallax, flag_of(value)), ..s })
    } else if name == "cameraparallaxamount"@ {
        Some(
            StateModel {
                cameraparallaxamount: given(s.cameraparallaxamount, number_of(value)),
                ..s
            },
        )
    } else if name == "cameraparallaxdelay"@ {
        Some(StateModel { cameraparallaxdelay: given(s.cameraparallaxdelay, number_of(value)), ..s })
    } else if name == "cameraparallaxmouseinfluence"@ {
        Some(
            StateModel {
                cameraparallaxmouseinfluence: given(
                    s.cameraparallaxmouseinfluence,
                    number_of(value),
                ),
                ..s
            },
        )
    } else if name == "clearcolor"@ {
        Some(StateModel { clearcolor: given(s.clearcolor, colour_of(value)), ..s })
    } else if name == "ambientcolor"@ {
        Some(StateModel { ambientcolor: given(s.ambientcolor, colour_of(value)), ..s })
    } else if name == "skylightcolor"@ {
        Some(StateModel { skylightcolor: given(s.skylightcolor, colour_of(value)), ..s })
    } else {
        None
    }
}

fn set_flag(slot: &mut bool, value: &ScriptValue)
    ensures
        *final(slot) == given(*old(slot), flag_of(value@)),
{
    if let Some(b) = as_flag(value) {
        *slot = b;
    }
}

fn set_number(slot: &mut Scalar, value: &ScriptValue)
    ensures
        final(slot)@ == given(old(slot)@, number_of(value@)),
{
    if let Some(n) = as_f32(value) {
        *slot = n;
    }
}

fn set_colour(slot: &mut Vec3, value: &ScriptValue)
    ensures
        final(slot)@ == given(old(slot)@, colour_of(value@)),
{
    if let Some(c) = as_rgb(value) {
        *slot = c;
    }
}

/// Sets a setting of the scene. Returns whether there is one of that name.
pub fn apply_scene_state(scene: &mut SceneState, name: &str, value: &ScriptValue) -> (r: bool)
    ensures
        r == (state_after(old(scene)@, name@, value@) is Some),
        final(scene)@ == given(old(scene)@, state_after(old(scene)@, name@, value@)),
{
    if same_text(name, "bloom") {
        set_flag(&mut scene.bloom, value);
    } else if same_text(name, "bloomstrength") {
        set_number(&mut scene.bloomstrength, value);
    } else if same_text(name, "bloomthreshold") {
        set_number(&mut scene.bloomthreshold, value);
    } else if same_text(name, "clearenabled") {
        set_flag(&mut scene.clearenabled, value);
    } else if same_text(name, "camerafade") {
        set_flag(&mut scene.camerafade, value);
    } else if same_text(name, "camerashake") {
        set_flag(&mut scene.camerashake, value);
    } else if same_text(name, "camerashakespeed") {
        set_number(&mut scene.camerashakespeed, value);
    } else if same_text(name, "camerashakeamplitude") {
        set_number(&mut scene.camerashakeamplitude, value);
    } else if same_text(name, "camerashakeroughness") {
        set_number(&mut scene.camerashakeroughness, value);
    } else if same_text(name, "cameraparallax") {
        set_flag(&mut scene.cameraparallax, value);
    } else if same_text(name, "cameraparallaxamount") {
        set_number(&mut scene.cameraparallaxamount, value);
    } else if same_text(name, "cameraparallaxdelay") {
        set_number(&mut scene.cameraparallaxdelay, value);
    } else if same_text(name, "cameraparallaxmouseinfluence") {
        set_number(&mut scene.cameraparallaxmouseinfluence, value);
    } else if same_text(name, "clearcolor") {
        set_colour(&mut scene.clearcolor, value);
    } else if same_text(name, "ambientcolor") {
        set_colour(&mut scene.ambientcolor, value);
    } else if same_text(name, "skylightcolor") {
        set_colour(&mut scene.skylightcolor, value);
    } else {
        return false;
    }
    true
}

/// What a script asks for. Numbers that are not whole are bits: of a single
/// in the camera's fields, of a double elsewhere.
#[derive(Debug)]
pub enum SceneOp {
    SetProperty { layer_id: i64, name: String, value: ScriptValue },
    CreateLayer { layer_id: i64, path: String, text: Option<String> },
    SetCameraTransforms { op: CameraOp },
    SortLayer { layer_id: i64, index: i64 },
    SetParent { layer_id: i64, parent: Option<i64> },
    VideoCommand { layer_id: i64, cmd: String, amount: u64 },
    AnimationCommand { track: u32, cmd: String, amount: u64 },
    SetMaterialProperty { layer_id: i64, effect: u32, name: String, value: ScriptValue },
    ParticleCommand { layer_id: i64, cmd: String },
    EmitParticles { layer_id: i64, count: u32 },
    SetInstance { layer_id: i64, name: String, value: ScriptValue },
    DestroyLayer { layer_id: i64 },
    SetSceneProperty { name: String, value: ScriptValue },
}

/// What a [`SceneOp`] holds.
pub enum Op {
    SetProperty { layer_id: i64, name: Seq<char>, value: Scripted },
    CreateLayer { layer_id: i64, path: Seq<char>, text: Option<Seq<char>> },
    SetCameraTransforms { op: CameraOp },
    SortLayer { layer_id: i64, index: i64 },
    SetParent { layer_id: i64, parent: Option<i64> },
    VideoCommand { layer_id: i64, cmd: Seq<char>, amount: u64 },
    AnimationCommand { track: u32, cmd: Seq<char>, amount: u64 },
    SetMaterialProperty { layer_id: i64, effect: u32, name: Seq<char>, value: Scripted },
    ParticleCommand { layer_id: i64, cmd: Seq<char> },
    EmitParticles { layer_id: i64, count: u32 },
    SetInstance { layer_id: i64, name: Seq<char>, value: Scripted },
    DestroyLayer { layer_id: i64 },
    SetSceneProperty { name: Seq<char>, value: Scripted },
}

impl View for SceneOp {
    type V = Op;

    open spec fn view(&self) -> Op {
        match self {
            SceneOp::SetProperty { layer_id, name, value } => Op::SetProperty {
                layer_id: *layer_id,
                name: name@,
                value: value@,
            },
            SceneOp::CreateLayer { layer_id, path, text } => Op::CreateLayer {
                layer_id: *layer_id,
                path: path@,
                text: opt_view(*text),
            },
            SceneOp::SetCameraTransforms { op } => Op::SetCameraTransforms { op: *op },
            SceneOp::SortLayer { layer_id, index } => Op::SortLayer {
                layer_id: *layer_id,
                index: *index,
            },
            SceneOp::SetParent { layer_id, parent } => Op::SetParent {
                layer_id: *layer_id,
                parent: *parent,
            },
            SceneOp::VideoCommand { layer_id, cmd, amount } => Op::VideoCommand {
                layer_id: *layer_id,
                cmd: cmd@,
                amount: *amount,
            },
            SceneOp::AnimationCommand { track, cmd, amount } => Op::AnimationCommand {
                track: *track,
                cmd: cmd@,
                amount: *amount,
            },
            SceneOp::SetMaterialProperty { layer_id, effect, name, value } => Op::SetMaterialProperty {
                layer_id: *layer_id,
                effect: *effect,
                name: name@,
                value: value@,
            },
            SceneOp::ParticleCommand { layer_id, cmd } => Op::ParticleCommand {
                layer_id: *layer_id,
                cmd: cmd@,
            },
            SceneOp::EmitParticles { layer_id, count } => Op::EmitParticles {
                layer_id: *layer_id,
                count: *count,
            },
            SceneOp::SetInstance { layer_id, name, value } => Op::SetInstance {
                layer_id: *layer_id,
                name: name@,
                value: value@,
            },
            SceneOp::DestroyLayer { layer_id } => Op::DestroyLayer { layer_id: *layer_id },
            SceneOp::SetSceneProperty { name, value } => Op::SetSceneProperty {
                name: name@,
                value: value@,
            },
        }
    }
}

/// What a script asks of a particle system.
#[derive(Debug)]
pub enum ParticleOp {
    Command { id: i64, cmd: String },
    Emit { id: i64, count: u32 },
    Instance { id: i64, name: String, value: ScriptValue },
}

/// What a [`ParticleOp`] holds.
pub enum ParticleRequest {
    Command { id: i64, cmd: Seq<char> },
    Emit { id: i64, count: u32 },
    Instance { id: i64, name: Seq<char>, value: Scripted },
}

impl View for ParticleOp {
    type V = ParticleRequest;

    open spec fn view(&self) -> ParticleRequest {
        match self {
            ParticleOp::Command { id, cmd } => ParticleRequest::Command { id: *id, cmd: cmd@ },
            ParticleOp::Emit { id, count } => ParticleRequest::Emit { id: *id, count: *count },
            ParticleOp::Instance { id, name, value } => ParticleRequest::Instance {
                id: *id,
                name: name@,
                value: value@,
            },
        }
    }
}

/// What came out of running the scripts.
#[derive(Debug)]
pub struct TickOutput {
    pub property_results: Vec<(String, ScriptValue)>,
    pub ops: Vec<SceneOp>,
}

/// The scene's side of its scripts: the properties they drive, the scene as
/// they see it, and what they asked for that the scene has not taken yet.
#[derive(Debug)]
pub struct ScriptHost {
    pub props: Vec<ScriptedProp>,
    pub layers: Vec<LayerState>,
    pub scene: SceneState,
    pub user_props: TextMap<ScriptValue>,
    pub created: Vec<(i64, String)>,
    pub destroyed: Vec<i64>,
    pub particle_ops: Vec<ParticleOp>,
    pub material_ops: Vec<(i64, usize, String, ScriptValue)>,
    pub scene_ops: Vec<(String, ScriptValue)>,
    pub video_ops: Vec<(i64, String, u64)>,
    pub anim_ops: Vec<(u32, String, u64)>,
    pub wants_media: bool,
    pub camera_op: Option<CameraOp>,
    pub order_dirty: bool,
    pub parent_updates: Vec<(i64, i64)>,
    pub scene_dirty: bool,
    pub user_props_dirty: bool,
    /// Whether the frame that scripts read has been handed over once and come back.
    pub has_frame: bool,
    pub overrides: Vec<(String, ScriptValue)>,
}

/// What a [`ScriptHost`] holds.
#[verifier::ext_equal]
pub struct HostModel {
    pub props: Seq<PropModel>,
    pub layers: Seq<LayerModel>,
    pub scene: StateModel,
    pub user_props: Map<Seq<char>, Scripted>,
    pub created: Seq<(i64, Seq<char>)>,
    pub destroyed: Seq<i64>,
    pub particle_ops: Seq<ParticleRequest>,
    pub material_ops: Seq<(i64, usize, Seq<char>, Scripted)>,
    pub scene_ops: Seq<(Seq<char>, Scripted)>,
    pub video_ops: Seq<(i64, Seq<char>, u64)>,
    pub anim_ops: Seq<(u32, Seq<char>, u64)>,
    pub wants_media: bool,
    pub camera_op: Option<CameraOp>,
    pub order_dirty: bool,
    pub parent_updates: Seq<(i64, i64)>,
    pub scene_dirty: bool,
    pub user_props_dirty: bool,
    pub has_frame: bool,
    pub overrides: Seq<(Seq<char>, Scripted)>,
}

impl View for ScriptHost {
    type V = HostModel;

    open spec fn view(&self) -> HostModel {
        HostModel {
            props: views(self.props@),
            layers: views(self.layers@),
            scene: self.scene@,
            user_props: self.user_props@,
            created: views(self.created@),
            destroyed: self.destroyed@,
            particle_ops: views(self.particle_ops@),
            material_ops: views(self.material_ops@),
            scene_ops: views(self.scene_ops@),
            video_ops: views(self.video_ops@),
            anim_ops: views(self.anim_ops@),
            wants_media: self.wants_media,
            camera_op: self.camera_op,
            order_dirty: self.order_dirty,
            parent_updates: self.parent_updates@,
            scene_dirty: self.scene_dirty,
            user_props_dirty: self.user_props_dirty,
            has_frame: self.has_frame,
            overrides: views(self.overrides@),
        }
    }
}

/// The host while it works through what the scripts did, and the updates so far.
#[verifier::ext_equal]
pub struct Progress {
    pub host: HostModel,
    pub updates: Seq<UpdateModel>,
}

/// Where the property of that key stands.
pub open spec fn prop_at(props: Seq<PropModel>, key: Seq<char>, from: int) -> Option<int>
    decreases props.len() - from,
{
    if from < 0 || from >= props.len() {
        None
    } else if props[from].key == key {
        Some(from)
    } else {
        prop_at(props, key, from + 1)
    }
}

/// The update that a script's value for a property of a layer is.
pub open spec fn script_update(object_id: i64, target: PropTarget, value: Scripted) -> UpdateModel {
    UpdateModel { object_id, target, value, in_degrees: target == PropTarget::Angles }
}

/// A value for a property of a layer, recorded and passed on.
pub open spec fn with_update(
    p: Progress,
    object_id: i64,
    target: PropTarget,
    value: Scripted,
) -> Progress {
    Progress {
        host: HostModel {
            layers: recorded_in(p.host.layers, object_id, target, value),
            ..p.host
        },
        updates: p.updates.push(script_update(object_id, target, value)),
    }
}

/// One answer of a property script: a constant of an effect goes to the
/// materials, any other property to its layer; an unknown key is dropped.
pub open spec fn after_result(p: Progress, key: Seq<char>, value: Scripted) -> Progress {
    match prop_at(p.host.props, key, 0) {
        None => p,
        Some(i) => {
            let prop = p.host.props[i];
            match prop.effect_constant {
                Some(c) => Progress {
                    host: HostModel {
                        material_ops: p.host.material_ops.push((prop.object_id, c.0, c.1, value)),
                        ..p.host
                    },
                    ..p
                },
                None => with_update(p, prop.object_id, prop.target, value),
            }
        },
    }
}

/// The layers without those of an id.
pub open spec fn without_layer(layers: Seq<LayerModel>, id: i64) -> Seq<LayerModel>
    decreases layers.len(),
{
    if layers.len() == 0 {
        layers
    } else {
        let rest = without_layer(layers.drop_last(), id);
        if layers.last().id == id {
            rest
        } else {
            rest.push(layers.last())
        }
    }
}

/// A layer that a script has just made.
pub open spec fn new_layer(id: i64, path: Seq<char>, text: Option<Seq<char>>) -> LayerModel {
    let zero = Number::Single(ZERO_BITS);
    let one = Number::Single(ONE_BITS);
    LayerModel {
        origin: Some((zero, zero, zero)),
        scale: Some((one, one, one)),
        angles: Some((zero, zero, zero)),
        visible: Some(true),
        alpha: Some(one),
        color: Some((one, one, one)),
        text,
        ..blank_layer(id, path)
    }
}

/// One request of a script.
pub open spec fn after_op(p: Progress, op: Op) -> Progress {
    let h = p.host;
    match op {
        Op::SetProperty { layer_id, name, value } => match target_of(name) {
            Some(target) => with_update(p, layer_id, target, value),
            None => p,
        },
        Op::CreateLayer { layer_id, path, text } => Progress {
            host: HostModel {
                layers: h.layers.push(new_layer(layer_id, path, text)),
                created: if path.len() > 0 {
                    h.created.push((layer_id, path))
                } else {
                    h.created
                },
                ..h
            },
            ..p
        },
        Op::SetCameraTransforms { op } => Progress {
            host: HostModel {
                camera_op: Some(camera_then(h.camera_op, op)),
                scene: match op.fov {
                    Some(f) => StateModel {
                        fov: Number::Single(f),
                        camera: CameraStateModel { fov: Number::Single(f), ..h.scene.camera },
                        ..h.scene
                    },
                    None => h.scene,
                },
                scene_dirty: h.scene_dirty || op.fov is Some,
                ..h
            },
            ..p
        },
        Op::SortLayer { layer_id, index } => Progress {
            host: HostModel {
                layers: moved_layer(h.layers, layer_id, index),
                order_dirty: h.order_dirty || layer_at(h.layers, layer_id, 0) is Some,
                ..h
            },
            ..p
        },
        Op::SetParent { layer_id, parent } => Progress {
            host: HostModel {
                layers: match layer_at(h.layers, layer_id, 0) {
                    Some(i) => h.layers.update(i, LayerModel { parent, ..h.layers[i] }),
                    None => h.layers,
                },
                parent_updates: match parent_change(layer_id, parent) {
                    Some(u) => h.parent_updates.push(u),
                    None => h.parent_updates,
                },
                ..h
            },
            ..p
        },
        Op::VideoCommand { layer_id, cmd, amount } => Progress {
            host: HostModel { video_ops: h.video_ops.push((layer_id, cmd, amount)), ..h },
            ..p
        },
        Op::AnimationCommand { track, cmd, amount } => Progress {
            host: HostModel { anim_ops: h.anim_ops.push((track, cmd, amount)), ..h },
            ..p
        },
        Op::SetMaterialProperty { layer_id, effect, name, value } => Progress {
            host: HostModel {
                material_ops: h.material_ops.push((layer_id, effect as usize, name, value)),
                ..h
            },
            ..p
        },
        Op::ParticleCommand { layer_id, cmd } => Progress {
            host: HostModel {
                particle_ops: h.particle_ops.push(ParticleRequest::Command { id: layer_id, cmd }),
                ..h
            },
            ..p
        },
        Op::EmitParticles { layer_id, count } => Progress {
            host: HostModel {
                particle_ops: h.particle_ops.push(ParticleRequest::Emit { id: layer_id, count }),
                ..h
            },
            ..p
        },
        Op::SetInstance { layer_id, name, value } => Progress {
            host: HostModel {
                particle_ops: h.particle_ops.push(
                    ParticleRequest::Instance { id: layer_id, name, value },
                ),
                ..h
            },
            ..p
        },
        Op::DestroyLayer { layer_id } => Progress {
            host: HostModel {
                layers: without_layer(h.layers, layer_id),
                destroyed: h.destroyed.push(layer_id),
                ..h
            },
            ..p
        },
        Op::SetSceneProperty { name, value } => match state_after(h.scene, name, value) {
            Some(s) => Progress {
                host: HostModel {
                    scene: s,
                    scene_dirty: true,
                    scene_ops: h.scene_ops.push((name, value)),
                    ..h
                },
                ..p
            },
            None => p,
        },
    }
}

/// The first `k` answers, one after the other.
pub open spec fn after_results(
    p: Progress,
    results: Seq<(Seq<char>, Scripted)>,
    k: int,
) -> Progress
    decreases k,
{
    if k <= 0 {
        p
    } else {
        after_result(after_results(p, results, k - 1), results[k - 1].0, results[k - 1].1)
    }
}

/// The first `k` requests, one after the other.
pub open spec fn after_ops(p: Progress, ops: Seq<Op>, k: int) -> Progress
    decreases k,
{
    if k <= 0 {
        p
    } else {
        after_op(after_ops(p, ops, k - 1), ops[k - 1])
    }
}

/// All that the scripts did in one run: the answers first, then the requests.
pub open spec fn after_output(
    host: HostModel,
    results: Seq<(Seq<char>, Scripted)>,
    ops: Seq<Op>,
) -> Progress {
    let start = Progress { host, updates: Seq::empty() };
    after_ops(after_results(start, results, results.len() as int), ops, ops.len() as int)
}

fn remove_layers(layers: &mut Vec<LayerState>, id: i64)
    ensures
        views(final(layers)@) == without_layer(views(old(layers)@), id),
{
    let mut kept: Vec<LayerState> = Vec::new();
    let mut i: usize = 0;
    let ghost all = views(layers@);
    assert(all.take(0) =~= Seq::empty());
    assert(views(kept@) =~= Seq::empty());
    while i < layers.len()
        invariant
            i <= layers@.len(),
            all == views(layers@),
            layers@ == old(layers)@,
            views(kept@) == without_layer(all.take(i as int), id),
        decreases layers@.len() - i,
    {
        broadcast use lemma_views_push;

        proof {
            assert(all.take(i + 1).drop_last() =~= all.take(i as int));
            assert(all.take(i + 1).last() == all[i as int]);
        }
        if layers[i].id != id {
            kept.push(layers[i].duplicate());
        }
        i += 1;
    }
    assert(all.take(all.len() as int) =~= all);
    *layers = kept;
}

impl ScriptHost {
    fn find_prop(&self, key: &str) -> (r: Option<usize>)
        ensures
            match r {
                Some(i) => prop_at(self@.props, key@, 0) == Some(i as int) && i < self.props@.len(),
                None => prop_at(self@.props, key@, 0) is None,
            },
    {
        let mut i: usize = 0;
        while i < self.props.len()
            invariant
                i <= self.props@.len(),
                prop_at(self@.props, key@, 0) == prop_at(self@.props, key@, i as int),
            decreases self.props@.len() - i,
        {
            if same_text(self.props[i].key.as_str(), key) {
                return Some(i);
            }
            i += 1;
        }
        None
    }

    fn note_update(
        &mut self,
        updates: &mut Vec<PropUpdate>,
        object_id: i64,
        target: PropTarget,
        value: ScriptValue,
    )
        ensures
            (Progress { host: final(self)@, updates: views(final(updates)@) }) == with_update(
                Progress { host: old(self)@, updates: views(old(updates)@) },
                object_id,
                target,
                value@,
            ),
    {
        broadcast use lemma_views_push;

        record_layer(&mut self.layers, object_id, target, &value);
        updates.push(
            PropUpdate { object_id, target, value, in_degrees: target == PropTarget::Angles },
        );
    }

    fn take_result(&mut self, updates: &mut Vec<PropUpdate>, key: &str, value: ScriptValue)
        ensures
            (Progress { host: final(self)@, updates: views(final(updates)@) }) == after_result(
                Progress { host: old(self)@, updates: views(old(updates)@) },
                key@,
                value@,
            ),
    {
        broadcast use lemma_views_push;

        if let Some(i) = self.find_prop(key) {
            let object_id = self.props[i].object_id;
            let target = self.props[i].target;
            assert(self@.props[i as int] == self.props@[i as int]@);
            let constant: Option<(usize, String)> = match &self.props[i].effect_constant {
                Some(c) => Some((c.effect, c.name.clone())),
                None => None,
            };
            match constant {
                Some((effect, name)) => {
                    self.material_ops.push((object_id, effect, name, value));
                },
                None => {
                    self.note_update(updates, object_id, target, value);
                },
            }
        }
    }

    #[verifier::rlimit(80)]
    fn take_op(&mut self, updates: &mut Vec<PropUpdate>, op: &SceneOp)
        ensures
            (Progress { host: final(self)@, updates: views(final(updates)@) }) == after_op(
                Progress { host: old(self)@, updates: views(old(updates)@) },
                op@,
            ),
    {
        broadcast use lemma_views_push;

        match op {
            SceneOp::SetProperty { layer_id, name, value } => {
                if let Some(target) = PropTarget::from_field(name.as_str()) {
                    self.note_update(updates, *layer_id, target, value.duplicate());
                }
            },
            SceneOp::CreateLayer { layer_id, path, text } => {
                let mut layer = LayerState::blank(*layer_id, path.clone());
                layer.origin = Some(single3(ZERO_BITS));
                layer.scale = Some(single3(ONE_BITS));
                layer.angles = Some(single3(ZERO_BITS));
                layer.visible = Some(true);
                layer.alpha = Some(Scalar::Single(ONE_BITS));
                layer.color = Some(single3(ONE_BITS));
                layer.text = copy_opt(text);
                self.layers.push(layer);
                if !path.as_str().is_empty() {
                    self.created.push((*layer_id, path.clone()));
                }
            },
            SceneOp::SetCameraTransforms { op } => {
                merge_camera(&mut self.camera_op, *op);
                if let Some(f) = op.fov {
                    self.scene.camera.fov = Scalar::Single(f);
                    self.scene.fov = Scalar::Single(f);
                    self.scene_dirty = true;
                }
            },
            SceneOp::SortLayer { layer_id, index } => {
                if sort_layer_apply(&mut self.layers, *layer_id, *index) {
                    self.order_dirty = true;
                }
            },
            SceneOp::SetParent { layer_id, parent } => {
                if let Some(i) = find_layer(&self.layers, *layer_id) {
                    let ghost before = views(self.layers@);
                    self.layers[i].parent = *parent;
                    assert(views(self.layers@) =~= before.update(
                        i as int,
                        LayerModel { parent: *parent, ..before[i as int] },
                    ));
                }
                if let Some(u) = parent_update(*layer_id, *parent) {
                    self.parent_updates.push(u);
                }
            },
            SceneOp::VideoCommand { layer_id, cmd, amount } => {
                self.video_ops.push((*layer_id, cmd.clone(), *amount));
            },
            SceneOp::AnimationCommand { track, cmd, amount } => {
                self.anim_ops.push((*track, cmd.clone(), *amount));
            },
            SceneOp::SetMaterialProperty { layer_id, effect, name, value } => {
                self.material_ops.push(
                    (*layer_id, *effect as usize, name.clone(), value.duplicate()),
                );
            },
            SceneOp::ParticleCommand { layer_id, cmd } => {
                self.particle_ops.push(ParticleOp::Command { id: *layer_id, cmd: cmd.clone() });
            },
            SceneOp::EmitParticles { layer_id, count } => {
                self.particle_ops.push(ParticleOp::Emit { id: *layer_id, count: *count });
            },
            SceneOp::SetInstance { layer_id, name, value } => {
                self.particle_ops.push(
                    ParticleOp::Instance {
                        id: *layer_id,
                        name: name.clone(),
                        value: value.duplicate(),
                    },
                );
            },
            SceneOp::DestroyLayer { layer_id } => {
                remove_layers(&mut self.layers, *layer_id);
                self.destroyed.push(*layer_id);
            },
            SceneOp::SetSceneProperty { name, value } => {
                if apply_scene_state(&mut self.scene, name.as_str(), value) {
                    self.scene_dirty = true;
                    self.scene_ops.push((name.clone(), value.duplicate()));
                }
            },
        }
    }

    /// Works through what the scripts did in one run, and returns the updates
    /// of layer properties.
    pub fn process_output(&mut self, output: &TickOutput) -> (updates: Vec<PropUpdate>)
        ensures
            (Progress { host: final(self)@, updates: views(updates@) }) == after_output(
                old(self)@,
                views(output.property_results@),
                views(output.ops@),
            ),
    {
        let mut updates: Vec<PropUpdate> = Vec::new();
        let ghost start = Progress { host: old(self)@, updates: Seq::empty() };
        assert(views(updates@) =~= Seq::empty());
        let ghost results = views(output.property_results@);
        let mut i: usize = 0;
        while i < output.property_results.len()
            invariant
                i <= output.property_results@.len(),
                results == views(output.property_results@),
                (Progress { host: self@, updates: views(updates@) }) == after_results(
                    start,
                    results,
                    i as int,
                ),
            decreases output.property_results@.len() - i,
        {
            let value = output.property_results[i].1.duplicate();
            assert(results[i as int] == output.property_results@[i as int]@);
            self.take_result(&mut updates, output.property_results[i].0.as_str(), value);
            i += 1;
        }
        let ghost middle = Progress { host: self@, updates: views(updates@) };
        let ghost ops = views(output.ops@);
        let mut j: usize = 0;
        while j < output.ops.len()
            invariant
                j <= output.ops@.len(),
                ops == views(output.ops@),
                (Progress { host: self@, updates: views(updates@) }) == after_ops(
                    middle,
                    ops,
                    j as int,
                ),
            decreases output.ops@.len() - j,
        {
            self.take_op(&mut updates, &output.ops[j]);
            j += 1;
        }
        updates
    }
}

/// Takes a list away and leaves an empty one.
fn take_list<T>(list: &mut Vec<T>) -> (r: Vec<T>)
    ensures
        r@ == old(list)@,
        final(list)@ == Seq::<T>::empty(),
{
    let mut out: Vec<T> = Vec::new();
    core::mem::swap(&mut out, list);
    out
}

/// What a frame hands to the scripts. The user properties and the scene's
/// settings are left out where the scripts already have them.
#[derive(Debug)]
pub struct FrameUpdate {
    pub layers: Vec<LayerState>,
    pub user_props: Option<TextMap<ScriptValue>>,
    pub scene: Option<SceneState>,
    pub overrides: Vec<(String, ScriptValue)>,
}

/// What a [`FrameUpdate`] holds.
pub struct FrameModel {
    pub layers: Seq<LayerModel>,
    pub user_props: Option<Map<Seq<char>, Scripted>>,
    pub scene: Option<StateModel>,
    pub overrides: Seq<(Seq<char>, Scripted)>,
}

impl View for FrameUpdate {
    type V = FrameModel;

    open spec fn view(&self) -> FrameModel {
        FrameModel {
            layers: views(self.layers@),
            user_props: opt_view(self.user_props),
            scene: opt_view(self.scene),
            overrides: views(self.overrides@),
        }
    }
}

/// What the scripts are handed in the next frame. A host without a frame, new
/// or after a failed run, hands over everything.
pub open spec fn next_frame(h: HostModel) -> FrameModel {
    FrameModel {
        layers: h.layers,
        user_props: if !h.has_frame || h.user_props_dirty {
            Some(h.user_props)
        } else {
            None
        },
        scene: if !h.has_frame || h.scene_dirty {
            Some(h.scene)
        } else {
            None
        },
        overrides: h.overrides,
    }
}

/// The host while the scripts run.
pub open spec fn during_run(h: HostModel) -> HostModel {
    HostModel {
        user_props_dirty: false,
        scene_dirty: false,
        has_frame: false,
        overrides: Seq::empty(),
        ..h
    }
}

/// Recording the updates of an animation, whose angles are in radians.
pub open spec fn noted(layers: Seq<LayerModel>, updates: Seq<UpdateModel>, k: int) -> Seq<LayerModel>
    decreases k,
{
    if k <= 0 {
        layers
    } else {
        noted_one(noted(layers, updates, k - 1), updates[k - 1])
    }
}

/// Recording one update of an animation.
pub open spec fn noted_one(layers: Seq<LayerModel>, u: UpdateModel) -> Seq<LayerModel> {
    if u.target == PropTarget::Angles && !u.in_degrees {
        match (layer_at(layers, u.object_id, 0), vector_of(u.value)) {
            (Some(i), Some(v)) => layers.update(
                i,
                LayerModel { angles: Some(in_degrees(v)), ..layers[i] },
            ),
            _ => layers,
        }
    } else {
        recorded_in(layers, u.object_id, u.target, u.value)
    }
}

impl ScriptHost {
    /// Starts a frame: what the scripts are handed.
    pub fn begin_tick(&mut self) -> (r: FrameUpdate)
        ensures
            r@ == next_frame(old(self)@),
            final(self)@ == during_run(old(self)@),
    {
        let user_props = if !self.has_frame || self.user_props_dirty {
            Some(self.user_props.duplicate())
        } else {
            None
        };
        let scene = if !self.has_frame || self.scene_dirty {
            Some(self.scene.duplicate())
        } else {
            None
        };
        self.user_props_dirty = false;
        self.scene_dirty = false;
        self.has_frame = false;
        let overrides = take_list(&mut self.overrides);
        let r = FrameUpdate { layers: copy_vec(&self.layers), user_props, scene, overrides };
        assert(self@ =~= during_run(old(self)@));
        r
    }

    /// Ends a frame with what the scripts did, or with nothing where they
    /// could not be run; then they are handed everything again next time.
    pub fn end_tick(&mut self, output: Option<&TickOutput>) -> (updates: Vec<PropUpdate>)
        ensures
            match output {
                Some(o) => (Progress { host: final(self)@, updates: views(updates@) })
                    == after_output(
                    HostModel { has_frame: true, ..old(self)@ },
                    views(o.property_results@),
                    views(o.ops@),
                ),
                None => final(self)@ == (HostModel { has_frame: false, ..old(self)@ })
                    && updates@.len() == 0,
            },
    {
        match output {
            Some(o) => {
                self.has_frame = true;
                self.process_output(o)
            },
            None => {
                self.has_frame = false;
                Vec::new()
            },
        }
    }

    /// Notes a changed user property. The scripts that listen for it are run
    /// with the value returned; what they do comes back through
    /// [`ScriptHost::process_output`].
    pub fn note_user_property(
        &mut self,
        key: &str,
        value: &crate::property::PropertyValue,
    ) -> (r: ScriptValue)
        ensures
            r@ == property_for_script(value@),
            final(self)@ == (HostModel {
                user_props: old(self)@.user_props.insert(key@, property_for_script(value@)),
                user_props_dirty: true,
                ..old(self)@
            }),
    {
        let sv = prop_to_script(value);
        self.user_props.insert(key.to_owned(), sv.duplicate());
        self.user_props_dirty = true;
        sv
    }

    /// Notes what the animations set: the layers show it, and the scripts are
    /// told with the next frame.
    pub fn note_animation(&mut self, updates: &Vec<PropUpdate>, overrides: &Vec<
        (String, ScriptValue),
    >)
        ensures
            final(self)@ == (HostModel {
                layers: noted(old(self)@.layers, views(updates@), updates@.len() as int),
                overrides: old(self)@.overrides + views(overrides@),
                ..old(self)@
            }),
    {
        let ghost us = views(updates@);
        let mut i: usize = 0;
        while i < updates.len()
            invariant
                i <= updates@.len(),
                us == views(updates@),
                self@ == (HostModel {
                    layers: noted(old(self)@.layers, us, i as int),
                    ..old(self)@
                }),
            decreases updates@.len() - i,
        {
            let u = &updates[i];
            assert(us[i as int] == u@);
            let ghost before = self@.layers;
            if u.target == PropTarget::Angles && !u.in_degrees {
                if let Some(at) = find_layer(&self.layers, u.object_id) {
                    if let Some(v) = as_vec3(&u.value) {
                        self.layers[at].angles = Some(to_degrees(v));
                        assert(views(self.layers@) =~= noted_one(before, u@));
                    }
                }
            } else {
                record_layer(&mut self.layers, u.object_id, u.target, &u.value);
            }
            assert(views(self.layers@) == noted_one(before, u@));
            i += 1;
        }
        let ghost start = views(self.overrides@);
        let mut j: usize = 0;
        assert(start + views(overrides@).take(0) =~= start);
        while j < overrides.len()
            invariant
                j <= overrides@.len(),
                self@ == (HostModel {
                    layers: noted(old(self)@.layers, us, us.len() as int),
                    overrides: start + views(overrides@).take(j as int),
                    ..old(self)@
                }),
            decreases overrides@.len() - j,
        {
            let pair = (overrides[j].0.clone(), overrides[j].1.duplicate());
            let ghost p = pair@;
            proof {
                lemma_views_push(self.overrides@, pair);
                assert(p == views(overrides@)[j as int]);
                assert((start + views(overrides@).take(j as int)).push(p) =~= start + views(
                    overrides@,
                ).take(j + 1));
            }
            self.overrides.push(pair);
            j += 1;
        }
        assert(views(overrides@).take(overrides@.len() as int) =~= views(overrides@));
    }

    pub fn take_created(&mut self) -> (r: Vec<(i64, String)>)
        ensures
            views(r@) == old(self)@.created,
            final(self)@ == (HostModel { created: Seq::empty(), ..old(self)@ }),
    {
        let r = take_list(&mut self.created);
        assert(self@ =~= (HostModel { created: Seq::empty(), ..old(self)@ }));
        r
    }

    pub fn take_scene_ops(&mut self) -> (r: Vec<(String, ScriptValue)>)
        ensures
            views(r@) == old(self)@.scene_ops,
            final(self)@ == (HostModel { scene_ops: Seq::empty(), ..old(self)@ }),
    {
        let r = take_list(&mut self.scene_ops);
        assert(self@ =~= (HostModel { scene_ops: Seq::empty(), ..old(self)@ }));
        r
    }

    pub fn take_destroyed(&mut self) -> (r: Vec<i64>)
        ensures
            r@ == old(self)@.destroyed,
            final(self)@ == (HostModel { destroyed: Seq::empty(), ..old(self)@ }),
    {
        take_list(&mut self.destroyed)
    }

    pub fn take_particle_ops(&mut self) -> (r: Vec<ParticleOp>)
        ensures
            views(r@) == old(self)@.particle_ops,
            final(self)@ == (HostModel { particle_ops: Seq::empty(), ..old(self)@ }),
    {
        let r = take_list(&mut self.particle_ops);
        assert(self@ =~= (HostModel { particle_ops: Seq::empty(), ..old(self)@ }));
        r
    }

    pub fn take_video_ops(&mut self) -> (r: Vec<(i64, String, u64)>)
        ensures
            views(r@) == old(self)@.video_ops,
            final(self)@ == (HostModel { video_ops: Seq::empty(), ..old(self)@ }),
    {
        let r = take_list(&mut self.video_ops);
        assert(self@ =~= (HostModel { video_ops: Seq::empty(), ..old(self)@ }));
        r
    }

    pub fn take_anim_ops(&mut self) -> (r: Vec<(u32, String, u64)>)
        ensures
            views(r@) == old(self)@.anim_ops,
            final(self)@ == (HostModel { anim_ops: Seq::empty(), ..old(self)@ }),
    {
        let r = take_list(&mut self.anim_ops);
        assert(self@ =~= (HostModel { anim_ops: Seq::empty(), ..old(self)@ }));
        r
    }

    pub fn take_material_ops(&mut self) -> (r: Vec<(i64, usize, String, ScriptValue)>)
        ensures
            views(r@) == old(self)@.material_ops,
            final(self)@ == (HostModel { material_ops: Seq::empty(), ..old(self)@ }),
    {
        let r = take_list(&mut self.material_ops);
        assert(self@ =~= (HostModel { material_ops: Seq::empty(), ..old(self)@ }));
        r
    }

    pub fn take_parent_updates(&mut self) -> (r: Vec<(i64, i64)>)
        ensures
            r@ == old(self)@.parent_updates,
            final(self)@ == (HostModel { parent_updates: Seq::empty(), ..old(self)@ }),
    {
        take_list(&mut self.parent_updates)
    }

    pub fn take_camera(&mut self) -> (r: Option<CameraOp>)
        ensures
            r == old(self)@.camera_op,
            final(self)@ == (HostModel { camera_op: None, ..old(self)@ }),
    {
        let r = self.camera_op;
        self.camera_op = None;
        r
    }

    /// The ids of the layers in order, where a script has moved one since the
    /// last time.
    pub fn take_layer_order(&mut self) -> (r: Option<Vec<i64>>)
        ensures
            match r {
                Some(ids) => old(self)@.order_dirty && ids@ == old(self)@.layers.map_values(
                    |l: LayerModel| l.id,
                ),
                None => !old(self)@.order_dirty,
            },
            final(self)@ == (HostModel { order_dirty: false, ..old(self)@ }),
    {
        if !self.order_dirty {
            return None;
        }
        self.order_dirty = false;
        let mut ids: Vec<i64> = Vec::new();
        let mut i: usize = 0;
        while i < self.layers.len()
            invariant
                i <= self.layers@.len(),
                ids@.len() == i,
                forall|j: int| 0 <= j < i ==> ids@[j] == self.layers@[j].id,
            decreases self.layers@.len() - i,
        {
            ids.push(self.layers[i].id);
            i += 1;
        }
        assert(ids@ =~= self@.layers.map_values(|l: LayerModel| l.id));
        Some(ids)
    }

    pub fn wants_media(&self) -> (r: bool)
        ensures
            r == self@.wants_media,
    {
        self.wants_media
    }

    /// Tells the scripts the camera's field of view; `moved` says whether it
    /// differs from the one they have.
    pub fn set_scene_fov(&mut self, fov: Scalar, moved: bool)
        ensures
            final(self)@ == (if moved {
                HostModel {
                    scene: StateModel {
                        fov: fov@,
                        camera: CameraStateModel { fov: fov@, ..old(self)@.scene.camera },
                        ..old(self)@.scene
                    },
                    scene_dirty: true,
                    ..old(self)@
                }
            } else {
                old(self)@
            }),
    {
        if moved {
            self.scene.camera.fov = fov.duplicate();
            self.scene.fov = fov;
            self.scene_dirty = true;
        }
    }
}

proof fn lemma_without_layer(layers: Seq<LayerModel>, id: i64)
    ensures
        forall|i: int|
            0 <= i < without_layer(layers, id).len() ==> (#[trigger] without_layer(
                layers,
                id,
            )[i]).id != id,
    decreases layers.len(),
{
    if layers.len() > 0 {
        lemma_without_layer(layers.drop_last(), id);
    }
}

/// A layer that a script destroyed is forgotten: what is written to it
/// afterwards changes no layer.
pub proof fn law_destroyed_layers_take_no_writes(
    p: Progress,
    id: i64,
    target: PropTarget,
    value: Scripted,
)
    ensures
        ({
            let after = after_op(p, Op::DestroyLayer { layer_id: id });
            recorded_in(after.host.layers, id, target, value) == after.host.layers
        }),
{
    lemma_without_layer(p.host.layers, id);
    let left = without_layer(p.host.layers, id);
    lemma_layer_at(left, id, 0);
}

/// A run that the scripts could not finish changes no layer, no setting and
/// no property, and whatever they had not been handed is handed over again.
pub proof fn law_failed_runs_hand_everything_over_again(h: HostModel)
    ensures
        ({
            let failed = HostModel { has_frame: false, ..during_run(h) };
            &&& failed.layers == h.layers
            &&& failed.scene == h.scene
            &&& failed.user_props == h.user_props
            &&& next_frame(failed).user_props == Some(h.user_props)
            &&& next_frame(failed).scene == Some(h.scene)
        }),
{
}

/// What a script sets in one frame it reads in the next: a changed user
/// property, or a changed setting of the scene, is in the next frame.
pub proof fn law_changes_reach_the_next_frame(h: HostModel, key: Seq<char>, value: Scripted)
    ensures
        next_frame(
            HostModel { user_props: h.user_props.insert(key, value), user_props_dirty: true, ..h },
        ).user_props == Some(h.user_props.insert(key, value)),
        ({
            let p = Progress { host: h, updates: Seq::empty() };
            let after = after_op(p, Op::SetSceneProperty { name: key, value }).host;
            state_after(h.scene, key, value) matches Some(s) ==> next_frame(after).scene == Some(s)
        }),
{
}

fn single3(bits: u32) -> (r: Vec3)
    ensures
        r@ == (Number::Single(bits), Number::Single(bits), Number::Single(bits)),
{
    Vec3 { x: Scalar::Single(bits), y: Scalar::Single(bits), z: Scalar::Single(bits) }
}

} // verus!
