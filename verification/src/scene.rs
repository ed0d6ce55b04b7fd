//! Scene documents.
use vstd::prelude::*;

use crate::error::{Failure, SceneError};
use crate::json::{
    json_document, list_of, lookup, parse, table_of, text_of_tree, Json, JsonMap, Members, Tree,
};
use crate::material::{flag_or, number_in, read_flag, read_number, read_whole_or, whole_or};
use crate::object::{object_of, Object, ObjectModel};
use crate::strings::{lemma_views_push, views};
use crate::user::{
    setting_of, user_bool, user_color, user_f32, Setting, UserSetting,
};
use crate::value::{
    grey, parse_vec3, vec_numbers, Color, Number, Scalar, Vec3, VecError, ONE_BITS, ZERO_BITS,
};

verus! {

#[derive(Clone, Copy, Debug, PartialEq, Eq, Structural)]
pub enum Projection {
    Orthogonal { width: i64, height: i64 },
    Auto,
}

#[derive(Debug)]
pub struct Camera {
    pub eye: Vec3,
    pub center: Vec3,
    pub up: Vec3,
    pub nearz: Scalar,
    pub farz: Scalar,
    pub fov: UserSetting<Scalar>,
    pub projection: Projection,
}

/// What a [`Camera`] holds.
pub struct CameraModel {
    pub eye: (Number, Number, Number),
    pub center: (Number, Number, Number),
    pub up: (Number, Number, Number),
    pub nearz: Number,
    pub farz: Number,
    pub fov: Setting<Number>,
    pub projection: Projection,
}

impl View for Camera {
    type V = CameraModel;

    open spec fn view(&self) -> CameraModel {
        CameraModel {
            eye: self.eye@,
            center: self.center@,
            up: self.up@,
            nearz: self.nearz@,
            farz: self.farz@,
            fov: self.fov@,
            projection: self.projection,
        }
    }
}

#[derive(Debug)]
pub struct General {
    pub ambientcolor: UserSetting<Color>,
    pub skylightcolor: UserSetting<Color>,
    pub clearcolor: UserSetting<Color>,
    pub camerafade: UserSetting<bool>,
    pub camerapreview: bool,
    pub bloom: UserSetting<bool>,
    pub bloomstrength: UserSetting<Scalar>,
    pub bloomthreshold: UserSetting<Scalar>,
    pub cameraparallax: UserSetting<bool>,
    pub cameraparallaxamount: UserSetting<Scalar>,
    pub cameraparallaxdelay: UserSetting<Scalar>,
    pub cameraparallaxmouseinfluence: UserSetting<Scalar>,
    pub camerashake: UserSetting<bool>,
    pub camerashakeamplitude: UserSetting<Scalar>,
    pub camerashakeroughness: UserSetting<Scalar>,
    pub camerashakespeed: UserSetting<Scalar>,
    pub customsortorder: bool,
    pub extra: JsonMap,
}

/// What a [`General`] holds.
pub struct GeneralModel {
    pub ambientcolor: Setting<(Number, Number, Number, Number)>,
    pub skylightcolor: Setting<(Number, Number, Number, Number)>,
    pub clearcolor: Setting<(Number, Number, Number, Number)>,
    pub camerafade: Setting<bool>,
    pub camerapreview: bool,
    pub bloom: Setting<bool>,
    pub bloomstrength: Setting<Number>,
    pub bloomthreshold: Setting<Number>,
    pub cameraparallax: Setting<bool>,
    pub cameraparallaxamount: Setting<Number>,
    pub cameraparallaxdelay: Setting<Number>,
    pub cameraparallaxmouseinfluence: Setting<Number>,
    pub camerashake: Setting<bool>,
    pub camerashakeamplitude: Setting<Number>,
    pub camerashakeroughness: Setting<Number>,
    pub camerashakespeed: Setting<Number>,
    pub customsortorder: bool,
    pub extra: Members,
}

impl View for General {
    type V = GeneralModel;

    open spec fn view(&self) -> GeneralModel {
        GeneralModel {
            ambientcolor: self.ambientcolor@,
            skylightcolor: self.skylightcolor@,
            clearcolor: self.clearcolor@,
            camerafade: self.camerafade@,
            camerapreview: self.camerapreview,
            bloom: self.bloom@,
            bloomstrength: self.bloomstrength@,
            bloomthreshold: self.bloomthreshold@,
            cameraparallax: self.cameraparallax@,
            cameraparallaxamount: self.cameraparallaxamount@,
            cameraparallaxdelay: self.cameraparallaxdelay@,
            cameraparallaxmouseinfluence: self.cameraparallaxmouseinfluence@,
            camerashake: self.camerashake@,
            camerashakeamplitude: self.camerashakeamplitude@,
            camerashakeroughness: self.camerashakeroughness@,
            camerashakespeed: self.camerashakespeed@,
            customsortorder: self.customsortorder,
            extra: self.extra@,
        }
    }
}

#[derive(Debug)]
pub struct Scene {
    pub camera: Camera,
    pub general: General,
    pub objects: Vec<Object>,
}

/// What a [`Scene`] holds.
pub struct SceneModelView {
    pub camera: CameraModel,
    pub general: GeneralModel,
    pub objects: Seq<ObjectModel>,
}

impl View for Scene {
    type V = SceneModelView;

    open spec fn view(&self) -> SceneModelView {
        SceneModelView {
            camera: self.camera@,
            general: self.general@,
            objects: views(self.objects@),
        }
    }
}

/// The bits of the single nearest to 0.1.
pub const NEAR_BITS: u32 = 0x3dcc_cccd;

/// The bits of the single 10000.
pub const FAR_BITS: u32 = 0x461c_4000;

/// The bits of the single 50.
pub const FOV_BITS: u32 = 0x4248_0000;

/// A vector of the camera: it must be there, and be one of three.
pub open spec fn camera_vec(m: Members, field: Seq<char>) -> Result<
    (Number, Number, Number),
    Failure,
> {
    match text_of_tree(lookup(m, field)) {
        None => Err(Failure::MissingCameraField(field)),
        Some(s) => {
            let v = vec_numbers(s);
            if v.len() == 3 {
                Ok((v[0], v[1], v[2]))
            } else {
                Err(
                    Failure::CameraVec {
                        field,
                        source: VecError::ComponentCount { expected: 3, found: v.len() as usize },
                    },
                )
            }
        },
    }
}

fn read_camera_vec(camera: &JsonMap, field: &'static str) -> (r: Result<Vec3, SceneError>)
    ensures
        match r {
            Ok(v) => camera_vec(camera@, field@) == Ok::<(Number, Number, Number), Failure>(v@),
            Err(e) => camera_vec(camera@, field@) == Err::<(Number, Number, Number), Failure>(e@),
        },
{
    match camera.text(field) {
        None => Err(SceneError::MissingCameraField(field)),
        Some(s) => match parse_vec3(s.as_str()) {
            Ok(v) => Ok(v),
            Err(source) => Err(SceneError::CameraVec { field, source }),
        },
    }
}

/// A number that the camera gives, or else the general section, or neither.
pub open spec fn camera_number(
    camera: Members,
    general: Members,
    key: Seq<char>,
    default: u32,
) -> Number {
    match number_in(camera, key) {
        Some(n) => n,
        None => match number_in(general, key) {
            Some(n) => n,
            None => Number::Single(default),
        },
    }
}

fn read_camera_number(camera: &JsonMap, general: &JsonMap, key: &str, default: u32) -> (r: Scalar)
    ensures
        r@ == camera_number(camera@, general@, key@, default),
{
    match read_number(camera, key) {
        Some(n) => n,
        None => match read_number(general, key) {
            Some(n) => n,
            None => Scalar::Single(default),
        },
    }
}

/// The projection that the general section asks for.
pub open spec fn projection_of(general: Members) -> Projection {
    match lookup(general, "orthogonalprojection"@) {
        Some(Tree::Table(o)) => if flag_or(o, "auto"@, false) {
            Projection::Auto
        } else {
            Projection::Orthogonal {
                width: whole_or(o, "width"@, 0),
                height: whole_or(o, "height"@, 0),
            }
        },
        _ => Projection::Auto,
    }
}

/// The field of view: the general section's wins over the camera's.
pub open spec fn fov_of(camera: Members, general: Members) -> Setting<Number> {
    if lookup(general, "fov"@) matches Some(t) && !(t is Null) {
        setting_of::<Scalar>(general, "fov"@, Number::Single(FOV_BITS))
    } else {
        setting_of::<Scalar>(camera, "fov"@, Number::Single(FOV_BITS))
    }
}

/// The camera of a document, or the first of its vectors that is missing or wrong.
pub open spec fn camera_of(camera: Members, general: Members) -> Result<CameraModel, Failure> {
    match camera_vec(camera, "eye"@) {
        Err(e) => Err(e),
        Ok(eye) => match camera_vec(camera, "center"@) {
            Err(e) => Err(e),
            Ok(center) => match camera_vec(camera, "up"@) {
                Err(e) => Err(e),
                Ok(up) => Ok(
                    CameraModel {
                        eye,
                        center,
                        up,
                        nearz: camera_number(camera, general, "nearz"@, NEAR_BITS),
                        farz: camera_number(camera, general, "farz"@, FAR_BITS),
                        fov: fov_of(camera, general),
                        projection: projection_of(general),
                    },
                ),
            },
        },
    }
}

impl Camera {
    pub fn parse(camera: &JsonMap, general: &JsonMap) -> (r: Result<Self, SceneError>)
        ensures
            match r {
                Ok(c) => camera_of(camera@, general@) == Ok::<CameraModel, Failure>(c@),
                Err(e) => camera_of(camera@, general@) == Err::<CameraModel, Failure>(e@),
            },
    {
        let eye = match read_camera_vec(camera, "eye") {
            Ok(v) => v,
            Err(e) => {
                return Err(e);
            },
        };
        let center = match read_camera_vec(camera, "center") {
            Ok(v) => v,
            Err(e) => {
                return Err(e);
            },
        };
        let up = match read_camera_vec(camera, "up") {
            Ok(v) => v,
            Err(e) => {
                return Err(e);
            },
        };
        let general_fov = match general.get("fov") {
            Some(v) => match v {
                Json::Null => false,
                _ => true,
            },
            None => false,
        };
        let fov = if general_fov {
            user_f32(general, "fov", FOV_BITS)
        } else {
            user_f32(camera, "fov", FOV_BITS)
        };
        let projection = match general.table("orthogonalprojection") {
            Some(o) => if read_flag(o, "auto", false) {
                Projection::Auto
            } else {
                Projection::Orthogonal {
                    width: read_whole_or(o, "width", 0),
                    height: read_whole_or(o, "height", 0),
                }
            },
            None => Projection::Auto,
        };
        Ok(
            Camera {
                eye,
                center,
                up,
                nearz: read_camera_number(camera, general, "nearz", NEAR_BITS),
                farz: read_camera_number(camera, general, "farz", FAR_BITS),
                fov,
                projection,
            },
        )
    }
}

/// The general section of a document.
pub open spec fn general_of(m: Members) -> GeneralModel {
    let zero = Number::Single(ZERO_BITS);
    let one = Number::Single(ONE_BITS);
    GeneralModel {
        ambientcolor: setting_of::<Color>(m, "ambientcolor"@, grey(ZERO_BITS)),
        skylightcolor: setting_of::<Color>(m, "skylightcolor"@, grey(ZERO_BITS)),
        clearcolor: setting_of::<Color>(m, "clearcolor"@, grey(ONE_BITS)),
        camerafade: setting_of::<bool>(m, "camerafade"@, false),
        camerapreview: flag_or(m, "camerapreview"@, false),
        bloom: setting_of::<bool>(m, "bloom"@, false),
        bloomstrength: setting_of::<Scalar>(m, "bloomstrength"@, zero),
        bloomthreshold: setting_of::<Scalar>(m, "bloomthreshold"@, zero),
        cameraparallax: setting_of::<bool>(m, "cameraparallax"@, false),
        cameraparallaxamount: setting_of::<Scalar>(m, "cameraparallaxamount"@, one),
        cameraparallaxdelay: setting_of::<Scalar>(m, "cameraparallaxdelay"@, zero),
        cameraparallaxmouseinfluence: setting_of::<Scalar>(m, "cameraparallaxmouseinfluence"@, one),
        camerashake: setting_of::<bool>(m, "camerashake"@, false),
        camerashakeamplitude: setting_of::<Scalar>(m, "camerashakeamplitude"@, zero),
        camerashakeroughness: setting_of::<Scalar>(m, "camerashakeroughness"@, zero),
        camerashakespeed: setting_of::<Scalar>(m, "camerashakespeed"@, zero),
        customsortorder: flag_or(m, "customsortorder"@, false),
        extra: m,
    }
}

impl General {
    pub fn parse(map: &JsonMap) -> (r: Self)
        ensures
            r@ == general_of(map@),
    {
        General {
            ambientcolor: user_color(map, "ambientcolor", Color::grey(ZERO_BITS)),
            skylightcolor: user_color(map, "skylightcolor", Color::grey(ZERO_BITS)),
            clearcolor: user_color(map, "clearcolor", Color::grey(ONE_BITS)),
            camerafade: user_bool(map, "camerafade", false),
            camerapreview: read_flag(map, "camerapreview", false),
            bloom: user_bool(map, "bloom", false),
            bloomstrength: user_f32(map, "bloomstrength", ZERO_BITS),
            bloomthreshold: user_f32(map, "bloomthreshold", ZERO_BITS),
            cameraparallax: user_bool(map, "cameraparallax", false),
            cameraparallaxamount: user_f32(map, "cameraparallaxamount", ONE_BITS),
            cameraparallaxdelay: user_f32(map, "cameraparallaxdelay", ZERO_BITS),
            cameraparallaxmouseinfluence: user_f32(map, "cameraparallaxmouseinfluence", ONE_BITS),
            camerashake: user_bool(map, "camerashake", false),
            camerashakeamplitude: user_f32(map, "camerashakeamplitude", ZERO_BITS),
            camerashakeroughness: user_f32(map, "camerashakeroughness", ZERO_BITS),
            camerashakespeed: user_f32(map, "camerashakespeed", ZERO_BITS),
            customsortorder: read_flag(map, "customsortorder", false),
            extra: map.copy(),
        }
    }
}

/// The objects among the first `k` items of a list.
pub open spec fn objects_upto(list: Seq<Tree>, k: int) -> Seq<ObjectModel>
    decreases k,
{
    if k <= 0 {
        Seq::empty()
    } else {
        let before = objects_upto(list, k - 1);
        match object_of(list[k - 1]) {
            Some(o) => before.push(o),
            None => before,
        }
    }
}

/// The scene that a document is, or the first thing that is wrong with it.
pub open spec fn scene_of(t: Tree) -> Result<SceneModelView, Failure> {
    match t {
        Tree::Table(root) => match table_of(lookup(root, "camera"@)) {
            None => Err(Failure::MissingSection("camera"@)),
            Some(camera) => match table_of(lookup(root, "general"@)) {
                None => Err(Failure::MissingSection("general"@)),
                Some(general) => match list_of(lookup(root, "objects"@)) {
                    None => Err(Failure::MissingSection("objects"@)),
                    Some(objects) => match camera_of(camera, general) {
                        Err(e) => Err(e),
                        Ok(c) => Ok(
                            SceneModelView {
                                camera: c,
                                general: general_of(general),
                                objects: objects_upto(objects, objects.len() as int),
                            },
                        ),
                    },
                },
            },
        },
        _ => Err(Failure::NotAnObject),
    }
}

impl Scene {
    /// Reads a scene document.
    pub fn from_slice(bytes: &[u8]) -> (r: Result<Self, SceneError>)
        ensures
            ({
                let expected = match json_document(bytes@) {
                    Ok(t) => scene_of(t),
                    Err(m) => Err(Failure::Json(m)),
                };
                match r {
                    Ok(s) => expected == Ok::<SceneModelView, Failure>(s@),
                    Err(e) => expected == Err::<SceneModelView, Failure>(e@),
                }
            }),
    {
        match parse(bytes) {
            Ok(value) => Self::from_value(&value),
            Err(m) => Err(SceneError::Json(m)),
        }
    }

    /// Reads a scene from a document that is JSON.
    pub fn from_value(value: &Json) -> (r: Result<Self, SceneError>)
        ensures
            match r {
                Ok(s) => scene_of(value@) == Ok::<SceneModelView, Failure>(s@),
                Err(e) => scene_of(value@) == Err::<SceneModelView, Failure>(e@),
            },
    {
        let root = match value.as_table() {
            Some(m) => m,
            None => {
                return Err(SceneError::NotAnObject);
            },
        };
        let camera_map = match root.table("camera") {
            Some(m) => m,
            None => {
                return Err(SceneError::MissingSection("camera"));
            },
        };
        let general_map = match root.table("general") {
            Some(m) => m,
            None => {
                return Err(SceneError::MissingSection("general"));
            },
        };
        let list = match root.list("objects") {
            Some(l) => l,
            None => {
                return Err(SceneError::MissingSection("objects"));
            },
        };
        let camera = match Camera::parse(camera_map, general_map) {
            Ok(c) => c,
            Err(e) => {
                return Err(e);
            },
        };
        let general = General::parse(general_map);
        let objects = read_objects(list);
        Ok(Scene { camera, general, objects })
    }
}

fn read_objects(list: &Vec<Json>) -> (r: Vec<Object>)
    ensures
        views(r@) == objects_upto(views(list@), list@.len() as int),
{
    let ghost all = views(list@);
    let mut out: Vec<Object> = Vec::new();
    let mut i: usize = 0;
    assert(views(out@) =~= Seq::empty());
    while i < list.len()
        invariant
            i <= list@.len(),
            all == views(list@),
            views(out@) == objects_upto(all, i as int),
        decreases list@.len() - i,
    {
        broadcast use lemma_views_push;

        assert(all[i as int] == list@[i as int]@);
        if let Some(o) = Object::parse(&list[i]) {
            out.push(o);
        }
        i += 1;
    }
    out
}

} // verus!
