//! What can be wrong with a scene document.
use vstd::prelude::*;

use crate::strings::{decimal, decimal_of_index, join2};
use crate::value::VecError;

verus! {

#[derive(Debug, PartialEq)]
pub enum SceneError {
    /// The document is not JSON; the text says where.
    Json(String),
    NotAnObject,
    MissingSection(&'static str),
    MissingCameraField(&'static str),
    CameraVec { field: &'static str, source: VecError },
}

/// What a [`SceneError`] holds.
pub enum Failure {
    Json(Seq<char>),
    NotAnObject,
    MissingSection(Seq<char>),
    MissingCameraField(Seq<char>),
    CameraVec { field: Seq<char>, source: VecError },
}

impl View for SceneError {
    type V = Failure;

    open spec fn view(&self) -> Failure {
        match self {
            SceneError::Json(m) => Failure::Json(m@),
            SceneError::NotAnObject => Failure::NotAnObject,
            SceneError::MissingSection(s) => Failure::MissingSection(s@),
            SceneError::MissingCameraField(s) => Failure::MissingCameraField(s@),
            SceneError::CameraVec { field, source } => Failure::CameraVec {
                field: field@,
                source: *source,
            },
        }
    }
}

/// What is said of a text that is no vector.
pub open spec fn vec_error_text(e: VecError) -> Seq<char> {
    match e {
        VecError::ComponentCount { expected, found } => "vector has "@ + decimal(found as int)
            + " components (expected "@ + decimal(expected as int) + ")"@,
    }
}

impl VecError {
    /// What is said of the error.
    pub fn message(&self) -> (r: String)
        ensures
            r@ == vec_error_text(*self),
    {
        match self {
            VecError::ComponentCount { expected, found } => {
                let n = decimal_of_index(*found);
                let m = decimal_of_index(*expected);
                let a = join2("vector has ", n.as_str());
                let b = join2(a.as_str(), " components (expected ");
                let c = join2(b.as_str(), m.as_str());
                join2(c.as_str(), ")")
            },
        }
    }
}

/// What is said of a document that is no scene.
pub open spec fn failure_text(f: Failure) -> Seq<char> {
    match f {
        Failure::Json(m) => "invalid JSON: "@ + m,
        Failure::NotAnObject => "scene.json root is not a JSON object"@,
        Failure::MissingSection(s) => "required section `"@ + s + "` missing"@,
        Failure::MissingCameraField(s) => "camera field `"@ + s + "` missing"@,
        Failure::CameraVec { field, source } => "camera field `"@ + field + "`: "@ + vec_error_text(
            source,
        ),
    }
}

fn around(before: &str, name: &str, after: &str) -> (r: String)
    ensures
        r@ == before@ + name@ + after@,
{
    let a = join2(before, name);
    join2(a.as_str(), after)
}

impl SceneError {
    /// What is said of the error.
    pub fn message(&self) -> (r: String)
        ensures
            r@ == failure_text(self@),
    {
        match self {
            SceneError::Json(m) => join2("invalid JSON: ", m.as_str()),
            SceneError::NotAnObject => "scene.json root is not a JSON object".to_owned(),
            SceneError::MissingSection(s) => around("required section `", s, "` missing"),
            SceneError::MissingCameraField(s) => around("camera field `", s, "` missing"),
            SceneError::CameraVec { field, source } => {
                let start = around("camera field `", field, "`: ");
                let why = source.message();
                join2(start.as_str(), why.as_str())
            },
        }
    }
}

} // verus!
