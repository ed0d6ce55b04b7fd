//! Parameters of shaders that are shared by the passes that use them.
use std::sync::Arc;

use vstd::prelude::*;

use crate::params::{ParamModel, Parameter};
use crate::strings::{same_text, views};
use crate::value::Scalar;

verus! {

/// The parameters of the two stages of a shader.
#[derive(Debug)]
pub struct SharedParams {
    pub shader: String,
    pub vs: Arc<Vec<Parameter>>,
    pub fs: Arc<Vec<Parameter>>,
}

/// What [`SharedParams`] hold.
pub struct SharedModel {
    pub shader: Seq<char>,
    pub vs: Seq<ParamModel>,
    pub fs: Seq<ParamModel>,
}

impl View for SharedParams {
    type V = SharedModel;

    open spec fn view(&self) -> SharedModel {
        SharedModel {
            shader: self.shader@,
            vs: views((*self.vs)@),
            fs: views((*self.fs)@),
        }
    }
}

fn same_scalar(a: &Scalar, b: &Scalar) -> (r: bool)
    ensures
        r == (a@ == b@),
    decreases a,
{
    match (a, b) {
        (Scalar::Single(x), Scalar::Single(y)) => *x == *y,
        (Scalar::Int(x), Scalar::Int(y)) => *x == *y,
        (Scalar::UInt(x), Scalar::UInt(y)) => *x == *y,
        (Scalar::Real(x), Scalar::Real(y)) => *x == *y,
        (Scalar::Lexeme(x), Scalar::Lexeme(y)) => same_text(x.as_str(), y.as_str()),
        (Scalar::Wide(x), Scalar::Wide(y)) => same_text(x.as_str(), y.as_str()),
        (Scalar::Channel(x), Scalar::Channel(y)) => *x == *y,
        (Scalar::Degrees(x), Scalar::Degrees(y)) => same_scalar(x, y),
        (Scalar::Radians(x), Scalar::Radians(y)) => same_scalar(x, y),
        _ => false,
    }
}

fn same_scalars(a: &Vec<Scalar>, b: &Vec<Scalar>) -> (r: bool)
    ensures
        r == (views(a@) == views(b@)),
{
    if a.len() != b.len() {
        assert(views(a@).len() != views(b@).len());
        return false;
    }
    let mut i: usize = 0;
    while i < a.len()
        invariant
            i <= a@.len(),
            a@.len() == b@.len(),
            forall|j: int| 0 <= j < i ==> views(a@)[j] == views(b@)[j],
        decreases a@.len() - i,
    {
        if !same_scalar(&a[i], &b[i]) {
            assert(views(a@)[i as int] != views(b@)[i as int]);
            return false;
        }
        i += 1;
    }
    assert(views(a@) =~= views(b@));
    true
}

fn same_param(a: &Parameter, b: &Parameter) -> (r: bool)
    ensures
        r == (a@ == b@),
{
    let defaults = match (&a.default, &b.default) {
        (Some(x), Some(y)) => same_scalars(x, y),
        (None, None) => true,
        _ => false,
    };
    same_text(a.name.as_str(), b.name.as_str()) && same_text(
        a.material.as_str(),
        b.material.as_str(),
    ) && a.ty == b.ty && defaults
}

fn same_params(a: &Vec<Parameter>, b: &Vec<Parameter>) -> (r: bool)
    ensures
        r == (views(a@) == views(b@)),
{
    if a.len() != b.len() {
        assert(views(a@).len() != views(b@).len());
        return false;
    }
    let mut i: usize = 0;
    while i < a.len()
        invariant
            i <= a@.len(),
            a@.len() == b@.len(),
            forall|j: int| 0 <= j < i ==> views(a@)[j] == views(b@)[j],
        decreases a@.len() - i,
    {
        if !same_param(&a[i], &b[i]) {
            assert(views(a@)[i as int] != views(b@)[i as int]);
            return false;
        }
        i += 1;
    }
    assert(views(a@) =~= views(b@));
    true
}

/// The parameters of a shader's two stages, shared with whatever passes have
/// the same. What is new is kept for the passes to come; nothing is kept twice.
pub fn intern_params(
    cache: &mut Vec<SharedParams>,
    shader: &str,
    vs: Vec<Parameter>,
    fs: Vec<Parameter>,
) -> (r: (Arc<Vec<Parameter>>, Arc<Vec<Parameter>>))
    ensures
        views((*r.0)@) == views(vs@),
        views((*r.1)@) == views(fs@),
        views(final(cache)@) == ({
            let entry = SharedModel { shader: shader@, vs: views(vs@), fs: views(fs@) };
            if views(old(cache)@).contains(entry) {
                views(old(cache)@)
            } else {
                views(old(cache)@).push(entry)
            }
        }),
{
    let ghost all = views(cache@);
    let ghost entry = SharedModel { shader: shader@, vs: views(vs@), fs: views(fs@) };
    let mut i: usize = 0;
    while i < cache.len()
        invariant
            i <= cache@.len(),
            all == views(cache@),
            cache@ == old(cache)@,
            entry == (SharedModel { shader: shader@, vs: views(vs@), fs: views(fs@) }),
            forall|j: int| 0 <= j < i ==> all[j] != entry,
        decreases cache@.len() - i,
    {
        assert(all[i as int] == cache@[i as int]@);
        let c = &cache[i];
        if same_text(c.shader.as_str(), shader) && same_params(&c.vs, &vs) && same_params(
            &c.fs,
            &fs,
        ) {
            assert(all.contains(entry));
            return (Arc::clone(&c.vs), Arc::clone(&c.fs));
        }
        i += 1;
    }
    let a = Arc::new(vs);
    let b = Arc::new(fs);
    let kept = SharedParams { shader: shader.to_owned(), vs: Arc::clone(&a), fs: Arc::clone(&b) };
    proof {
        crate::strings::lemma_views_push(cache@, kept);
    }
    cache.push(kept);
    (a, b)
}

} // verus!
