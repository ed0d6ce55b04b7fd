//! Copies that keep what a value holds.
use vstd::prelude::*;

use crate::strings::{opt_view, texts, views};

verus! {

/// A value that can be copied; the copy holds the same.
pub trait Duplicate: View + Sized {
    fn duplicate(&self) -> (r: Self)
        ensures
            r@ == self@,
    ;
}

impl Duplicate for bool {
    fn duplicate(&self) -> (r: Self) {
        *self
    }
}

impl Duplicate for i64 {
    fn duplicate(&self) -> (r: Self) {
        *self
    }
}

impl Duplicate for u32 {
    fn duplicate(&self) -> (r: Self) {
        *self
    }
}

impl Duplicate for String {
    fn duplicate(&self) -> (r: Self) {
        self.clone()
    }
}

/// A copy of an optional value.
pub fn copy_opt<T: Duplicate>(o: &Option<T>) -> (r: Option<T>)
    ensures
        opt_view(r) == opt_view(*o),
{
    match o {
        Some(x) => Some(x.duplicate()),
        None => None,
    }
}

/// A copy of a list.
pub fn copy_vec<T: Duplicate>(v: &Vec<T>) -> (r: Vec<T>)
    ensures
        views(r@) == views(v@),
        r@.len() == v@.len(),
{
    let mut out: Vec<T> = Vec::new();
    let mut i: usize = 0;
    while i < v.len()
        invariant
            i <= v@.len(),
            out@.len() == i,
            forall|j: int| 0 <= j < i ==> out@[j]@ == v@[j]@,
        decreases v@.len() - i,
    {
        out.push(v[i].duplicate());
        i += 1;
    }
    assert(views(out@) =~= views(v@));
    out
}

/// A copy of a list of optional texts.
pub fn copy_slots(v: &Vec<Option<String>>) -> (r: Vec<Option<String>>)
    ensures
        texts(r@) == texts(v@),
        r@.len() == v@.len(),
{
    let mut out: Vec<Option<String>> = Vec::new();
    let mut i: usize = 0;
    while i < v.len()
        invariant
            i <= v@.len(),
            out@.len() == i,
            forall|j: int| 0 <= j < i ==> opt_view(out@[j]) == opt_view(v@[j]),
        decreases v@.len() - i,
    {
        out.push(copy_opt(&v[i]));
        i += 1;
    }
    assert(texts(out@) =~= texts(v@));
    out
}

} // verus!
