//! Where objects stand in relation to the ones they hang from.
use std::collections::HashMap;

use vstd::prelude::*;

use crate::copy::Duplicate;
use crate::items::{lists, ItemModel, SceneItem};
use crate::scripting::{PropTarget, PropUpdate, UpdateModel};
use crate::strings::views;
use crate::value::{Number, Scalar, Vec2};
use crate::visibility::ANCESTOR_LIMIT;

verus! {

broadcast use vstd::std_specs::hash::group_hash_axioms;

/// Where an object stands in relation to its parent.
#[derive(Debug)]
pub struct LocalXf {
    pub origin: Vec2,
    pub scale: Vec2,
    pub angle_z: Scalar,
    pub parent: Option<i64>,
}

/// What a [`LocalXf`] holds.
pub struct LocalModel {
    pub origin: (Number, Number),
    pub scale: (Number, Number),
    pub angle_z: Number,
    pub parent: Option<i64>,
}

impl View for LocalXf {
    type V = LocalModel;

    open spec fn view(&self) -> LocalModel {
        LocalModel {
            origin: self.origin@,
            scale: self.scale@,
            angle_z: self.angle_z@,
            parent: self.parent,
        }
    }
}

impl Duplicate for LocalXf {
    fn duplicate(&self) -> (r: Self) {
        LocalXf {
            origin: self.origin.duplicate(),
            scale: self.scale.duplicate(),
            angle_z: self.angle_z.duplicate(),
            parent: self.parent,
        }
    }
}

/// What the members of a table hold.
pub open spec fn local_views(m: Map<i64, LocalXf>) -> Map<i64, LocalModel> {
    m.map_values(|l: LocalXf| l@)
}

/// The parent that an object's place has.
pub open spec fn local_parent(m: Map<i64, LocalModel>, id: i64) -> Option<i64> {
    if m.contains_key(id) {
        m[id].parent
    } else {
        None
    }
}

/// Whether an update moves an object.
pub open spec fn moves_object(m: Map<i64, LocalModel>, u: UpdateModel) -> bool {
    (u.target == PropTarget::Origin || u.target == PropTarget::Scale || u.target
        == PropTarget::Angles) && m.contains_key(u.object_id) && u.vector() is Some
}

/// The place of an object after an update that moves it.
pub open spec fn moved(l: LocalModel, u: UpdateModel) -> LocalModel {
    let v = u.vector()->0;
    match u.target {
        PropTarget::Origin => LocalModel { origin: (v.0, v.1), ..l },
        PropTarget::Scale => LocalModel { scale: (v.0, v.1), ..l },
        _ => LocalModel { angle_z: v.2, ..l },
    }
}

/// The places after the first `k` updates.
pub open spec fn places_after(
    m: Map<i64, LocalModel>,
    updates: Seq<UpdateModel>,
    k: int,
) -> Map<i64, LocalModel>
    decreases k,
{
    if k <= 0 {
        m
    } else {
        let before = places_after(m, updates, k - 1);
        let u = updates[k - 1];
        if moves_object(before, u) {
            before.insert(u.object_id, moved(before[u.object_id], u))
        } else {
            before
        }
    }
}

/// The objects that the first `k` updates move.
pub open spec fn moved_ids(
    m: Map<i64, LocalModel>,
    updates: Seq<UpdateModel>,
    k: int,
) -> Seq<i64>
    decreases k,
{
    if k <= 0 {
        Seq::empty()
    } else {
        let before = moved_ids(m, updates, k - 1);
        if moves_object(places_after(m, updates, k - 1), updates[k - 1]) {
            before.push(updates[k - 1].object_id)
        } else {
            before
        }
    }
}

/// Moves objects as the updates say, and returns those that were moved.
pub fn move_objects(locals: &mut HashMap<i64, LocalXf>, updates: &Vec<PropUpdate>) -> (r: Vec<i64>)
    ensures
        local_views(final(locals)@) == places_after(
            local_views(old(locals)@),
            views(updates@),
            updates@.len() as int,
        ),
        r@ == moved_ids(local_views(old(locals)@), views(updates@), updates@.len() as int),
{
    let ghost start = local_views(locals@);
    let ghost all = views(updates@);
    let mut dirty: Vec<i64> = Vec::new();
    let mut k: usize = 0;
    while k < updates.len()
        invariant
            k <= updates@.len(),
            all == views(updates@),
            local_views(locals@) == places_after(start, all, k as int),
            dirty@ == moved_ids(start, all, k as int),
        decreases updates@.len() - k,
    {
        let u = &updates[k];
        assert(all[k as int] == u@);
        let ghost before = local_views(locals@);
        let placing = match u.target {
            PropTarget::Origin | PropTarget::Scale | PropTarget::Angles => true,
            _ => false,
        };
        if placing {
            let found: Option<LocalXf> = match locals.get(&u.object_id) {
                Some(l) => Some(l.duplicate()),
                None => None,
            };
            if let Some(mut l) = found {
                assert(before[u.object_id] == l@);
                if let Some(v) = u.vector() {
                    match u.target {
                        PropTarget::Origin => {
                            l.origin = Vec2 { x: v.x, y: v.y };
                        },
                        PropTarget::Scale => {
                            l.scale = Vec2 { x: v.x, y: v.y };
                        },
                        _ => {
                            l.angle_z = v.z;
                        },
                    }
                    let ghost now = l@;
                    locals.insert(u.object_id, l);
                    assert(local_views(locals@) =~= before.insert(u.object_id, now));
                    dirty.push(u.object_id);
                }
            }
        }
        assert(local_views(locals@) =~= places_after(start, all, k + 1));
        k += 1;
    }
    dirty
}

/// Whether the line of parents from `start`, at most `steps` long, holds one
/// of the given objects.
pub open spec fn line_holds(
    m: Map<i64, LocalModel>,
    ids: Seq<i64>,
    start: Option<i64>,
    steps: nat,
) -> bool
    decreases steps,
{
    match start {
        None => false,
        Some(id) => steps > 0 && (ids.contains(id) || line_holds(
            m,
            ids,
            local_parent(m, id),
            (steps - 1) as nat,
        )),
    }
}

/// Whether an object is moved, by itself or with one of its ancestors.
pub open spec fn is_moved(m: Map<i64, LocalModel>, ids: Seq<i64>, id: i64) -> bool {
    ids.contains(id) || line_holds(m, ids, local_parent(m, id), ANCESTOR_LIMIT as nat)
}

/// Whether an object is moved, by itself or with one of its ancestors.
pub fn is_affected(locals: &HashMap<i64, LocalXf>, dirty: &Vec<i64>, id: i64) -> (r: bool)
    ensures
        r == is_moved(local_views(locals@), dirty@, id),
{
    let ghost m = local_views(locals@);
    if lists(dirty, id) {
        return true;
    }
    let mut cur: Option<i64> = match locals.get(&id) {
        Some(l) => l.parent,
        None => None,
    };
    assert(cur == local_parent(m, id));
    let mut left: u32 = ANCESTOR_LIMIT;
    while left > 0
        invariant
            m == local_views(locals@),
            line_holds(m, dirty@, local_parent(m, id), ANCESTOR_LIMIT as nat) == line_holds(
                m,
                dirty@,
                cur,
                left as nat,
            ),
            !dirty@.contains(id),
        decreases left,
    {
        match cur {
            None => {
                return false;
            },
            Some(c) => {
                if lists(dirty, c) {
                    return true;
                }
                cur = match locals.get(&c) {
                    Some(l) => l.parent,
                    None => None,
                };
                assert(cur == local_parent(m, c));
            },
        }
        left -= 1;
    }
    false
}

/// The positions of the image layers, among the first `k` items, that are moved.
pub open spec fn moved_images(
    items: Seq<ItemModel>,
    m: Map<i64, LocalModel>,
    ids: Seq<i64>,
    k: int,
) -> Seq<usize>
    decreases k,
{
    if k <= 0 {
        Seq::empty()
    } else {
        let before = moved_images(items, m, ids, k - 1);
        if items[k - 1] is Image && is_moved(m, ids, items[k - 1].id()) {
            before.push((k - 1) as usize)
        } else {
            before
        }
    }
}

/// Moves objects as the updates say, and returns the positions of the image
/// layers that stand elsewhere now.
pub fn apply_image_transforms(
    items: &Vec<SceneItem>,
    locals: &mut HashMap<i64, LocalXf>,
    updates: &Vec<PropUpdate>,
) -> (r: Vec<usize>)
    ensures
        local_views(final(locals)@) == places_after(
            local_views(old(locals)@),
            views(updates@),
            updates@.len() as int,
        ),
        r@ == moved_images(
            views(items@),
            local_views(final(locals)@),
            moved_ids(local_views(old(locals)@), views(updates@), updates@.len() as int),
            items@.len() as int,
        ),
{
    let dirty = move_objects(locals, updates);
    let ghost m = local_views(locals@);
    let ghost all = views(items@);
    let mut out: Vec<usize> = Vec::new();
    let mut i: usize = 0;
    while i < items.len()
        invariant
            i <= items@.len(),
            all == views(items@),
            m == local_views(locals@),
            out@ == moved_images(all, m, dirty@, i as int),
        decreases items@.len() - i,
    {
        assert(all[i as int] == items@[i as int]@);
        if let SceneItem::Image(o) = &items[i] {
            if is_affected(locals, &dirty, o.id) {
                out.push(i);
            }
        }
        i += 1;
    }
    out
}

/// The places from an object up to its topmost ancestor, at most `steps`.
/// An object that has no place ends the line.
pub open spec fn place_line(m: Map<i64, LocalModel>, start: Option<i64>, steps: nat) -> Seq<LocalModel>
    decreases steps,
{
    match start {
        None => Seq::empty(),
        Some(id) => if steps == 0 || !m.contains_key(id) {
            Seq::empty()
        } else {
            seq![m[id]] + place_line(m, m[id].parent, (steps - 1) as nat)
        },
    }
}

/// The places that make up where an object stands, its own first.
pub fn place_chain(id: i64, locals: &HashMap<i64, LocalXf>) -> (r: Vec<LocalXf>)
    ensures
        views(r@) == place_line(local_views(locals@), Some(id), ANCESTOR_LIMIT as nat),
        r@.len() <= ANCESTOR_LIMIT,
{
    let ghost m = local_views(locals@);
    let mut chain: Vec<LocalXf> = Vec::new();
    let mut cur: Option<i64> = Some(id);
    let mut left: u32 = ANCESTOR_LIMIT;
    assert(views(chain@) + place_line(m, cur, left as nat) =~= place_line(m, cur, left as nat));
    while left > 0
        invariant
            m == local_views(locals@),
            left + chain@.len() <= ANCESTOR_LIMIT,
            place_line(m, Some(id), ANCESTOR_LIMIT as nat) == views(chain@) + place_line(
                m,
                cur,
                left as nat,
            ),
        decreases left,
    {
        match cur {
            None => {
                assert(views(chain@) + place_line(m, cur, left as nat) =~= views(chain@));
                return chain;
            },
            Some(c) => match locals.get(&c) {
                None => {
                    assert(views(chain@) + place_line(m, cur, left as nat) =~= views(chain@));
                    return chain;
                },
                Some(l) => {
                    let copy = l.duplicate();
                    assert(m[c] == copy@);
                    let ghost before = views(chain@);
                    proof {
                        crate::strings::lemma_views_push(chain@, copy);
                        assert(before + place_line(m, cur, left as nat) =~= before.push(copy@)
                            + place_line(m, m[c].parent, (left - 1) as nat));
                    }
                    cur = l.parent;
                    chain.push(copy);
                },
            },
        }
        left -= 1;
    }
    assert(views(chain@) + place_line(m, cur, 0) =~= views(chain@));
    chain
}

} // verus!
