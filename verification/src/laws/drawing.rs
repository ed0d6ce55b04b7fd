//! What is drawn in a frame, item by item.
use vstd::prelude::*;

use crate::frame::{
    donor_steps, drawn, frame_steps, is_donor, is_shown, item_steps, layer_key, moves, on_show,
    particle_count, pass_count, pass_uses, step_of, text_count, users_upto, DrawStep, Tree,
};
use crate::items::ItemModel;
use crate::visibility::{line_visible, parent_of};

verus! {

/// The object that is met `n` steps above `start`.
pub open spec fn ancestor(parents: Map<i64, Option<i64>>, start: Option<i64>, n: nat) -> Option<i64>
    decreases n,
{
    if n == 0 {
        start
    } else {
        match ancestor(parents, start, (n - 1) as nat) {
            Some(id) => if parents.contains_key(id) {
                parents[id]
            } else {
                None
            },
            None => None,
        }
    }
}

/// Whether the object `n` steps above `start` is known to be hidden.
pub open spec fn hidden_above(
    parents: Map<i64, Option<i64>>,
    visible: Map<i64, bool>,
    start: Option<i64>,
    n: nat,
) -> bool {
    ancestor(parents, start, n) matches Some(id) && visible.contains_key(id) && !visible[id]
}

proof fn lemma_ancestor_shift(parents: Map<i64, Option<i64>>, id: i64, n: nat)
    ensures
        ancestor(parents, Some(id), n + 1) == ancestor(parents, parent_of(parents, id), n),
    decreases n,
{
    if n > 0 {
        lemma_ancestor_shift(parents, id, (n - 1) as nat);
        assert((n - 1) as nat + 1 == n);
        assert((n + 1 - 1) as nat == n);
    } else {
        assert(ancestor(parents, Some(id), 0) == Some(id));
        assert((0 + 1 - 1) as nat == 0);
        assert(ancestor(parents, Some(id), 1) == parent_of(parents, id));
    }
}

/// An object shows if and only if none of the objects from it upwards, as far
/// as they are looked at, is hidden.
pub proof fn law_lines_show_without_hidden_ancestors(
    parents: Map<i64, Option<i64>>,
    visible: Map<i64, bool>,
    start: Option<i64>,
    steps: nat,
)
    ensures
        line_visible(parents, visible, start, steps) <==> (forall|n: nat|
            n < steps ==> !#[trigger] hidden_above(parents, visible, start, n)),
    decreases steps,
{
    match start {
        None => {
            assert forall|n: nat| n < steps implies !#[trigger] hidden_above(
                parents,
                visible,
                start,
                n,
            ) by {
                lemma_nothing_above(parents, n);
            }
        },
        Some(id) => {
            if steps > 0 {
                assert(ancestor(parents, start, 0) == start);
                assert(hidden_above(parents, visible, start, 0) == (visible.contains_key(id)
                    && !visible[id]));
                let up = parent_of(parents, id);
                law_lines_show_without_hidden_ancestors(parents, visible, up, (steps - 1) as nat);
                if line_visible(parents, visible, start, steps) {
                    assert forall|n: nat| n < steps implies !#[trigger] hidden_above(
                        parents,
                        visible,
                        start,
                        n,
                    ) by {
                        if n > 0 {
                            lemma_ancestor_shift(parents, id, (n - 1) as nat);
                            assert(!hidden_above(parents, visible, up, (n - 1) as nat));
                            assert((n - 1) as nat + 1 == n);
                        }
                    }
                }
                if forall|n: nat| n < steps ==> !#[trigger] hidden_above(parents, visible, start, n) {
                    assert(!hidden_above(parents, visible, start, 0));
                    assert forall|n: nat| n < (steps - 1) as nat implies !#[trigger] hidden_above(
                        parents,
                        visible,
                        up,
                        n,
                    ) by {
                        lemma_ancestor_shift(parents, id, n);
                        assert(!hidden_above(parents, visible, start, n + 1));
                    }
                }
            }
        },
    }
}

proof fn lemma_nothing_above(parents: Map<i64, Option<i64>>, n: nat)
    ensures
        ancestor(parents, None, n) is None,
    decreases n,
{
    if n > 0 {
        lemma_nothing_above(parents, (n - 1) as nat);
    }
}

/// Whether the flags of an item let it be seen: it is visible, a text is not
/// blank, and none of the 64 objects above it is hidden.
pub open spec fn seen(item: ItemModel, tree: Tree) -> bool {
    match item {
        ItemModel::Image(o) => o.visible && forall|n: nat|
            n < 64 ==> !#[trigger] hidden_above(tree.parents@, tree.visible@, o.parent, n),
        ItemModel::Particle(p) => p.visible && forall|n: nat|
            0 < n <= 64 ==> !#[trigger] hidden_above(tree.parents@, tree.visible@, Some(p.id), n),
        ItemModel::Text(t) => t.visible && !t.blank && forall|n: nat|
            0 < n <= 64 ==> !#[trigger] hidden_above(tree.parents@, tree.visible@, Some(t.id), n),
        ItemModel::Model(m) => m.visible && forall|n: nat|
            0 < n <= 64 ==> !#[trigger] hidden_above(tree.parents@, tree.visible@, Some(m.id), n),
    }
}

/// Whether others draw from a layer, so that it is drawn, visible or not.
pub open spec fn lends(item: ItemModel) -> bool {
    item matches ItemModel::Image(o) && o.offscreen_donor
}

/// Whether a step draws the item at position `i`, as the kind of item it is.
pub open spec fn draws_item(step: DrawStep, item: ItemModel, i: int) -> bool {
    match (item, step) {
        (ItemModel::Image(_), DrawStep::Image(j)) => j == i,
        (ItemModel::Particle(_), DrawStep::Particle(j)) => j == i,
        (ItemModel::Text(_), DrawStep::Text(j)) => j == i,
        (ItemModel::Model(_), DrawStep::Model(j)) => j == i,
        _ => false,
    }
}

pub(crate) proof fn lemma_no_hidden_parent(tree: Tree, id: i64)
    ensures
        (forall|n: nat|
            0 < n <= 64 ==> !#[trigger] hidden_above(tree.parents@, tree.visible@, Some(id), n))
            <==> tree.shows(parent_of(tree.parents@, id)),
{
    let parents = tree.parents@;
    let visible = tree.visible@;
    let up = parent_of(parents, id);
    law_lines_show_without_hidden_ancestors(parents, visible, up, 64);
    if tree.shows(up) {
        assert forall|n: nat| 0 < n <= 64 implies !#[trigger] hidden_above(
            parents,
            visible,
            Some(id),
            n,
        ) by {
            lemma_ancestor_shift(parents, id, (n - 1) as nat);
            assert(!hidden_above(parents, visible, up, (n - 1) as nat));
            assert((n - 1) as nat + 1 == n);
        }
    }
    if forall|n: nat| 0 < n <= 64 ==> !#[trigger] hidden_above(parents, visible, Some(id), n) {
        assert forall|n: nat| n < 64 implies !#[trigger] hidden_above(parents, visible, up, n) by {
            lemma_ancestor_shift(parents, id, n);
            assert(!hidden_above(parents, visible, Some(id), n + 1));
        }
    }
}

proof fn lemma_shown_means_seen(item: ItemModel, tree: Tree)
    ensures
        is_shown(item, tree) == (lends(item) || seen(item, tree)),
{
    match item {
        ItemModel::Image(o) => {
            law_lines_show_without_hidden_ancestors(tree.parents@, tree.visible@, o.parent, 64);
        },
        ItemModel::Particle(p) => lemma_no_hidden_parent(tree, p.id),
        ItemModel::Text(t) => lemma_no_hidden_parent(tree, t.id),
        ItemModel::Model(m) => lemma_no_hidden_parent(tree, m.id),
    }
}

proof fn lemma_donors_in_turn(items: Seq<ItemModel>, k: int)
    requires
        0 <= k <= items.len() <= usize::MAX,
    ensures
        forall|s: int|
            0 <= s < donor_steps(items, k).len() ==> (#[trigger] donor_steps(items, k)[s] matches
                DrawStep::Image(i) && i < k && is_donor(items[i as int])),
        forall|i: int|
            0 <= i < k && is_donor(#[trigger] items[i]) ==> donor_steps(items, k).contains(
                DrawStep::Image(i as usize),
            ),
        forall|s: int, t: int|
            0 <= s < t < donor_steps(items, k).len() ==> drawn(#[trigger] donor_steps(items, k)[s])->0
                < drawn(#[trigger] donor_steps(items, k)[t])->0,
    decreases k,
{
    if k > 0 {
        lemma_donors_in_turn(items, k - 1);
        let before = donor_steps(items, k - 1);
        let now = donor_steps(items, k);
        assert forall|i: int| 0 <= i < k && is_donor(#[trigger] items[i]) implies now.contains(
            DrawStep::Image(i as usize),
        ) by {
            if i < k - 1 {
                let s = choose|s: int| 0 <= s < before.len() && before[s] == DrawStep::Image(i as usize);
                assert(now[s] == before[s]);
            } else {
                assert(now[now.len() - 1] == DrawStep::Image(i as usize));
            }
        }
        assert forall|s: int, t: int| 0 <= s < t < now.len() implies drawn(#[trigger] now[s])->0
            < drawn(#[trigger] now[t])->0 by {
            assert(now[s] == before[s]);
        }
    }
}

proof fn lemma_items_in_turn(items: Seq<ItemModel>, tree: Tree, has_snapshot: bool, k: int)
    requires
        0 <= k <= items.len() <= usize::MAX,
    ensures
        forall|s: int|
            #![trigger item_steps(items, tree, has_snapshot, k)[s]]
            0 <= s < item_steps(items, tree, has_snapshot, k).len() ==> (match drawn(
                item_steps(items, tree, has_snapshot, k)[s],
            ) {
                Some(i) => i < k && !is_donor(items[i as int]) && is_shown(items[i as int], tree)
                    && item_steps(items, tree, has_snapshot, k)[s] == step_of(items[i as int], i),
                None => true,
            }),
        forall|i: int|
            0 <= i < k && !is_donor(#[trigger] items[i]) && is_shown(items[i], tree) ==> item_steps(
                items,
                tree,
                has_snapshot,
                k,
            ).contains(step_of(items[i], i as usize)),
        forall|s: int, t: int|
            0 <= s < t < item_steps(items, tree, has_snapshot, k).len() && drawn(
                #[trigger] item_steps(items, tree, has_snapshot, k)[s],
            ) is Some && drawn(#[trigger] item_steps(items, tree, has_snapshot, k)[t]) is Some
                ==> drawn(item_steps(items, tree, has_snapshot, k)[s])->0 < drawn(
                item_steps(items, tree, has_snapshot, k)[t],
            )->0,
        forall|s: int|
            0 <= s < item_steps(items, tree, has_snapshot, k).len() && #[trigger] item_steps(
                items,
                tree,
                has_snapshot,
                k,
            )[s] == DrawStep::Snapshot ==> s + 1 < item_steps(items, tree, has_snapshot, k).len()
                && has_snapshot && (drawn(item_steps(items, tree, has_snapshot, k)[s + 1]) matches
                Some(i) && items[i as int].reads_scene()),
    decreases k,
{
    if k > 0 {
        lemma_items_in_turn(items, tree, has_snapshot, k - 1);
        let before = item_steps(items, tree, has_snapshot, k - 1);
        let now = item_steps(items, tree, has_snapshot, k);
        let step = step_of(items[k - 1], (k - 1) as usize);
        assert(drawn(step) == Some((k - 1) as usize));
        assert forall|i: int|
            0 <= i < k && !is_donor(#[trigger] items[i]) && is_shown(
                items[i],
                tree,
            ) implies now.contains(step_of(items[i], i as usize)) by {
            if i < k - 1 {
                let s = choose|s: int|
                    0 <= s < before.len() && before[s] == step_of(items[i], i as usize);
                assert(now[s] == before[s]);
            } else {
                assert(now[now.len() - 1] == step);
            }
        }
        assert forall|s: int, t: int|
            0 <= s < t < now.len() && drawn(#[trigger] now[s]) is Some && drawn(
                #[trigger] now[t],
            ) is Some implies drawn(now[s])->0 < drawn(now[t])->0 by {
            if s < before.len() {
                assert(now[s] == before[s]);
            }
            if t < before.len() {
                assert(now[t] == before[t]);
            }
        }
        assert forall|s: int|
            0 <= s < now.len() && #[trigger] now[s] == DrawStep::Snapshot implies s + 1 < now.len()
            && has_snapshot && (drawn(now[s + 1]) matches Some(i) && items[i as int].reads_scene()) by {
            if s < before.len() {
                assert(now[s] == before[s]);
                assert(now[s + 1] == before[s + 1]);
            }
        }
        assert forall|s: int| 0 <= s < now.len() implies (match drawn(#[trigger] now[s]) {
            Some(i) => i < k && !is_donor(items[i as int]) && is_shown(items[i as int], tree)
                && now[s] == step_of(items[i as int], i),
            None => true,
        }) by {
            if s < before.len() {
                assert(now[s] == before[s]);
            }
        }
    }
}

proof fn lemma_frame_parts(items: Seq<ItemModel>, tree: Tree, has_snapshot: bool, s: int)
    requires
        0 <= s < frame_steps(items, tree, has_snapshot).len(),
    ensures
        s < donor_steps(items, items.len() as int).len() ==> frame_steps(items, tree, has_snapshot)[s]
            == donor_steps(items, items.len() as int)[s],
        s >= donor_steps(items, items.len() as int).len() ==> frame_steps(
            items,
            tree,
            has_snapshot,
        )[s] == item_steps(items, tree, has_snapshot, items.len() as int)[s - donor_steps(
            items,
            items.len() as int,
        ).len()],
{
}

/// An item that is visible, a text that is not blank besides, and that has no
/// hidden ancestor is drawn; so is a layer that others draw from.
pub proof fn law_seen_items_are_drawn(
    items: Seq<ItemModel>,
    tree: Tree,
    has_snapshot: bool,
    i: int,
)
    requires
        0 <= i < items.len() <= usize::MAX,
        seen(items[i], tree) || lends(items[i]),
    ensures
        exists|s: int|
            0 <= s < frame_steps(items, tree, has_snapshot).len() && draws_item(
                #[trigger] frame_steps(items, tree, has_snapshot)[s],
                items[i],
                i,
            ),
{
    let n = items.len() as int;
    let donors = donor_steps(items, n);
    let rest = item_steps(items, tree, has_snapshot, n);
    let all = frame_steps(items, tree, has_snapshot);
    lemma_shown_means_seen(items[i], tree);
    lemma_donors_in_turn(items, n);
    lemma_items_in_turn(items, tree, has_snapshot, n);
    if is_donor(items[i]) {
        let s = choose|s: int| 0 <= s < donors.len() && donors[s] == DrawStep::Image(i as usize);
        lemma_frame_parts(items, tree, has_snapshot, s);
        assert(draws_item(all[s], items[i], i));
    } else {
        let s = choose|s: int| 0 <= s < rest.len() && rest[s] == step_of(items[i], i as usize);
        lemma_frame_parts(items, tree, has_snapshot, s + donors.len());
        assert(draws_item(all[s + donors.len()], items[i], i));
    }
}

/// What a frame draws is an item of the scene, drawn as the kind of item that
/// it is; and it is seen, or others draw from it.
pub proof fn law_only_seen_items_are_drawn(
    items: Seq<ItemModel>,
    tree: Tree,
    has_snapshot: bool,
    s: int,
)
    requires
        items.len() <= usize::MAX,
        0 <= s < frame_steps(items, tree, has_snapshot).len(),
    ensures
        frame_steps(items, tree, has_snapshot)[s] != DrawStep::Snapshot ==> exists|i: int|
            0 <= i < items.len() && #[trigger] draws_item(
                frame_steps(items, tree, has_snapshot)[s],
                items[i],
                i,
            ) && (seen(items[i], tree) || lends(items[i])),
{
    let n = items.len() as int;
    let step = frame_steps(items, tree, has_snapshot)[s];
    lemma_donors_in_turn(items, n);
    lemma_items_in_turn(items, tree, has_snapshot, n);
    lemma_frame_parts(items, tree, has_snapshot, s);
    if step != DrawStep::Snapshot {
        let i = drawn(step)->0 as int;
        if s < donor_steps(items, n).len() {
            assert(lends(items[i]));
        } else {
            lemma_shown_means_seen(items[i], tree);
        }
        assert(draws_item(step, items[i], i));
    }
}

/// A frame draws no item twice; and apart from the layers that are drawn ahead
/// for the sake of others, it draws the items in their order.
pub proof fn law_items_are_drawn_once_and_in_order(
    items: Seq<ItemModel>,
    tree: Tree,
    has_snapshot: bool,
    s: int,
    t: int,
    i: int,
    j: int,
)
    requires
        items.len() <= usize::MAX,
        0 <= s < frame_steps(items, tree, has_snapshot).len(),
        0 <= t < frame_steps(items, tree, has_snapshot).len(),
        0 <= i < items.len(),
        0 <= j < items.len(),
        draws_item(frame_steps(items, tree, has_snapshot)[s], items[i], i),
        draws_item(frame_steps(items, tree, has_snapshot)[t], items[j], j),
    ensures
        i == j ==> s == t,
        !lends(items[i]) && !lends(items[j]) ==> (i < j <==> s < t),
        lends(items[i]) && !items[i].reads_scene() && !lends(items[j]) ==> s < t,
{
    let n = items.len() as int;
    lemma_donors_in_turn(items, n);
    lemma_items_in_turn(items, tree, has_snapshot, n);
    lemma_frame_parts(items, tree, has_snapshot, s);
    lemma_frame_parts(items, tree, has_snapshot, t);
}

/// The scene is copied only where a copy is kept, and only for the next step,
/// which draws a layer or a model that samples the scene.
pub proof fn law_copies_are_made_for_readers(
    items: Seq<ItemModel>,
    tree: Tree,
    has_snapshot: bool,
    s: int,
)
    requires
        items.len() <= usize::MAX,
        0 <= s < frame_steps(items, tree, has_snapshot).len(),
        frame_steps(items, tree, has_snapshot)[s] == DrawStep::Snapshot,
    ensures
        has_snapshot,
        s + 1 < frame_steps(items, tree, has_snapshot).len(),
        match frame_steps(items, tree, has_snapshot)[s + 1] {
            DrawStep::Image(i) => i < items.len() && (items[i as int] matches ItemModel::Image(o)
                && o.reads_scene),
            DrawStep::Model(i) => i < items.len() && (items[i as int] matches ItemModel::Model(m)
                && m.reads_scene),
            _ => false,
        },
{
    let n = items.len() as int;
    lemma_donors_in_turn(items, n);
    lemma_items_in_turn(items, tree, has_snapshot, n);
    lemma_frame_parts(items, tree, has_snapshot, s);
    lemma_frame_parts(items, tree, has_snapshot, s + 1);
}

/// Particle systems and animated models move; nothing else does by itself.
pub proof fn law_what_moves(item: ItemModel)
    ensures
        item is Particle ==> moves(item),
        item is Image || item is Text ==> !moves(item),
        forall|m| item == ItemModel::Model(m) ==> (moves(item) <==> m.animated),
{
}

/// The place of an id in a list of layers is the last at which the id stands;
/// an id that is not in the list stands behind all that are.
pub proof fn law_listed_layers_have_their_last_place(order: Seq<i64>, id: i64, k: int)
    requires
        0 <= k <= order.len() <= i64::MAX,
    ensures
        (forall|i: int| 0 <= i < k ==> order[i] != id) ==> layer_key(order, id, k) == i64::MAX,
        forall|i: int|
            0 <= i < k && #[trigger] order[i] == id ==> i <= layer_key(order, id, k) < k
                && order[layer_key(order, id, k) as int] == id,
    decreases k,
{
    if k > 0 {
        law_listed_layers_have_their_last_place(order, id, k - 1);
    }
}

proof fn lemma_users(items: Seq<ItemModel>, name: Seq<char>, k: int)
    requires
        0 <= k <= items.len() <= usize::MAX,
    ensures
        forall|i: int|
            0 <= i < k ==> (#[trigger] users_upto(items, name, k).contains(i as usize)
                <==> crate::frame::item_uses(items[i], name)),
        forall|j: int|
            0 <= j < users_upto(items, name, k).len() ==> #[trigger] users_upto(items, name, k)[j] < k,
    decreases k,
{
    if k > 0 {
        lemma_users(items, name, k - 1);
        let before = users_upto(items, name, k - 1);
        let now = users_upto(items, name, k);
        assert forall|i: int| 0 <= i < k implies (#[trigger] now.contains(i as usize)
            <==> crate::frame::item_uses(items[i], name)) by {
            if crate::frame::item_uses(items[k - 1], name) {
                assert(now[now.len() - 1] == (k - 1) as usize);
                assert(before.contains(i as usize) ==> now.contains(i as usize)) by {
                    if before.contains(i as usize) {
                        let j = before.index_of(i as usize);
                        assert(now[j] == i as usize);
                    }
                }
                if now.contains(i as usize) && i < k - 1 {
                    let j = now.index_of(i as usize);
                    assert(before[j] == i as usize);
                }
            } else if i == k - 1 {
                assert(!before.contains(i as usize));
            }
        }
    }
}

/// The users of a texture are the layers that have it in a slot of a pass.
pub proof fn law_users_hold_the_texture(items: Seq<ItemModel>, name: Seq<char>, i: int)
    requires
        0 <= i < items.len() <= usize::MAX,
    ensures
        users_upto(items, name, items.len() as int).contains(i as usize) <==> (items[i] matches
            ItemModel::Image(o) && exists|p: int, t: int|
            0 <= p < o.passes.len() && 0 <= t < o.passes[p].material.textures.len()
                && #[trigger] o.passes[p].material.textures[t] == Some(name)),
{
    lemma_users(items, name, items.len() as int);
    assert(users_upto(items, name, items.len() as int).contains(i as usize)
        <==> crate::frame::item_uses(items[i], name));
    if let ItemModel::Image(o) = items[i] {
        if crate::frame::item_uses(items[i], name) {
            let p = choose|p: int| 0 <= p < o.passes.len() && pass_uses(#[trigger] o.passes[p], name);
            let t = choose|t: int|
                0 <= t < o.passes[p].material.textures.len()
                    && #[trigger] o.passes[p].material.textures[t] == Some(name);
            assert(o.passes[p].material.textures[t] == Some(name));
        }
        if exists|p: int, t: int|
            0 <= p < o.passes.len() && 0 <= t < o.passes[p].material.textures.len()
                && #[trigger] o.passes[p].material.textures[t] == Some(name) {
            let (p, t) = choose|p: int, t: int|
                0 <= p < o.passes.len() && 0 <= t < o.passes[p].material.textures.len()
                    && #[trigger] o.passes[p].material.textures[t] == Some(name);
            assert(pass_uses(o.passes[p], name));
        }
    }
}

/// The passes, particle systems and texts that are counted are those that the
/// items have: one more item adds its own and nothing else.
pub proof fn law_items_are_counted(items: Seq<ItemModel>, item: ItemModel, k: int)
    requires
        0 <= k <= items.len(),
    ensures
        pass_count(items, 0) == 0 && particle_count(items, 0) == 0 && text_count(items, 0) == 0,
        pass_count(items.take(k).push(item), k + 1) == pass_count(items, k) + (match item {
            ItemModel::Image(o) => o.passes.len(),
            _ => 0,
        }),
        particle_count(items.take(k).push(item), k + 1) == particle_count(items, k) + (if item is Particle {
            1int
        } else {
            0
        }),
        text_count(items.take(k).push(item), k + 1) == text_count(items, k) + (if item is Text {
            1int
        } else {
            0
        }),
{
    lemma_counts_agree(items.take(k).push(item), items, k);
}

proof fn lemma_counts_agree(a: Seq<ItemModel>, b: Seq<ItemModel>, k: int)
    requires
        0 <= k <= a.len(),
        k <= b.len(),
        forall|i: int| 0 <= i < k ==> a[i] == b[i],
    ensures
        pass_count(a, k) == pass_count(b, k),
        particle_count(a, k) == particle_count(b, k),
        text_count(a, k) == text_count(b, k),
    decreases k,
{
    if k > 0 {
        lemma_counts_agree(a, b, k - 1);
    }
}

/// A video with known users is on show if and only if one of them is no layer,
/// or is a visible one; a video without known users always is.
pub proof fn law_videos_show_with_their_layers(items: Seq<ItemModel>, users: Seq<usize>)
    ensures
        users.len() == 0 ==> on_show(items, users),
        users.len() > 0 && (forall|u: int|
            0 <= u < users.len() ==> (items[(#[trigger] users[u]) as int] matches ItemModel::Image(o)
                && !o.visible)) ==> !on_show(items, users),
        forall|u: int|
            0 <= u < users.len() && (items[(#[trigger] users[u]) as int] matches ItemModel::Image(o)
                && o.visible) ==> on_show(items, users),
{
}

} // verus!
