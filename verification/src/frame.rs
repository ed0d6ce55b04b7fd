//! What is drawn in a frame, and in which order.
use std::collections::HashMap;

use vstd::prelude::*;

use crate::items::{item_id, ItemModel, LivePass, LivePassModel, SceneItem};
use crate::order::{place, sorted_positions};
use crate::strings::{opt_view, same_text, texts, views};
use crate::visibility::{ancestors_visible, line_visible, parent_of, ANCESTOR_LIMIT};

verus! {

broadcast use vstd::std_specs::hash::group_hash_axioms;

/// One step of drawing a frame. The numbers are positions in the list of items.
#[derive(Clone, Copy, Debug, PartialEq, Eq, Structural)]
pub enum DrawStep {
    /// Copies the scene as drawn so far, for the next step to sample.
    Snapshot,
    Image(usize),
    Particle(usize),
    Text(usize),
    Model(usize),
}

/// Which objects hang from which, and which are visible.
pub struct Tree<'a> {
    pub parents: &'a HashMap<i64, Option<i64>>,
    pub visible: &'a HashMap<i64, bool>,
}

impl<'a> Tree<'a> {
    /// Whether an object and its ancestors are visible.
    pub open spec fn shows(&self, start: Option<i64>) -> bool {
        line_visible(self.parents@, self.visible@, start, ANCESTOR_LIMIT as nat)
    }
}

/// Whether a layer is drawn ahead of all others, for their sake.
pub open spec fn is_donor(item: ItemModel) -> bool {
    item matches ItemModel::Image(o) && o.offscreen_donor && !o.reads_scene
}

/// Whether an item is shown in its place among the others. A layer that is
/// drawn for the sake of others is, visible or not.
pub open spec fn is_shown(item: ItemModel, tree: Tree) -> bool {
    match item {
        ItemModel::Image(o) => o.offscreen_donor || (o.visible && tree.shows(o.parent)),
        ItemModel::Particle(p) => p.visible && tree.shows(parent_of(tree.parents@, p.id)),
        ItemModel::Text(t) => t.visible && !t.blank && tree.shows(parent_of(tree.parents@, t.id)),
        ItemModel::Model(m) => m.visible && tree.shows(parent_of(tree.parents@, m.id)),
    }
}

/// The step that draws an item.
pub open spec fn step_of(item: ItemModel, i: usize) -> DrawStep {
    match item {
        ItemModel::Image(_) => DrawStep::Image(i),
        ItemModel::Particle(_) => DrawStep::Particle(i),
        ItemModel::Text(_) => DrawStep::Text(i),
        ItemModel::Model(_) => DrawStep::Model(i),
    }
}

/// The steps that draw the donors among the first `k` items.
pub open spec fn donor_steps(items: Seq<ItemModel>, k: int) -> Seq<DrawStep>
    decreases k,
{
    if k <= 0 {
        Seq::empty()
    } else {
        let before = donor_steps(items, k - 1);
        if is_donor(items[k - 1]) {
            before.push(DrawStep::Image((k - 1) as usize))
        } else {
            before
        }
    }
}

/// The steps that draw the first `k` items in their places. One that samples
/// the scene comes behind a copy of it.
pub open spec fn item_steps(
    items: Seq<ItemModel>,
    tree: Tree,
    has_snapshot: bool,
    k: int,
) -> Seq<DrawStep>
    decreases k,
{
    if k <= 0 {
        Seq::empty()
    } else {
        let before = item_steps(items, tree, has_snapshot, k - 1);
        let item = items[k - 1];
        let step = step_of(item, (k - 1) as usize);
        if is_donor(item) || !is_shown(item, tree) {
            before
        } else if item.reads_scene() && has_snapshot {
            before.push(DrawStep::Snapshot).push(step)
        } else {
            before.push(step)
        }
    }
}

/// All steps of drawing the items of a scene.
pub open spec fn frame_steps(items: Seq<ItemModel>, tree: Tree, has_snapshot: bool) -> Seq<DrawStep> {
    donor_steps(items, items.len() as int) + item_steps(
        items,
        tree,
        has_snapshot,
        items.len() as int,
    )
}

fn shows_parent(tree: &Tree, id: i64) -> (r: bool)
    ensures
        r == tree.shows(parent_of(tree.parents@, id)),
{
    let parent: Option<i64> = match tree.parents.get(&id) {
        Some(p) => *p,
        None => None,
    };
    ancestors_visible(tree.parents, tree.visible, parent)
}

fn shown(item: &SceneItem, tree: &Tree) -> (r: bool)
    ensures
        r == is_shown(item@, *tree),
{
    match item {
        SceneItem::Image(o) => o.offscreen_donor || (o.visible && ancestors_visible(
            tree.parents,
            tree.visible,
            o.parent,
        )),
        SceneItem::Particle(p) => p.visible && shows_parent(tree, p.id),
        SceneItem::Text(t) => t.visible && !t.blank && shows_parent(tree, t.id),
        SceneItem::Model(m) => m.visible && shows_parent(tree, m.id),
    }
}

fn donor(item: &SceneItem) -> (r: bool)
    ensures
        r == is_donor(item@),
{
    match item {
        SceneItem::Image(o) => o.offscreen_donor && !o.reads_scene,
        _ => false,
    }
}

/// Whether an item samples the scene as drawn so far.
pub fn reads_scene(item: &SceneItem) -> (r: bool)
    ensures
        r == item@.reads_scene(),
{
    match item {
        SceneItem::Image(o) => o.reads_scene,
        SceneItem::Model(m) => m.reads_scene,
        _ => false,
    }
}

/// The steps of drawing the items of a scene: first the layers that others
/// draw from, then what is shown.
pub fn draw_steps(items: &Vec<SceneItem>, tree: &Tree, has_snapshot: bool) -> (r: Vec<DrawStep>)
    ensures
        r@ == frame_steps(views(items@), *tree, has_snapshot),
{
    let ghost all = views(items@);
    let mut out: Vec<DrawStep> = Vec::new();
    let mut i: usize = 0;
    while i < items.len()
        invariant
            i <= items@.len(),
            all == views(items@),
            out@ == donor_steps(all, i as int),
        decreases items@.len() - i,
    {
        assert(all[i as int] == items@[i as int]@);
        if donor(&items[i]) {
            out.push(DrawStep::Image(i));
        }
        i += 1;
    }
    let ghost donors = out@;
    let mut k: usize = 0;
    assert(out@ =~= donors + item_steps(all, *tree, has_snapshot, 0));
    while k < items.len()
        invariant
            k <= items@.len(),
            all == views(items@),
            out@ == donors + item_steps(all, *tree, has_snapshot, k as int),
        decreases items@.len() - k,
    {
        let item = &items[k];
        assert(all[k as int] == item@);
        let ghost before = out@;
        if !donor(item) && shown(item, tree) {
            if reads_scene(item) && has_snapshot {
                out.push(DrawStep::Snapshot);
            }
            out.push(
                match item {
                    SceneItem::Image(_) => DrawStep::Image(k),
                    SceneItem::Particle(_) => DrawStep::Particle(k),
                    SceneItem::Text(_) => DrawStep::Text(k),
                    SceneItem::Model(_) => DrawStep::Model(k),
                },
            );
        }
        assert(out@ =~= donors + item_steps(all, *tree, has_snapshot, k + 1));
        k += 1;
    }
    out
}

/// The position of the item that a step draws.
pub open spec fn drawn(step: DrawStep) -> Option<usize> {
    match step {
        DrawStep::Snapshot => None,
        DrawStep::Image(i) => Some(i),
        DrawStep::Particle(i) => Some(i),
        DrawStep::Text(i) => Some(i),
        DrawStep::Model(i) => Some(i),
    }
}

proof fn lemma_donor_steps(items: Seq<ItemModel>, k: int)
    requires
        0 <= k <= items.len() <= usize::MAX,
    ensures
        forall|s: int|
            0 <= s < donor_steps(items, k).len() ==> (drawn(
                #[trigger] donor_steps(items, k)[s],
            ) matches Some(i) && i < k && is_donor(items[i as int])),
    decreases k,
{
    if k > 0 {
        lemma_donor_steps(items, k - 1);
    }
}

proof fn lemma_item_steps(items: Seq<ItemModel>, tree: Tree, has_snapshot: bool, k: int)
    requires
        0 <= k <= items.len() <= usize::MAX,
    ensures
        forall|s: int|
            0 <= s < item_steps(items, tree, has_snapshot, k).len() ==> (match drawn(
                #[trigger] item_steps(items, tree, has_snapshot, k)[s],
            ) {
                Some(i) => i < k && !is_donor(items[i as int]) && is_shown(items[i as int], tree)
                    && (items[i as int].reads_scene() && has_snapshot ==> s > 0 && item_steps(
                    items,
                    tree,
                    has_snapshot,
                    k,
                )[s - 1] == DrawStep::Snapshot),
                None => s + 1 < item_steps(items, tree, has_snapshot, k).len(),
            }),
        item_steps(items, tree, has_snapshot, k).len() > 0 ==> drawn(
            item_steps(items, tree, has_snapshot, k).last(),
        ) is Some,
    decreases k,
{
    if k > 0 {
        lemma_item_steps(items, tree, has_snapshot, k - 1);
        let before = item_steps(items, tree, has_snapshot, k - 1);
        let now = item_steps(items, tree, has_snapshot, k);
        assert forall|s: int| 0 <= s < now.len() implies (match drawn(#[trigger] now[s]) {
            Some(i) => i < k && !is_donor(items[i as int]) && is_shown(items[i as int], tree) && (
            items[i as int].reads_scene() && has_snapshot ==> s > 0 && now[s - 1]
                == DrawStep::Snapshot),
            None => s + 1 < now.len(),
        }) by {
            if s < before.len() {
                assert(now[s] == before[s]);
                if s > 0 {
                    assert(now[s - 1] == before[s - 1]);
                }
            }
        }
    }
}

/// Nothing is drawn but what is shown and the layers that others draw from.
pub proof fn law_hidden_items_are_not_drawn(
    items: Seq<ItemModel>,
    tree: Tree,
    has_snapshot: bool,
    s: int,
)
    requires
        items.len() <= usize::MAX,
        0 <= s < frame_steps(items, tree, has_snapshot).len(),
    ensures
        match drawn(frame_steps(items, tree, has_snapshot)[s]) {
            Some(i) => i < items.len() && (is_donor(items[i as int]) || is_shown(
                items[i as int],
                tree,
            )),
            None => true,
        },
{
    lemma_donor_steps(items, items.len() as int);
    lemma_item_steps(items, tree, has_snapshot, items.len() as int);
    let donors = donor_steps(items, items.len() as int);
    if s >= donors.len() {
        let rest = item_steps(items, tree, has_snapshot, items.len() as int);
        assert(frame_steps(items, tree, has_snapshot)[s] == rest[s - donors.len()]);
    } else {
        assert(frame_steps(items, tree, has_snapshot)[s] == donors[s]);
    }
}

/// An item that samples the scene is drawn right behind a copy of it, where
/// the scene keeps one; and every copy is followed by a step that draws.
pub proof fn law_readers_follow_a_snapshot(
    items: Seq<ItemModel>,
    tree: Tree,
    has_snapshot: bool,
    s: int,
)
    requires
        items.len() <= usize::MAX,
        0 <= s < frame_steps(items, tree, has_snapshot).len(),
    ensures
        match drawn(frame_steps(items, tree, has_snapshot)[s]) {
            Some(i) => items[i as int].reads_scene() && has_snapshot ==> s > 0 && frame_steps(
                items,
                tree,
                has_snapshot,
            )[s - 1] == DrawStep::Snapshot,
            None => s + 1 < frame_steps(items, tree, has_snapshot).len(),
        },
{
    lemma_donor_steps(items, items.len() as int);
    lemma_item_steps(items, tree, has_snapshot, items.len() as int);
    let donors = donor_steps(items, items.len() as int);
    let all = frame_steps(items, tree, has_snapshot);
    if s >= donors.len() {
        let rest = item_steps(items, tree, has_snapshot, items.len() as int);
        assert(all[s] == rest[s - donors.len()]);
        if s > donors.len() {
            assert(all[s - 1] == rest[s - donors.len() - 1]);
        }
    } else {
        assert(all[s] == donors[s]);
    }
}

/// Whether an item needs the scene to be drawn anew from frame to frame.
pub open spec fn moves(item: ItemModel) -> bool {
    match item {
        ItemModel::Particle(_) => true,
        ItemModel::Model(m) => m.animated,
        _ => false,
    }
}

/// Whether a scene stays as it is until something is changed in it.
#[derive(Clone, Copy, Debug, PartialEq, Eq, Structural)]
pub enum RedrawHint {
    Unknown,
    Static,
}

/// What else may move in a scene.
#[derive(Clone, Copy, Debug)]
pub struct Motion {
    pub scripts: bool,
    pub audio: bool,
    pub videos: bool,
    pub atlases: bool,
    pub runtime_layers: bool,
    pub parallax: bool,
    pub disable_parallax: bool,
}

/// Whether a scene stays as it is: nothing in it may move.
pub fn redraw_hint(items: &Vec<SceneItem>, motion: &Motion) -> (r: RedrawHint)
    ensures
        r == (if motion.scripts || motion.audio || motion.videos || motion.atlases
            || motion.runtime_layers || (motion.parallax && !motion.disable_parallax) || exists|
            i: int,
        |
            0 <= i < items@.len() && moves(#[trigger] items@[i]@) {
            RedrawHint::Unknown
        } else {
            RedrawHint::Static
        }),
{
    if motion.scripts || motion.audio || motion.videos || motion.atlases || motion.runtime_layers
        || (motion.parallax && !motion.disable_parallax) {
        return RedrawHint::Unknown;
    }
    let mut i: usize = 0;
    while i < items.len()
        invariant
            i <= items@.len(),
            forall|j: int| 0 <= j < i ==> !moves(#[trigger] items@[j]@),
        decreases items@.len() - i,
    {
        let m = match &items[i] {
            SceneItem::Particle(_) => true,
            SceneItem::Model(m) => m.has_animation(),
            _ => false,
        };
        if m {
            assert(moves(items@[i as int]@));
            return RedrawHint::Unknown;
        }
        i += 1;
    }
    RedrawHint::Static
}

/// Whether a scene keeps a copy of itself: its bloom or an item samples it.
pub fn needs_snapshot(items: &Vec<SceneItem>, bloom: bool) -> (r: bool)
    ensures
        r == (bloom || exists|i: int| 0 <= i < items@.len() && (#[trigger] items@[i]@).reads_scene()),
{
    if bloom {
        return true;
    }
    let mut i: usize = 0;
    while i < items.len()
        invariant
            i <= items@.len(),
            forall|j: int| 0 <= j < i ==> !(#[trigger] items@[j]@).reads_scene(),
        decreases items@.len() - i,
    {
        if reads_scene(&items[i]) {
            return true;
        }
        i += 1;
    }
    false
}

/// Whether a scene keeps a depth buffer: it holds a model.
pub fn needs_depth(items: &Vec<SceneItem>) -> (r: bool)
    ensures
        r == exists|i: int| 0 <= i < items@.len() && #[trigger] items@[i]@ is Model,
{
    let mut i: usize = 0;
    while i < items.len()
        invariant
            i <= items@.len(),
            forall|j: int| 0 <= j < i ==> !(#[trigger] items@[j]@ is Model),
        decreases items@.len() - i,
    {
        if let SceneItem::Model(_) = &items[i] {
            assert(items@[i as int]@ is Model);
            return true;
        }
        i += 1;
    }
    false
}

/// The number of passes that the image layers among the first `k` items have.
pub open spec fn pass_count(items: Seq<ItemModel>, k: int) -> nat
    decreases k,
{
    if k <= 0 {
        0
    } else {
        pass_count(items, k - 1) + match items[k - 1] {
            ItemModel::Image(o) => o.passes.len(),
            _ => 0,
        }
    }
}

proof fn lemma_pass_count_grows(items: Seq<ItemModel>, i: int, k: int)
    requires
        i <= k,
    ensures
        pass_count(items, i) <= pass_count(items, k),
    decreases k - i,
{
    if i < k {
        lemma_pass_count_grows(items, i, k - 1);
    }
}

pub fn debug_pass_count(items: &Vec<SceneItem>) -> (n: usize)
    requires
        pass_count(views(items@), items@.len() as int) <= usize::MAX,
    ensures
        n == pass_count(views(items@), items@.len() as int),
{
    let ghost all = views(items@);
    let mut n: usize = 0;
    let mut i: usize = 0;
    while i < items.len()
        invariant
            i <= items@.len(),
            all == views(items@),
            n == pass_count(all, i as int),
            pass_count(all, items@.len() as int) <= usize::MAX,
        decreases items@.len() - i,
    {
        assert(all[i as int] == items@[i as int]@);
        proof {
            lemma_pass_count_grows(all, i + 1, items@.len() as int);
        }
        if let SceneItem::Image(o) = &items[i] {
            n += o.passes.len();
        }
        i += 1;
    }
    n
}

/// How many of the first `k` items are particle systems.
pub open spec fn particle_count(items: Seq<ItemModel>, k: int) -> nat
    decreases k,
{
    if k <= 0 {
        0
    } else {
        particle_count(items, k - 1) + if items[k - 1] is Particle {
            1nat
        } else {
            0nat
        }
    }
}

pub fn debug_particle_count(items: &Vec<SceneItem>) -> (n: usize)
    ensures
        n == particle_count(views(items@), items@.len() as int),
{
    let ghost all = views(items@);
    let mut n: usize = 0;
    let mut i: usize = 0;
    while i < items.len()
        invariant
            i <= items@.len(),
            n <= i,
            all == views(items@),
            n == particle_count(all, i as int),
        decreases items@.len() - i,
    {
        assert(all[i as int] == items@[i as int]@);
        if let SceneItem::Particle(_) = &items[i] {
            n += 1;
        }
        i += 1;
    }
    n
}

/// How many of the first `k` items are texts.
pub open spec fn text_count(items: Seq<ItemModel>, k: int) -> nat
    decreases k,
{
    if k <= 0 {
        0
    } else {
        text_count(items, k - 1) + if items[k - 1] is Text {
            1nat
        } else {
            0nat
        }
    }
}

pub fn debug_text_count(items: &Vec<SceneItem>) -> (n: usize)
    ensures
        n == text_count(views(items@), items@.len() as int),
{
    let ghost all = views(items@);
    let mut n: usize = 0;
    let mut i: usize = 0;
    while i < items.len()
        invariant
            i <= items@.len(),
            n <= i,
            all == views(items@),
            n == text_count(all, i as int),
        decreases items@.len() - i,
    {
        assert(all[i as int] == items@[i as int]@);
        if let SceneItem::Text(_) = &items[i] {
            n += 1;
        }
        i += 1;
    }
    n
}

/// Whether a pass samples a texture.
pub open spec fn pass_uses(p: LivePassModel, name: Seq<char>) -> bool {
    exists|t: int| 0 <= t < p.material.textures.len() && #[trigger] p.material.textures[t] == Some(name)
}

/// Whether an item is a layer with a pass that samples a texture.
pub open spec fn item_uses(item: ItemModel, name: Seq<char>) -> bool {
    item matches ItemModel::Image(o) && exists|p: int|
        0 <= p < o.passes.len() && pass_uses(#[trigger] o.passes[p], name)
}

/// The positions of those of the first `k` items that use a texture.
pub open spec fn users_upto(items: Seq<ItemModel>, name: Seq<char>, k: int) -> Seq<usize>
    decreases k,
{
    if k <= 0 {
        Seq::empty()
    } else if item_uses(items[k - 1], name) {
        users_upto(items, name, k - 1).push((k - 1) as usize)
    } else {
        users_upto(items, name, k - 1)
    }
}

fn pass_has(p: &LivePass, name: &str) -> (r: bool)
    ensures
        r == pass_uses(p@, name@),
{
    let slots = &p.material_pass.textures;
    let mut t: usize = 0;
    while t < slots.len()
        invariant
            t <= slots@.len(),
            p@.material.textures == texts(slots@),
            forall|j: int| 0 <= j < t ==> #[trigger] p@.material.textures[j] != Some(name@),
        decreases slots@.len() - t,
    {
        assert(p@.material.textures[t as int] == opt_view(slots@[t as int]));
        if let Some(n) = &slots[t] {
            if same_text(n.as_str(), name) {
                return true;
            }
        }
        t += 1;
    }
    false
}

fn item_has(item: &SceneItem, name: &str) -> (r: bool)
    ensures
        r == item_uses(item@, name@),
{
    match item {
        SceneItem::Image(o) => {
            let mut p: usize = 0;
            while p < o.passes.len()
                invariant
                    p <= o.passes@.len(),
                    item@ == ItemModel::Image(o@),
                    forall|j: int| 0 <= j < p ==> !pass_uses(#[trigger] o.passes@[j]@, name@),
                decreases o.passes@.len() - p,
            {
                if pass_has(&o.passes[p], name) {
                    assert(o@.passes[p as int] == o.passes@[p as int]@);
                    return true;
                }
                p += 1;
            }
            assert forall|j: int| 0 <= j < o@.passes.len() implies !pass_uses(
                #[trigger] o@.passes[j],
                name@,
            ) by {
                assert(o@.passes[j] == o.passes@[j]@);
            }
            false
        },
        _ => false,
    }
}

/// The positions of the layers that show a video.
pub fn video_users(items: &Vec<SceneItem>, name: &str) -> (r: Vec<usize>)
    ensures
        r@ == users_upto(views(items@), name@, items@.len() as int),
        forall|i: int| 0 <= i < r@.len() ==> (#[trigger] r@[i]) < items@.len(),
{
    let ghost all = views(items@);
    let mut out: Vec<usize> = Vec::new();
    let mut i: usize = 0;
    while i < items.len()
        invariant
            i <= items@.len(),
            all == views(items@),
            out@ == users_upto(all, name@, i as int),
            forall|j: int| 0 <= j < out@.len() ==> (#[trigger] out@[j]) < i,
        decreases items@.len() - i,
    {
        assert(all[i as int] == items@[i as int]@);
        if item_has(&items[i], name) {
            out.push(i);
        }
        i += 1;
    }
    out
}

/// Whether a video is on show: nothing is known of its users, or one of them
/// is visible.
pub open spec fn on_show(items: Seq<ItemModel>, users: Seq<usize>) -> bool {
    users.len() == 0 || exists|u: int|
        0 <= u < users.len() && (items[(#[trigger] users[u]) as int] is Image
            ==> items[users[u] as int].visible())
}

/// Whether a video runs, as its player was last told, and as a script wants it.
#[derive(Clone, Copy, Debug, PartialEq, Eq, Structural)]
pub struct VideoState {
    pub paused: bool,
    pub script_paused: bool,
}

/// What is done with a video in a frame.
#[derive(Clone, Copy, Debug, PartialEq, Eq, Structural)]
pub struct VideoTurn {
    /// What the player is told, if anything: whether to pause.
    pub set_pause: Option<bool>,
    /// Whether its newest frame is taken.
    pub takes_frame: bool,
}

pub fn displayed(items: &Vec<SceneItem>, users: &Vec<usize>) -> (r: bool)
    requires
        forall|i: int| 0 <= i < users@.len() ==> (#[trigger] users@[i]) < items@.len(),
    ensures
        r == on_show(views(items@), users@),
{
    if users.len() == 0 {
        return true;
    }
    let ghost all = views(items@);
    let mut u: usize = 0;
    while u < users.len()
        invariant
            u <= users@.len(),
            all == views(items@),
            forall|i: int| 0 <= i < users@.len() ==> (#[trigger] users@[i]) < items@.len(),
            forall|j: int|
                0 <= j < u ==> all[(#[trigger] users@[j]) as int] is Image
                    && !all[users@[j] as int].visible(),
        decreases users@.len() - u,
    {
        let item = &items[users[u]];
        assert(all[users@[u as int] as int] == item@);
        let seen = match item {
            SceneItem::Image(o) => o.visible,
            _ => true,
        };
        if seen {
            return true;
        }
        u += 1;
    }
    false
}

impl VideoState {
    /// The video's turn in a frame: it runs while it is on show and no script
    /// holds it, and its player is told where that changes.
    pub fn turn(&mut self, displayed: bool) -> (r: VideoTurn)
        ensures
            final(self).script_paused == old(self).script_paused,
            final(self).paused == !(displayed && !old(self).script_paused),
            r.takes_frame == !final(self).paused,
            r.set_pause == (if final(self).paused == old(self).paused {
                None
            } else {
                Some(final(self).paused)
            }),
    {
        let play = displayed && !self.script_paused;
        if !play {
            if !self.paused {
                self.paused = true;
                return VideoTurn { set_pause: Some(true), takes_frame: false };
            }
            return VideoTurn { set_pause: None, takes_frame: false };
        }
        if self.paused {
            self.paused = false;
            return VideoTurn { set_pause: Some(false), takes_frame: true };
        }
        VideoTurn { set_pause: None, takes_frame: true }
    }
}

/// Whether a page of an atlas is sent to the graphics card: it is another one
/// than the last, it exists, and it has the size of the texture. The page that
/// is there afterwards is the second result.
pub fn page_turn(
    wanted: usize,
    uploaded: usize,
    pages: &Vec<(u32, u32)>,
    texture: (u32, u32),
) -> (r: (bool, usize))
    ensures
        r.0 == (wanted != uploaded && wanted < pages@.len() && pages@[wanted as int] == texture),
        r.1 == (if r.0 {
            wanted
        } else {
            uploaded
        }),
{
    if wanted == uploaded || wanted >= pages.len() {
        return (false, uploaded);
    }
    let page = pages[wanted];
    if page.0 != texture.0 || page.1 != texture.1 {
        return (false, uploaded);
    }
    (true, wanted)
}

/// The last place of an id in a list of layers; the greatest number there is
/// if it has none.
pub open spec fn layer_key(order: Seq<i64>, id: i64, k: int) -> i64
    decreases k,
{
    if k <= 0 {
        i64::MAX
    } else if order[k - 1] == id {
        (k - 1) as i64
    } else {
        layer_key(order, id, k - 1)
    }
}

/// The keys by which items are put into the order of a list of layers.
pub open spec fn layer_keys(items: Seq<ItemModel>, order: Seq<i64>) -> Seq<i64> {
    Seq::new(items.len(), |i: int| layer_key(order, items[i].id(), order.len() as int))
}

/// The items in the order of a list of layers. What is not listed comes last,
/// and items of one layer keep their order.
pub open spec fn in_layer_order(items: Seq<ItemModel>, order: Seq<i64>) -> Seq<ItemModel> {
    picked(items, sorted_positions(layer_keys(items, order), items.len() as int))
}

/// The members of a list at the given positions.
pub open spec fn picked<T>(items: Seq<T>, positions: Seq<int>) -> Seq<T> {
    Seq::new(positions.len(), |i: int| items[positions[i]])
}

/// The last place of an id in a list of layers.
pub fn layer_place(order: &Vec<i64>, id: i64) -> (r: i64)
    requires
        order@.len() <= i64::MAX,
    ensures
        r == layer_key(order@, id, order@.len() as int),
{
    let mut k: usize = order.len();
    while k > 0
        invariant
            k <= order@.len() <= i64::MAX,
            layer_key(order@, id, order@.len() as int) == layer_key(order@, id, k as int),
        decreases k,
    {
        if order[k - 1] == id {
            return (k - 1) as i64;
        }
        k -= 1;
    }
    i64::MAX
}

/// Puts the items into the order of a list of layers.
pub fn sort_items(items: &mut Vec<SceneItem>, order: &Vec<i64>)
    requires
        order@.len() <= i64::MAX,
    ensures
        views(final(items)@) == in_layer_order(views(old(items)@), order@),
        final(items)@.len() == old(items)@.len(),
{
    let ghost start = views(items@);
    let ghost all_keys = layer_keys(start, order@);
    let len: usize = items.len();
    let mut keys: Vec<i64> = Vec::new();
    let mut n: usize = 0;
    proof {
        assert(picked(start, sorted_positions(all_keys, 0)) =~= Seq::empty());
        assert(keys@ =~= picked(all_keys, sorted_positions(all_keys, 0)));
    }
    while n < len
        invariant
            n <= len,
            len == items@.len(),
            start.len() == len,
            order@.len() <= i64::MAX,
            all_keys == layer_keys(start, order@),
            keys@.len() == n,
            sorted_positions(all_keys, n as int).len() == n,
            keys@ == picked(all_keys, sorted_positions(all_keys, n as int)),
            views(items@).take(n as int) =~= picked(start, sorted_positions(all_keys, n as int)),
            forall|j: int| n <= j < len ==> (#[trigger] items@[j])@ == start[j],
        decreases len - n,
    {
        let ghost sorted = sorted_positions(all_keys, n as int);
        let ghost before = items@;
        assert(items@[n as int]@ == start[n as int]);
        let key = layer_place(order, item_id(&items[n]));
        assert(key == all_keys[n as int]);
        let mut p: usize = 0;
        while p < keys.len() && keys[p] <= key
            invariant
                p <= keys@.len(),
                keys@.len() == n,
                sorted.len() == n,
                keys@ == picked(all_keys, sorted),
                place(sorted, all_keys, key, 0) == place(sorted, all_keys, key, p as int),
            decreases keys@.len() - p,
        {
            assert(keys@[p as int] == all_keys[sorted[p as int]]);
            p += 1;
        }
        proof {
            if p < keys@.len() {
                assert(keys@[p as int] == all_keys[sorted[p as int]]);
            }
            assert(place(sorted, all_keys, key, 0) == p);
        }
        let item = items.remove(n);
        items.insert(p, item);
        keys.insert(p, key);
        proof {
            let now = sorted_positions(all_keys, n + 1);
            assert(now == sorted.insert(p as int, n as int));
            assert(keys@ =~= picked(all_keys, now));
            assert forall|j: int| 0 <= j < n + 1 implies #[trigger] views(items@)[j]
                == start[now[j]] by {
                if j < p {
                    assert(items@[j] == before[j]);
                    assert(views(before).take(n as int)[j] == before[j]@);
                    assert(now[j] == sorted[j]);
                } else if j > p {
                    assert(items@[j] == before[j - 1]);
                    assert(views(before).take(n as int)[j - 1] == before[j - 1]@);
                    assert(now[j] == sorted[j - 1]);
                } else {
                    assert(items@[j] == before[n as int]);
                }
            }
            assert(views(items@).take(n + 1) =~= picked(start, now));
            assert forall|j: int| n + 1 <= j < len implies (#[trigger] items@[j])@ == start[j] by {
                assert(items@[j] == before[j]);
            }
        }
        n += 1;
    }
    assert(views(items@).take(len as int) =~= views(items@));
}

} // verus!
