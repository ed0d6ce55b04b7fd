//! Layers that scripts make while a scene is shown.
use vstd::prelude::*;

use crate::copy::{copy_opt, Duplicate};
use crate::frame::{layer_key, layer_place, Tree};
use crate::script::{as_rgb, as_vec3, colour_of, vector_of, ScriptValue, Scripted};
use crate::scripting::{given, PropTarget, PropUpdate, UpdateModel};
use crate::strings::{after_last, last_piece, lemma_views_push, opt_view, same_text, views};
use crate::value::{Number, Scalar, Vec3, ONE_BITS, ZERO_BITS};
use crate::visibility::{ancestors_visible, parent_of};

verus! {

broadcast use vstd::std_specs::hash::group_hash_axioms;

/// How opaque a layer is: the bits of a single, a whole number, or the bits of
/// a double that is rounded to a single.
#[derive(Clone, Copy, Debug, PartialEq, Eq, Structural)]
pub enum Level {
    Single(u32),
    Int(i64),
    Real(u64),
}

/// The level that a script's value stands for, if it is a number.
pub open spec fn level_of(v: Scripted) -> Option<Level> {
    match v {
        Scripted::Float(f) => Some(Level::Real(f)),
        Scripted::Int(i) => Some(Level::Int(i)),
        Scripted::Bool(b) => Some(
            Level::Single(
                if b {
                    ONE_BITS
                } else {
                    ZERO_BITS
                },
            ),
        ),
        _ => None,
    }
}

impl Level {
    /// Whether the level is above zero. Half the least positive single and
    /// what is below it are rounded to zero.
    pub open spec fn above_zero(self) -> bool {
        match self {
            Level::Single(b) => 0 < b <= 0x7f80_0000,
            Level::Int(i) => i > 0,
            Level::Real(b) => 0x3690_0000_0000_0000 < b <= 0x7ff0_0000_0000_0000,
        }
    }

    /// Whether the level is not a number.
    pub open spec fn undefined(self) -> bool {
        match self {
            Level::Single(b) => b % 0x8000_0000 > 0x7f80_0000,
            Level::Int(i) => false,
            Level::Real(b) => b % 0x8000_0000_0000_0000 > 0x7ff0_0000_0000_0000,
        }
    }

    pub fn is_above_zero(&self) -> (r: bool)
        ensures
            r == self.above_zero(),
    {
        match self {
            Level::Single(b) => 0 < *b && *b <= 0x7f80_0000,
            Level::Int(i) => *i > 0,
            Level::Real(b) => 0x3690_0000_0000_0000 < *b && *b <= 0x7ff0_0000_0000_0000,
        }
    }

    /// Whether the level is zero or below; one that is not a number is not.
    pub fn is_zero_or_below(&self) -> (r: bool)
        ensures
            r == (!self.above_zero() && !self.undefined()),
    {
        let undefined = match self {
            Level::Single(b) => *b % 0x8000_0000 > 0x7f80_0000,
            Level::Int(i) => false,
            Level::Real(b) => *b % 0x8000_0000_0000_0000 > 0x7ff0_0000_0000_0000,
        };
        !self.is_above_zero() && !undefined
    }
}

fn level(v: &ScriptValue) -> (r: Option<Level>)
    ensures
        r == level_of(v@),
{
    match v {
        ScriptValue::Float(f) => Some(Level::Real(*f)),
        ScriptValue::Int(i) => Some(Level::Int(*i)),
        ScriptValue::Bool(b) => Some(
            Level::Single(
                if *b {
                    ONE_BITS
                } else {
                    ZERO_BITS
                },
            ),
        ),
        _ => None,
    }
}

/// What a layer made from a model file looks like.
#[derive(Debug)]
pub struct RuntimeTemplate {
    pub path: String,
    pub texture: Option<String>,
    pub tint: Vec3,
    pub alpha: Scalar,
}

/// What a [`RuntimeTemplate`] holds.
pub struct TemplateModel {
    pub path: Seq<char>,
    pub texture: Option<Seq<char>>,
    pub tint: (Number, Number, Number),
    pub alpha: Number,
}

impl View for RuntimeTemplate {
    type V = TemplateModel;

    open spec fn view(&self) -> TemplateModel {
        TemplateModel {
            path: self.path@,
            texture: opt_view(self.texture),
            tint: self.tint@,
            alpha: self.alpha@,
        }
    }
}

/// A layer that a script made. Its angles are in degrees.
#[derive(Debug)]
pub struct RuntimeLayer {
    pub id: i64,
    pub origin: Vec3,
    pub scale: Vec3,
    pub angles: Vec3,
    pub color: Vec3,
    pub alpha: Level,
    /// The texture it shows, which gives it its size; none for plain white.
    pub texture: Option<String>,
    pub tint: Vec3,
    pub tint_alpha: Scalar,
    pub visible: bool,
    pub order: i64,
}

/// What a [`RuntimeLayer`] holds.
pub struct RuntimeModel {
    pub id: i64,
    pub origin: (Number, Number, Number),
    pub scale: (Number, Number, Number),
    pub angles: (Number, Number, Number),
    pub color: (Number, Number, Number),
    pub alpha: Level,
    pub texture: Option<Seq<char>>,
    pub tint: (Number, Number, Number),
    pub tint_alpha: Number,
    pub visible: bool,
    pub order: i64,
}

impl View for RuntimeLayer {
    type V = RuntimeModel;

    open spec fn view(&self) -> RuntimeModel {
        RuntimeModel {
            id: self.id,
            origin: self.origin@,
            scale: self.scale@,
            angles: self.angles@,
            color: self.color@,
            alpha: self.alpha,
            texture: opt_view(self.texture),
            tint: self.tint@,
            tint_alpha: self.tint_alpha@,
            visible: self.visible,
            order: self.order,
        }
    }
}

/// Three times the same single.
pub open spec fn uniform(bits: u32) -> (Number, Number, Number) {
    (Number::Single(bits), Number::Single(bits), Number::Single(bits))
}

fn uniform_vec(bits: u32) -> (r: Vec3)
    ensures
        r@ == uniform(bits),
{
    Vec3 { x: Scalar::Single(bits), y: Scalar::Single(bits), z: Scalar::Single(bits) }
}

/// A fresh layer.
pub open spec fn fresh_layer(id: i64, order: i64, template: Option<TemplateModel>) -> RuntimeModel {
    RuntimeModel {
        id,
        origin: uniform(ZERO_BITS),
        scale: uniform(ONE_BITS),
        angles: uniform(ZERO_BITS),
        color: uniform(ONE_BITS),
        alpha: Level::Single(ONE_BITS),
        texture: match template {
            Some(t) => t.texture,
            None => None,
        },
        tint: match template {
            Some(t) => t.tint,
            None => uniform(ONE_BITS),
        },
        tint_alpha: match template {
            Some(t) => t.alpha,
            None => Number::Single(ONE_BITS),
        },
        visible: true,
        order,
    }
}

/// The position of the template with the path, at or after `from`.
pub open spec fn template_at(templates: Seq<TemplateModel>, path: Seq<char>, from: int) -> Option<int>
    decreases templates.len() - from,
{
    if from < 0 || from >= templates.len() {
        None
    } else if templates[from].path == path {
        Some(from)
    } else {
        template_at(templates, path, from + 1)
    }
}

/// The position of the first template whose file has the name, at or after `from`.
pub open spec fn template_named(
    templates: Seq<TemplateModel>,
    name: Seq<char>,
    from: int,
) -> Option<int>
    decreases templates.len() - from,
{
    if from < 0 || from >= templates.len() {
        None
    } else if last_piece(templates[from].path, '/') == name {
        Some(from)
    } else {
        template_named(templates, name, from + 1)
    }
}

/// The template for a path: the one that has it, or else the first whose file
/// has the same name.
pub open spec fn template_for(templates: Seq<TemplateModel>, path: Seq<char>) -> Option<
    TemplateModel,
> {
    match template_at(templates, path, 0) {
        Some(i) => Some(templates[i]),
        None => match template_named(templates, last_piece(path, '/'), 0) {
            Some(i) => Some(templates[i]),
            None => None,
        },
    }
}

fn find_template<'a>(templates: &'a Vec<RuntimeTemplate>, path: &str) -> (r: Option<
    &'a RuntimeTemplate,
>)
    ensures
        match r {
            Some(t) => template_for(views(templates@), path@) == Some(t@),
            None => template_for(views(templates@), path@) is None,
        },
{
    let ghost all = views(templates@);
    let mut i: usize = 0;
    while i < templates.len()
        invariant
            i <= templates@.len(),
            all == views(templates@),
            template_at(all, path@, 0) == template_at(all, path@, i as int),
        decreases templates@.len() - i,
    {
        assert(all[i as int] == templates@[i as int]@);
        if same_text(templates[i].path.as_str(), path) {
            return Some(&templates[i]);
        }
        i += 1;
    }
    let name = after_last(path, '/');
    let mut k: usize = 0;
    while k < templates.len()
        invariant
            k <= templates@.len(),
            all == views(templates@),
            name@ == last_piece(path@, '/'),
            template_at(all, path@, 0) is None,
            template_named(all, name@, 0) == template_named(all, name@, k as int),
        decreases templates@.len() - k,
    {
        assert(all[k as int] == templates@[k as int]@);
        let tail = after_last(templates[k].path.as_str(), '/');
        if same_text(tail.as_str(), name.as_str()) {
            return Some(&templates[k]);
        }
        k += 1;
    }
    None
}

/// The position of the layer with an id, at or after `from`.
pub open spec fn runtime_at(layers: Seq<RuntimeModel>, id: i64, from: int) -> Option<int>
    decreases layers.len() - from,
{
    if from < 0 || from >= layers.len() {
        None
    } else if layers[from].id == id {
        Some(from)
    } else {
        runtime_at(layers, id, from + 1)
    }
}

/// No two layers have one id.
pub open spec fn distinct_ids(layers: Seq<RuntimeModel>) -> bool {
    forall|i: int, j: int|
        0 <= i < j < layers.len() ==> (#[trigger] layers[i]).id != (#[trigger] layers[j]).id
}

/// What looking for a layer finds.
pub proof fn lemma_runtime_at(layers: Seq<RuntimeModel>, id: i64, from: int)
    requires
        0 <= from,
    ensures
        match runtime_at(layers, id, from) {
            Some(i) => from <= i < layers.len() && layers[i].id == id,
            None => forall|j: int| from <= j < layers.len() ==> (#[trigger] layers[j]).id != id,
        },
    decreases layers.len() - from,
{
    if from < layers.len() && layers[from].id != id {
        lemma_runtime_at(layers, id, from + 1);
    }
}

/// The layers of a scene that scripts made.
#[derive(Debug)]
pub struct RuntimeLayers {
    pub layers: Vec<RuntimeLayer>,
    /// The order that the next layer gets.
    pub next: i64,
}

/// What [`RuntimeLayers`] hold.
pub struct RuntimeState {
    pub layers: Seq<RuntimeModel>,
    pub next: i64,
}

impl View for RuntimeLayers {
    type V = RuntimeState;

    open spec fn view(&self) -> RuntimeState {
        RuntimeState { layers: views(self.layers@), next: self.next }
    }
}

/// The layers after a script made one. An id that is in use keeps its layer.
pub open spec fn after_creation(
    s: RuntimeState,
    id: i64,
    path: Seq<char>,
    templates: Seq<TemplateModel>,
) -> RuntimeState {
    RuntimeState {
        layers: if runtime_at(s.layers, id, 0) is Some {
            s.layers
        } else {
            s.layers.push(fresh_layer(id, s.next, template_for(templates, path)))
        },
        next: (s.next + 1) as i64,
    }
}

/// The layers after a script made several.
pub open spec fn after_creations(
    s: RuntimeState,
    created: Seq<(i64, Seq<char>)>,
    templates: Seq<TemplateModel>,
    k: int,
) -> RuntimeState
    decreases k,
{
    if k <= 0 {
        s
    } else {
        after_creation(
            after_creations(s, created, templates, k - 1),
            created[k - 1].0,
            created[k - 1].1,
            templates,
        )
    }
}

/// The layers after a script took one away.
pub open spec fn after_removal(s: RuntimeState, id: i64) -> RuntimeState {
    match runtime_at(s.layers, id, 0) {
        Some(i) => RuntimeState { layers: s.layers.remove(i), ..s },
        None => s,
    }
}

/// A layer after an update.
pub open spec fn updated_layer(l: RuntimeModel, u: UpdateModel) -> RuntimeModel {
    if l.id != u.object_id {
        l
    } else {
        match u.target {
            PropTarget::Origin => RuntimeModel { origin: given(l.origin, vector_of(u.value)), ..l },
            PropTarget::Scale => RuntimeModel { scale: given(l.scale, vector_of(u.value)), ..l },
            PropTarget::Angles => RuntimeModel { angles: given(l.angles, vector_of(u.value)), ..l },
            PropTarget::Color => RuntimeModel { color: given(l.color, colour_of(u.value)), ..l },
            PropTarget::Alpha => RuntimeModel { alpha: given(l.alpha, level_of(u.value)), ..l },
            PropTarget::Visible => match u.value {
                Scripted::Bool(v) => RuntimeModel { visible: v, ..l },
                _ => l,
            },
            _ => l,
        }
    }
}

/// All layers after one update.
pub open spec fn layers_updated(layers: Seq<RuntimeModel>, u: UpdateModel) -> Seq<RuntimeModel> {
    Seq::new(layers.len(), |i: int| updated_layer(layers[i], u))
}

/// All layers after the first `k` updates.
pub open spec fn layers_after(
    layers: Seq<RuntimeModel>,
    updates: Seq<UpdateModel>,
    k: int,
) -> Seq<RuntimeModel>
    decreases k,
{
    if k <= 0 {
        layers
    } else {
        layers_updated(layers_after(layers, updates, k - 1), updates[k - 1])
    }
}

/// A layer with the place that a list of layers gives it, if it does.
pub open spec fn placed_layer(l: RuntimeModel, order: Seq<i64>) -> RuntimeModel {
    if order.contains(l.id) {
        RuntimeModel { order: layer_key(order, l.id, order.len() as int), ..l }
    } else {
        l
    }
}

/// The layers after a list of layers put them in order.
pub open spec fn after_sorting(s: RuntimeState, order: Seq<i64>) -> RuntimeState {
    RuntimeState {
        layers: Seq::new(s.layers.len(), |i: int| placed_layer(s.layers[i], order)),
        next: order.len() as i64,
    }
}

impl RuntimeLayer {
    fn update(&mut self, u: &PropUpdate)
        ensures
            final(self)@ == updated_layer(old(self)@, u@),
    {
        if self.id != u.object_id {
            return;
        }
        match u.target {
            PropTarget::Origin => {
                if let Some(v) = as_vec3(&u.value) {
                    self.origin = v;
                }
            },
            PropTarget::Scale => {
                if let Some(v) = as_vec3(&u.value) {
                    self.scale = v;
                }
            },
            PropTarget::Angles => {
                if let Some(v) = as_vec3(&u.value) {
                    self.angles = v;
                }
            },
            PropTarget::Color => {
                if let Some(c) = as_rgb(&u.value) {
                    self.color = c;
                }
            },
            PropTarget::Alpha => {
                if let Some(a) = level(&u.value) {
                    self.alpha = a;
                }
            },
            PropTarget::Visible => {
                if let ScriptValue::Bool(v) = &u.value {
                    self.visible = *v;
                }
            },
            _ => {},
        }
    }
}

impl Default for RuntimeLayer {
    fn default() -> (r: Self)
        ensures
            r@ == fresh_layer(0, 0, None),
    {
        RuntimeLayer {
            id: 0,
            origin: uniform_vec(ZERO_BITS),
            scale: uniform_vec(ONE_BITS),
            angles: uniform_vec(ZERO_BITS),
            color: uniform_vec(ONE_BITS),
            alpha: Level::Single(ONE_BITS),
            texture: None,
            tint: uniform_vec(ONE_BITS),
            tint_alpha: Scalar::Single(ONE_BITS),
            visible: true,
            order: 0,
        }
    }
}

impl RuntimeLayers {
    pub fn new() -> (r: Self)
        ensures
            r@.layers == Seq::<RuntimeModel>::empty(),
            r@.next == 0,
    {
        let r = RuntimeLayers { layers: Vec::new(), next: 0 };
        assert(r@.layers =~= Seq::empty());
        r
    }

    pub fn is_empty(&self) -> (r: bool)
        ensures
            r == (self@.layers.len() == 0),
    {
        self.layers.len() == 0
    }

    fn find(&self, id: i64) -> (r: Option<usize>)
        ensures
            match r {
                Some(i) => runtime_at(self@.layers, id, 0) == Some(i as int) && i < self.layers@.len(),
                None => runtime_at(self@.layers, id, 0) is None,
            },
    {
        let ghost all = self@.layers;
        let mut i: usize = 0;
        while i < self.layers.len()
            invariant
                i <= self.layers@.len(),
                all == views(self.layers@),
                runtime_at(all, id, 0) == runtime_at(all, id, i as int),
            decreases self.layers@.len() - i,
        {
            assert(all[i as int] == self.layers@[i as int]@);
            if self.layers[i].id == id {
                return Some(i);
            }
            i += 1;
        }
        None
    }

    /// Makes a layer from a model file.
    pub fn create(&mut self, id: i64, path: &str, templates: &Vec<RuntimeTemplate>)
        requires
            old(self)@.next < i64::MAX,
        ensures
            final(self)@ == after_creation(old(self)@, id, path@, views(templates@)),
            distinct_ids(old(self)@.layers) ==> distinct_ids(final(self)@.layers),
    {
        let ghost start = self@;
        proof {
            lemma_runtime_at(start.layers, id, 0);
        }
        let order = self.next;
        if self.find(id).is_none() {
            let (texture, tint, tint_alpha) = match find_template(templates, path) {
                Some(t) => (copy_opt(&t.texture), t.tint.duplicate(), t.alpha.duplicate()),
                None => (None, uniform_vec(ONE_BITS), Scalar::Single(ONE_BITS)),
            };
            let l = RuntimeLayer {
                id,
                origin: uniform_vec(ZERO_BITS),
                scale: uniform_vec(ONE_BITS),
                angles: uniform_vec(ZERO_BITS),
                color: uniform_vec(ONE_BITS),
                alpha: Level::Single(ONE_BITS),
                texture,
                tint,
                tint_alpha,
                visible: true,
                order,
            };
            proof {
                lemma_views_push(self.layers@, l);
            }
            self.layers.push(l);
        }
        self.next = order + 1;
    }

    /// Makes the layers that scripts asked for.
    pub fn create_all(&mut self, created: &Vec<(i64, String)>, templates: &Vec<RuntimeTemplate>)
        requires
            old(self)@.next + created@.len() <= i64::MAX,
        ensures
            final(self)@ == after_creations(
                old(self)@,
                views(created@),
                views(templates@),
                created@.len() as int,
            ),
            distinct_ids(old(self)@.layers) ==> distinct_ids(final(self)@.layers),
    {
        let ghost start = self@;
        let ghost asked = views(created@);
        let mut k: usize = 0;
        while k < created.len()
            invariant
                k <= created@.len(),
                asked == views(created@),
                self@.next == start.next + k,
                start.next + created@.len() <= i64::MAX,
                self@ == after_creations(start, asked, views(templates@), k as int),
                distinct_ids(start.layers) ==> distinct_ids(self@.layers),
            decreases created@.len() - k,
        {
            assert(asked[k as int] == (created@[k as int].0, created@[k as int].1@));
            self.create(created[k].0, created[k].1.as_str(), templates);
            k += 1;
        }
    }

    /// Takes a layer away. Returns whether it was there.
    pub fn remove(&mut self, id: i64) -> (r: bool)
        ensures
            final(self)@ == after_removal(old(self)@, id),
            r == (runtime_at(old(self)@.layers, id, 0) is Some),
            distinct_ids(old(self)@.layers) ==> distinct_ids(final(self)@.layers),
    {
        let ghost start = self@;
        match self.find(id) {
            Some(i) => {
                let gone = self.layers.remove(i);
                assert(self@.layers =~= start.layers.remove(i as int));
                true
            },
            None => false,
        }
    }

    /// Applies the updates in turn.
    pub fn apply_runtime_updates(&mut self, updates: &Vec<PropUpdate>)
        ensures
            final(self)@ == (RuntimeState {
                layers: layers_after(
                    old(self)@.layers,
                    views(updates@),
                    updates@.len() as int,
                ),
                next: old(self)@.next,
            }),
            distinct_ids(old(self)@.layers) ==> distinct_ids(final(self)@.layers),
    {
        let ghost start = self@;
        let ghost all = views(updates@);
        let mut k: usize = 0;
        while k < updates.len()
            invariant
                k <= updates@.len(),
                all == views(updates@),
                self@ == (RuntimeState { layers: layers_after(start.layers, all, k as int), ..start }),
                distinct_ids(start.layers) ==> distinct_ids(self@.layers),
            decreases updates@.len() - k,
        {
            let u = &updates[k];
            assert(all[k as int] == u@);
            let ghost before = self@.layers;
            let n: usize = self.layers.len();
            let mut i: usize = 0;
            while i < n
                invariant
                    i <= n,
                    n == self.layers@.len(),
                    before.len() == n,
                    self.next == start.next,
                    forall|j: int|
                        0 <= j < i ==> (#[trigger] self.layers@[j])@ == updated_layer(
                            before[j],
                            u@,
                        ),
                    forall|j: int| i <= j < n ==> (#[trigger] self.layers@[j])@ == before[j],
                decreases n - i,
            {
                assert(self.layers@[i as int]@ == before[i as int]);
                self.layers[i].update(u);
                i += 1;
            }
            assert(self@.layers =~= layers_updated(before, u@));
            k += 1;
        }
    }

    /// Puts the layers where a list of layers has them. Layers made later come
    /// behind all of them.
    pub fn sort(&mut self, order: &Vec<i64>)
        requires
            order@.len() < i64::MAX,
        ensures
            final(self)@ == after_sorting(old(self)@, order@),
            distinct_ids(old(self)@.layers) ==> distinct_ids(final(self)@.layers),
    {
        let ghost start = self@;
        let n: usize = self.layers.len();
        let mut i: usize = 0;
        while i < n
            invariant
                i <= n,
                n == self.layers@.len(),
                start.layers.len() == n,
                order@.len() < i64::MAX,
                forall|j: int|
                    0 <= j < i ==> (#[trigger] self.layers@[j])@ == placed_layer(
                        start.layers[j],
                        order@,
                    ),
                forall|j: int| i <= j < n ==> (#[trigger] self.layers@[j])@ == start.layers[j],
            decreases n - i,
        {
            assert(self.layers@[i as int]@ == start.layers[i as int]);
            let id = self.layers[i].id;
            let p = layer_place(order, id);
            proof {
                lemma_layer_key(order@, id, order@.len() as int);
            }
            if p != i64::MAX {
                self.layers[i].order = p;
            }
            i += 1;
        }
        self.next = order.len() as i64;
        assert(self@.layers =~= after_sorting(start, order@).layers);
    }
}

proof fn lemma_layer_key(order: Seq<i64>, id: i64, k: int)
    requires
        0 <= k <= order.len() < i64::MAX,
    ensures
        (layer_key(order, id, k) == i64::MAX) <==> (forall|j: int|
            0 <= j < k ==> (#[trigger] order[j]) != id),
        layer_key(order, id, k) != i64::MAX ==> 0 <= layer_key(order, id, k) < k
            && order[layer_key(order, id, k) as int] == id,
    decreases k,
{
    if k > 0 {
        lemma_layer_key(order, id, k - 1);
    }
}

/// Whether one layer is drawn before another: its order is less, or it is the
/// same and its id is greater.
pub open spec fn drawn_before(a: RuntimeModel, b: RuntimeModel) -> bool {
    a.order < b.order || (a.order == b.order && a.id > b.id)
}

/// Where a layer goes among sorted ones: before the first that it precedes.
pub open spec fn runtime_place(
    sorted: Seq<int>,
    layers: Seq<RuntimeModel>,
    l: RuntimeModel,
    from: int,
) -> int
    decreases sorted.len() - from,
{
    if from < 0 || from >= sorted.len() {
        sorted.len() as int
    } else if drawn_before(l, layers[sorted[from]]) {
        from
    } else {
        runtime_place(sorted, layers, l, from + 1)
    }
}

/// The positions of the first `k` layers in the order in which they are drawn.
pub open spec fn runtime_positions(layers: Seq<RuntimeModel>, k: int) -> Seq<int>
    decreases k,
{
    if k <= 0 {
        Seq::empty()
    } else {
        let before = runtime_positions(layers, k - 1);
        before.insert(runtime_place(before, layers, layers[k - 1], 0), k - 1)
    }
}

proof fn lemma_runtime_place(
    sorted: Seq<int>,
    layers: Seq<RuntimeModel>,
    l: RuntimeModel,
    from: int,
)
    requires
        0 <= from <= sorted.len(),
    ensures
        from <= runtime_place(sorted, layers, l, from) <= sorted.len(),
        forall|i: int|
            from <= i < runtime_place(sorted, layers, l, from) ==> !drawn_before(
                l,
                layers[#[trigger] sorted[i]],
            ),
        runtime_place(sorted, layers, l, from) < sorted.len() ==> drawn_before(
            l,
            layers[sorted[runtime_place(sorted, layers, l, from)]],
        ),
    decreases sorted.len() - from,
{
    if from < sorted.len() && !drawn_before(l, layers[sorted[from]]) {
        lemma_runtime_place(sorted, layers, l, from + 1);
    }
}

/// Layers are drawn by their order; of two with one order, the one with the
/// greater id comes first. Each of the first `k` layers is drawn once.
pub proof fn law_runtime_order(layers: Seq<RuntimeModel>, k: int)
    requires
        0 <= k <= layers.len(),
        distinct_ids(layers),
    ensures
        runtime_positions(layers, k).len() == k,
        forall|i: int| 0 <= i < k ==> 0 <= #[trigger] runtime_positions(layers, k)[i] < k,
        forall|i: int, j: int|
            0 <= i < j < k ==> drawn_before(
                layers[#[trigger] runtime_positions(layers, k)[i]],
                layers[#[trigger] runtime_positions(layers, k)[j]],
            ),
    decreases k,
{
    if k > 0 {
        law_runtime_order(layers, k - 1);
        let old_order = runtime_positions(layers, k - 1);
        let p = runtime_place(old_order, layers, layers[k - 1], 0);
        lemma_runtime_place(old_order, layers, layers[k - 1], 0);
        let now = runtime_positions(layers, k);
        assert(now == old_order.insert(p, k - 1));
        assert forall|i: int| 0 <= i < k implies 0 <= #[trigger] now[i] < k by {
            if i < p {
                assert(now[i] == old_order[i]);
            } else if i > p {
                assert(now[i] == old_order[i - 1]);
            }
        }
        assert forall|i: int, j: int| 0 <= i < j < k implies drawn_before(
            layers[#[trigger] now[i]],
            layers[#[trigger] now[j]],
        ) by {
            if i == p {
                assert(now[j] == old_order[j - 1]);
                if j - 1 > p {
                    assert(drawn_before(layers[old_order[p]], layers[old_order[j - 1]]));
                }
            } else if j == p {
                assert(now[i] == old_order[i]);
                assert(layers[old_order[i]].id != layers[k - 1].id);
            } else {
                let a = if i < p {
                    i
                } else {
                    i - 1
                };
                let b = if j < p {
                    j
                } else {
                    j - 1
                };
                assert(now[i] == old_order[a]);
                assert(now[j] == old_order[b]);
            }
        }
    }
}

/// The ids of the layers in the order in which they are drawn.
pub open spec fn runtime_ids(layers: Seq<RuntimeModel>) -> Seq<i64> {
    runtime_positions(layers, layers.len() as int).map_values(|p: int| layers[p].id)
}

fn runtime_order(layers: &Vec<RuntimeLayer>) -> (r: Vec<usize>)
    ensures
        crate::order::ints(r@) == runtime_positions(views(layers@), layers@.len() as int),
        r@.len() == layers@.len(),
        forall|i: int| 0 <= i < r@.len() ==> (#[trigger] r@[i]) < layers@.len(),
{
    let ghost all = views(layers@);
    let mut out: Vec<usize> = Vec::new();
    let mut n: usize = 0;
    assert(crate::order::ints(out@) =~= Seq::empty());
    while n < layers.len()
        invariant
            n <= layers@.len(),
            all == views(layers@),
            out@.len() == n,
            crate::order::ints(out@) == runtime_positions(all, n as int),
            forall|i: int| 0 <= i < out@.len() ==> (#[trigger] out@[i]) < n,
        decreases layers@.len() - n,
    {
        let ghost sorted = crate::order::ints(out@);
        let l = &layers[n];
        assert(all[n as int] == l@);
        let mut p: usize = 0;
        while p < out.len() && !(l.order < layers[out[p]].order || (l.order == layers[out[p]].order
            && l.id > layers[out[p]].id))
            invariant
                n < layers@.len(),
                p <= out@.len(),
                out@.len() == n,
                all == views(layers@),
                l@ == all[n as int],
                sorted == crate::order::ints(out@),
                runtime_place(sorted, all, l@, 0) == runtime_place(sorted, all, l@, p as int),
                forall|i: int| 0 <= i < out@.len() ==> (#[trigger] out@[i]) < n,
            decreases out@.len() - p,
        {
            assert(sorted[p as int] == out@[p as int] as int);
            assert(all[sorted[p as int]] == layers@[out@[p as int] as int]@);
            p += 1;
        }
        proof {
            if p < out@.len() {
                assert(sorted[p as int] == out@[p as int] as int);
                assert(all[sorted[p as int]] == layers@[out@[p as int] as int]@);
            }
            assert(runtime_place(sorted, all, l@, 0) == p);
            assert(crate::order::ints(out@.insert(p as int, n)) =~= sorted.insert(
                p as int,
                n as int,
            ));
        }
        out.insert(p, n);
        n += 1;
    }
    out
}

/// The ids of the layers in the order in which they are drawn.
pub fn runtime_draw_order(layers: &RuntimeLayers) -> (r: Vec<i64>)
    ensures
        r@ == runtime_ids(layers@.layers),
{
    let order = runtime_order(&layers.layers);
    let ghost all = layers@.layers;
    let mut out: Vec<i64> = Vec::new();
    let mut i: usize = 0;
    while i < order.len()
        invariant
            i <= order@.len(),
            all == views(layers.layers@),
            order@.len() == all.len(),
            out@.len() == i,
            forall|j: int| 0 <= j < order@.len() ==> (#[trigger] order@[j]) < all.len(),
            forall|j: int| 0 <= j < i ==> #[trigger] out@[j] == all[order@[j] as int].id,
        decreases order@.len() - i,
    {
        let l = &layers.layers[order[i]];
        assert(all[order@[i as int] as int] == l@);
        out.push(l.id);
        i += 1;
    }
    assert(out@ =~= runtime_ids(all)) by {
        let positions = runtime_positions(all, all.len() as int);
        assert(positions == crate::order::ints(order@));
        assert forall|j: int| 0 <= j < out@.len() implies #[trigger] out@[j] == runtime_ids(
            all,
        )[j] by {
            assert(positions[j] == order@[j] as int);
        }
    }
    out
}

/// Whether a layer is drawn in a frame in which any is.
pub open spec fn runtime_shown(l: RuntimeModel, tree: Tree) -> bool {
    l.visible && (l.alpha.above_zero() || l.alpha.undefined()) && tree.shows(
        parent_of(tree.parents@, l.id),
    )
}

/// Whether a layer makes the frame draw any.
pub open spec fn runtime_present(l: RuntimeModel) -> bool {
    l.visible && l.alpha.above_zero()
}

/// The positions, among those given, of the layers that are drawn.
pub open spec fn shown_positions(
    layers: Seq<RuntimeModel>,
    positions: Seq<int>,
    tree: Tree,
    k: int,
) -> Seq<int>
    decreases k,
{
    if k <= 0 {
        Seq::empty()
    } else {
        let before = shown_positions(layers, positions, tree, k - 1);
        if runtime_shown(layers[positions[k - 1]], tree) {
            before.push(positions[k - 1])
        } else {
            before
        }
    }
}

/// The positions of the layers that a frame draws, in order.
pub open spec fn runtime_drawn(layers: Seq<RuntimeModel>, tree: Tree) -> Seq<int> {
    if exists|i: int| 0 <= i < layers.len() && runtime_present(#[trigger] layers[i]) {
        shown_positions(
            layers,
            runtime_positions(layers, layers.len() as int),
            tree,
            layers.len() as int,
        )
    } else {
        Seq::empty()
    }
}

/// The positions of the layers that a frame draws, in order: none if none is
/// visible and above zero.
pub fn drawn_layers(layers: &RuntimeLayers, tree: &Tree) -> (r: Vec<usize>)
    ensures
        crate::order::ints(r@) == runtime_drawn(layers@.layers, *tree),
        forall|i: int| 0 <= i < r@.len() ==> (#[trigger] r@[i]) < layers@.layers.len(),
        r@.len() <= layers@.layers.len(),
{
    let ghost all = layers@.layers;
    let mut out: Vec<usize> = Vec::new();
    let mut any = false;
    let mut i: usize = 0;
    while i < layers.layers.len()
        invariant
            i <= layers.layers@.len(),
            all == views(layers.layers@),
            any == exists|j: int| 0 <= j < i && runtime_present(#[trigger] all[j]),
        decreases layers.layers@.len() - i,
    {
        let l = &layers.layers[i];
        assert(all[i as int] == l@);
        if l.visible && l.alpha.is_above_zero() {
            assert(runtime_present(all[i as int]));
            any = true;
        }
        i += 1;
    }
    assert(crate::order::ints(out@) =~= Seq::empty());
    if !any {
        return out;
    }
    let order = runtime_order(&layers.layers);
    let ghost positions = runtime_positions(all, all.len() as int);
    let mut k: usize = 0;
    while k < order.len()
        invariant
            k <= order@.len(),
            all == views(layers.layers@),
            order@.len() == all.len(),
            positions == crate::order::ints(order@),
            out@.len() <= k,
            forall|j: int| 0 <= j < order@.len() ==> (#[trigger] order@[j]) < all.len(),
            forall|j: int| 0 <= j < out@.len() ==> (#[trigger] out@[j]) < all.len(),
            crate::order::ints(out@) == shown_positions(all, positions, *tree, k as int),
        decreases order@.len() - k,
    {
        let at = order[k];
        let l = &layers.layers[at];
        assert(positions[k as int] == at as int);
        assert(all[at as int] == l@);
        let parent: Option<i64> = match tree.parents.get(&l.id) {
            Some(p) => *p,
            None => None,
        };
        if l.visible && !l.alpha.is_zero_or_below() && ancestors_visible(
            tree.parents,
            tree.visible,
            parent,
        ) {
            assert(crate::order::ints(out@.push(at)) =~= crate::order::ints(out@).push(at as int));
            out.push(at);
        }
        k += 1;
    }
    out
}

/// A run of vertices that are drawn with one texture.
#[derive(Debug)]
pub struct Batch {
    pub texture: Option<String>,
    pub first: u32,
    pub count: u32,
}

/// What a [`Batch`] holds.
pub struct BatchModel {
    pub texture: Option<Seq<char>>,
    pub first: u32,
    pub count: u32,
}

impl View for Batch {
    type V = BatchModel;

    open spec fn view(&self) -> BatchModel {
        BatchModel { texture: opt_view(self.texture), first: self.first, count: self.count }
    }
}

/// The vertices that one layer takes.
pub const LAYER_VERTICES: u32 = 6;

/// The bytes that one vertex takes.
pub const VERTEX_BYTES: usize = 32;

/// The fewest bytes that a vertex buffer has.
pub const LEAST_BUFFER: usize = 4096;

/// The runs in which layers with the given textures are drawn: a layer joins
/// the run before it where both have one texture.
pub open spec fn batches(textures: Seq<Option<Seq<char>>>, k: int) -> Seq<BatchModel>
    decreases k,
{
    if k <= 0 {
        Seq::empty()
    } else {
        let before = batches(textures, k - 1);
        let t = textures[k - 1];
        if before.len() > 0 && before.last().texture == t {
            before.update(
                before.len() - 1,
                BatchModel {
                    count: (before.last().count + LAYER_VERTICES) as u32,
                    ..before.last()
                },
            )
        } else {
            before.push(
                BatchModel {
                    texture: t,
                    first: ((k - 1) * LAYER_VERTICES) as u32,
                    count: LAYER_VERTICES,
                },
            )
        }
    }
}

/// The runs take all vertices, each once and in order, and no two that follow
/// each other have one texture.
pub proof fn law_batches_cover_all(textures: Seq<Option<Seq<char>>>, k: int)
    requires
        0 <= k <= textures.len(),
        k * LAYER_VERTICES <= u32::MAX,
    ensures
        k > 0 ==> batches(textures, k).len() > 0 && batches(textures, k)[0].first == 0
            && batches(textures, k).last().first + batches(textures, k).last().count == k
            * LAYER_VERTICES,
        forall|i: int|
            0 <= i < batches(textures, k).len() - 1 ==> (#[trigger] batches(textures, k)[i]).first
                + batches(textures, k)[i].count == batches(textures, k)[i + 1].first && batches(
                textures,
                k,
            )[i].texture != batches(textures, k)[i + 1].texture,
        forall|i: int|
            0 <= i < batches(textures, k).len() ==> (#[trigger] batches(textures, k)[i]).count > 0,
    decreases k,
{
    if k > 0 {
        law_batches_cover_all(textures, k - 1);
        let before = batches(textures, k - 1);
        let now = batches(textures, k);
        assert forall|i: int| 0 <= i < now.len() - 1 implies (#[trigger] now[i]).first + now[i].count
            == now[i + 1].first && now[i].texture != now[i + 1].texture by {
            if i < before.len() - 1 {
                assert(now[i] == before[i]);
                assert(now[i + 1].first == before[i + 1].first);
            }
        }
        assert forall|i: int| 0 <= i < now.len() implies (#[trigger] now[i]).count > 0 by {
            if i < before.len() - 1 {
                assert(now[i] == before[i]);
            }
        }
    }
}

fn same_texture(a: &Option<String>, b: &Option<String>) -> (r: bool)
    ensures
        r == (opt_view(*a) == opt_view(*b)),
{
    match (a, b) {
        (Some(x), Some(y)) => same_text(x.as_str(), y.as_str()),
        (None, None) => true,
        _ => false,
    }
}

/// The textures of the layers at some positions.
pub open spec fn textures_at(layers: Seq<RuntimeModel>, positions: Seq<int>) -> Seq<
    Option<Seq<char>>,
> {
    Seq::new(positions.len(), |i: int| layers[positions[i]].texture)
}

/// The runs in which the layers at the given positions are drawn.
pub fn layer_batches(layers: &RuntimeLayers, positions: &Vec<usize>) -> (r: Vec<Batch>)
    requires
        forall|i: int| 0 <= i < positions@.len() ==> (#[trigger] positions@[i]) < layers@.layers.len(),
        positions@.len() * LAYER_VERTICES <= u32::MAX,
    ensures
        views(r@) == batches(
            textures_at(layers@.layers, crate::order::ints(positions@)),
            positions@.len() as int,
        ),
{
    let ghost all = layers@.layers;
    let ghost textures = textures_at(all, crate::order::ints(positions@));
    let mut out: Vec<Batch> = Vec::new();
    let mut k: usize = 0;
    assert(views(out@) =~= Seq::empty());
    while k < positions.len()
        invariant
            k <= positions@.len(),
            all == views(layers.layers@),
            textures == textures_at(all, crate::order::ints(positions@)),
            forall|i: int| 0 <= i < positions@.len() ==> (#[trigger] positions@[i]) < all.len(),
            positions@.len() * LAYER_VERTICES <= u32::MAX,
            views(out@) == batches(textures, k as int),
        decreases positions@.len() - k,
    {
        let l = &layers.layers[positions[k]];
        assert(crate::order::ints(positions@)[k as int] == positions@[k as int] as int);
        assert(textures[k as int] == l@.texture);
        let ghost before = views(out@);
        proof {
            law_batches_cover_all(textures, k as int);
        }
        let n: usize = out.len();
        let joins = n > 0 && same_texture(&out[n - 1].texture, &l.texture);
        proof {
            if n > 0 {
                assert(before.last() == out@[n - 1]@);
            }
        }
        if joins {
            out[n - 1].count += LAYER_VERTICES;
            assert(views(out@) =~= batches(textures, k + 1));
        } else {
            let b = Batch {
                texture: copy_opt(&l.texture),
                first: k as u32 * LAYER_VERTICES,
                count: LAYER_VERTICES,
            };
            proof {
                lemma_views_push(out@, b);
            }
            out.push(b);
        }
        k += 1;
    }
    out
}

/// The size of the buffer that `n` layers are drawn from, and whether it has
/// to be made first: there is none, or it is too small.
pub fn vertex_buffer(n: usize, capacity: Option<usize>) -> (r: (usize, bool))
    requires
        n * LAYER_VERTICES * VERTEX_BYTES <= usize::MAX,
    ensures
        r.1 == (capacity is None || capacity->0 < n * LAYER_VERTICES * VERTEX_BYTES),
        !r.1 ==> Some(r.0) == capacity,
        r.1 ==> r.0 == (if n * LAYER_VERTICES * VERTEX_BYTES > LEAST_BUFFER {
            n * LAYER_VERTICES * VERTEX_BYTES
        } else {
            LEAST_BUFFER as int
        }),
{
    let needed: usize = n * 192;
    match capacity {
        Some(cap) => if cap >= needed {
            return (cap, false);
        },
        None => {},
    }
    if needed > LEAST_BUFFER {
        (needed, true)
    } else {
        (LEAST_BUFFER, true)
    }
}

} // verus!
