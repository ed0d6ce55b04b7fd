//! What a translated shader takes and gives.
use vstd::prelude::*;

use crate::order::{draw_positions, ints, sorted_positions};
use crate::slots::{BindKind, ModuleBinding};
use crate::strings::{opt_view, views};
use crate::table::TextMap;
use crate::uniforms::{
    builtin_type, end_upto, layout_of, member_type, GlType, GlobalsLayout, LayoutModel, Member,
    MemberModel,
};

verus! {

/// A module of naga.
#[verifier::external_type_specification]
#[verifier::external_body]
pub struct ExModule(naga::Module);

/// A member of a structure: its name, where it begins, the location that it is
/// bound to, and the position of its type.
#[derive(Debug)]
pub struct FieldOutline {
    pub name: Option<String>,
    pub offset: u32,
    pub location: Option<u32>,
    pub ty: usize,
}

/// What a [`FieldOutline`] holds.
pub struct FieldModel {
    pub name: Option<Seq<char>>,
    pub offset: u32,
    pub location: Option<u32>,
    pub ty: usize,
}

impl View for FieldOutline {
    type V = FieldModel;

    open spec fn view(&self) -> FieldModel {
        FieldModel {
            name: opt_view(self.name),
            offset: self.offset,
            location: self.location,
            ty: self.ty,
        }
    }
}

/// A type of a module. A vector has its number of components.
#[derive(Debug)]
pub enum TypeOutline {
    Scalar,
    Vector(u8),
    Image,
    Sampler,
    Struct { fields: Vec<FieldOutline>, span: u32 },
    Other,
}

/// What a [`TypeOutline`] holds.
pub enum TypeModel {
    Scalar,
    Vector(u8),
    Image,
    Sampler,
    Struct { fields: Seq<FieldModel>, span: u32 },
    Other,
}

impl View for TypeOutline {
    type V = TypeModel;

    open spec fn view(&self) -> TypeModel {
        match self {
            TypeOutline::Scalar => TypeModel::Scalar,
            TypeOutline::Vector(n) => TypeModel::Vector(*n),
            TypeOutline::Image => TypeModel::Image,
            TypeOutline::Sampler => TypeModel::Sampler,
            TypeOutline::Struct { fields, span } => TypeModel::Struct {
                fields: views(fields@),
                span: *span,
            },
            TypeOutline::Other => TypeModel::Other,
        }
    }
}

/// Where a variable of a module lives.
#[derive(Clone, Copy, Debug, PartialEq, Eq, Structural)]
pub enum Space {
    Uniform,
    Handle,
    Other,
}

/// A variable of a module: where it lives, what it is bound to, and the
/// position of its type.
#[derive(Clone, Copy, Debug, PartialEq, Eq, Structural)]
pub struct GlobalOutline {
    pub space: Space,
    pub binding: Option<u32>,
    pub ty: usize,
}

/// What an entry point takes or gives: the location that it is bound to, and
/// the position of its type.
#[derive(Clone, Copy, Debug, PartialEq, Eq, Structural)]
pub struct PortOutline {
    pub location: Option<u32>,
    pub ty: usize,
}

/// What an entry point takes and gives.
#[derive(Debug)]
pub struct EntryOutline {
    pub arguments: Vec<PortOutline>,
    pub result: Option<PortOutline>,
}

/// What an [`EntryOutline`] holds.
pub struct EntryModel {
    pub arguments: Seq<PortOutline>,
    pub result: Option<PortOutline>,
}

impl View for EntryOutline {
    type V = EntryModel;

    open spec fn view(&self) -> EntryModel {
        EntryModel { arguments: self.arguments@, result: self.result }
    }
}

/// The types that a module of naga holds, in order.
pub uninterp spec fn module_types(m: naga::Module) -> Seq<TypeModel>;

/// The global variables that a module of naga holds, in order.
pub uninterp spec fn module_globals(m: naga::Module) -> Seq<GlobalOutline>;

/// The entry points that a module of naga holds, in order.
pub uninterp spec fn module_entries(m: naga::Module) -> Seq<EntryModel>;

/// `naga::UniqueArena::iter` and the fields of `naga::Type`: the types of a module
/// in the order of their handles, with what of them is read here. The contract
/// gives that list a name and says nothing more of it.
#[verifier::external_body]
fn read_types(m: &naga::Module) -> (r: Vec<TypeOutline>)
    ensures
        views(r@) == module_types(*m),
{
    m.types.iter().map(|(_, t)| match &t.inner {
        naga::TypeInner::Scalar(_) => TypeOutline::Scalar,
        naga::TypeInner::Vector { size, .. } => TypeOutline::Vector(*size as u8),
        naga::TypeInner::Image { .. } => TypeOutline::Image,
        naga::TypeInner::Sampler { .. } => TypeOutline::Sampler,
        naga::TypeInner::Struct { members, span } => TypeOutline::Struct {
            fields: members.iter().map(|f| read_field(f)).collect(),
            span: *span,
        },
        _ => TypeOutline::Other,
    }).collect()
}

/// A member of a structure of naga.
#[verifier::external_type_specification]
#[verifier::external_body]
pub struct ExStructMember(naga::StructMember);

/// What a member of a structure of naga is bound to.
#[verifier::external_type_specification]
#[verifier::external_body]
pub struct ExBinding(naga::Binding);

/// The fields of `naga::StructMember`. Nothing is claimed of the result by
/// itself: it is part of what the types of a module are.
#[verifier::external_body]
fn read_field(f: &naga::StructMember) -> (r: FieldOutline) {
    FieldOutline {
        name: f.name.clone(),
        offset: f.offset,
        location: read_location(&f.binding),
        ty: f.ty.index(),
    }
}

/// The location in a `naga::Binding`. Nothing is claimed of the result by
/// itself: it is part of what the types and entry points of a module are.
#[verifier::external_body]
fn read_location(b: &Option<naga::Binding>) -> (r: Option<u32>) {
    match b {
        Some(naga::Binding::Location { location, .. }) => Some(*location),
        _ => None,
    }
}

/// `naga::Arena::iter` and the fields of `naga::GlobalVariable`: the global
/// variables of a module in order, with what of them is read here. The
/// contract gives that list a name and says nothing more of it.
#[verifier::external_body]
fn read_globals(m: &naga::Module) -> (r: Vec<GlobalOutline>)
    ensures
        r@ == module_globals(*m),
{
    m.global_variables.iter().map(|(_, g)| GlobalOutline {
        space: match g.space {
            naga::AddressSpace::Uniform => Space::Uniform,
            naga::AddressSpace::Handle => Space::Handle,
            _ => Space::Other,
        },
        binding: g.binding.as_ref().map(|b| b.binding),
        ty: g.ty.index(),
    }).collect()
}

/// The fields of `naga::EntryPoint` and its function: the entry points of a
/// module in order, with what of them is read here. The contract gives that
/// list a name and says nothing more of it.
#[verifier::external_body]
fn read_entries(m: &naga::Module) -> (r: Vec<EntryOutline>)
    ensures
        views(r@) == module_entries(*m),
{
    m.entry_points.iter().map(|e| EntryOutline {
        arguments: e.function.arguments.iter().map(|a| PortOutline {
            location: read_location(&a.binding),
            ty: a.ty.index(),
        }).collect(),
        result: e.function.result.as_ref().map(|o| PortOutline {
            location: read_location(&o.binding),
            ty: o.ty.index(),
        }),
    }).collect()
}

/// The type at a position.
pub open spec fn type_at(types: Seq<TypeModel>, i: int) -> TypeModel {
    if 0 <= i < types.len() {
        types[i]
    } else {
        TypeModel::Other
    }
}

/// How many numbers a value of a type has; zero for what is no number and no
/// vector.
pub open spec fn width_of(t: TypeModel) -> u8 {
    match t {
        TypeModel::Scalar => 1,
        TypeModel::Vector(n) => n,
        _ => 0,
    }
}

/// The locations and widths of the first `k` fields of a structure.
pub open spec fn with_fields(
    shapes: Map<u32, u8>,
    types: Seq<TypeModel>,
    fields: Seq<FieldModel>,
    k: int,
) -> Map<u32, u8>
    decreases k,
{
    if k <= 0 {
        shapes
    } else {
        let before = with_fields(shapes, types, fields, k - 1);
        match fields[k - 1].location {
            Some(l) => before.insert(l, width_of(type_at(types, fields[k - 1].ty as int))),
            None => before,
        }
    }
}

/// Locations and widths, and those of one more port: its own, or else those
/// of the fields of the structure that it is.
pub open spec fn with_port(shapes: Map<u32, u8>, types: Seq<TypeModel>, p: PortOutline) -> Map<
    u32,
    u8,
> {
    match p.location {
        Some(l) => shapes.insert(l, width_of(type_at(types, p.ty as int))),
        None => match type_at(types, p.ty as int) {
            TypeModel::Struct { fields, span } => with_fields(
                shapes,
                types,
                fields,
                fields.len() as int,
            ),
            _ => shapes,
        },
    }
}

/// The locations and widths of the first `k` ports.
pub open spec fn shapes_upto(types: Seq<TypeModel>, ports: Seq<PortOutline>, k: int) -> Map<u32, u8>
    decreases k,
{
    if k <= 0 {
        Map::empty()
    } else {
        with_port(shapes_upto(types, ports, k - 1), types, ports[k - 1])
    }
}

/// Which way values go through an entry point.
#[derive(Clone, Copy, Debug, PartialEq, Eq, Structural)]
pub enum IoDir {
    Output,
    Input,
}

/// The ports of the first entry point.
pub open spec fn ports_of(entries: Seq<EntryModel>, dir: IoDir) -> Seq<PortOutline> {
    if entries.len() == 0 {
        Seq::empty()
    } else {
        match dir {
            IoDir::Output => match entries[0].result {
                Some(p) => seq![p],
                None => Seq::empty(),
            },
            IoDir::Input => entries[0].arguments,
        }
    }
}

/// The locations that the first entry point takes or gives, and their widths.
pub open spec fn shapes_of(types: Seq<TypeModel>, entries: Seq<EntryModel>, dir: IoDir) -> Map<
    u32,
    u8,
> {
    let ports = ports_of(entries, dir);
    shapes_upto(types, ports, ports.len() as int)
}

/// Locations and their widths, in order.
#[derive(Debug)]
pub struct Shapes {
    pub entries: Vec<(u32, u8)>,
}

/// Whether entries are in order.
pub open spec fn ascending(s: Seq<(u32, u8)>) -> bool {
    forall|i: int, j: int| 0 <= i < j < s.len() ==> (#[trigger] s[i]).0 < (#[trigger] s[j]).0
}

/// The width that entries have for a location.
pub open spec fn entry_for(s: Seq<(u32, u8)>, l: u32, i: int) -> bool {
    0 <= i < s.len() && s[i].0 == l
}

/// What entries stand for.
pub open spec fn shape_map(s: Seq<(u32, u8)>) -> Map<u32, u8> {
    Map::new(
        |l: u32| exists|i: int| entry_for(s, l, i),
        |l: u32| s[choose|i: int| entry_for(s, l, i)].1,
    )
}

impl View for Shapes {
    type V = Map<u32, u8>;

    open spec fn view(&self) -> Map<u32, u8> {
        shape_map(self.entries@)
    }
}

proof fn lemma_shape_map(s: Seq<(u32, u8)>)
    requires
        ascending(s),
    ensures
        forall|i: int|
            0 <= i < s.len() ==> shape_map(s).contains_pair((#[trigger] s[i]).0, s[i].1),
        forall|l: u32| #[trigger]
            shape_map(s).contains_key(l) ==> exists|i: int| 0 <= i < s.len() && #[trigger] s[i].0 == l,
{
    assert forall|i: int| 0 <= i < s.len() implies shape_map(s).contains_pair(
        (#[trigger] s[i]).0,
        s[i].1,
    ) by {
        let l = s[i].0;
        assert(entry_for(s, l, i));
        let c = choose|c: int| entry_for(s, l, c);
        assert(entry_for(s, l, c));
        if c < i {
            assert(s[c].0 < s[i].0);
        } else if i < c {
            assert(s[i].0 < s[c].0);
        }
    }
    assert forall|l: u32| #[trigger] shape_map(s).contains_key(l) implies exists|i: int|
        0 <= i < s.len() && #[trigger] s[i].0 == l by {
        let c = choose|c: int| entry_for(s, l, c);
        assert(entry_for(s, l, c));
        assert(s[c].0 == l);
    }
}

proof fn lemma_shape_set(s: Seq<(u32, u8)>, p: int, l: u32, width: u8)
    requires
        ascending(s),
        0 <= p < s.len(),
        s[p].0 == l,
    ensures
        ascending(s.update(p, (l, width))),
        shape_map(s.update(p, (l, width))) == shape_map(s).insert(l, width),
{
    let now = s.update(p, (l, width));
    assert forall|i: int, j: int| 0 <= i < j < now.len() implies (#[trigger] now[i]).0 < (
    #[trigger] now[j]).0 by {
        assert(s[i].0 < s[j].0);
    }
    lemma_shape_map(s);
    lemma_shape_map(now);
    lemma_shapes_agree(s, now, p, l, width, 0);
}

proof fn lemma_shape_insert(s: Seq<(u32, u8)>, p: int, l: u32, width: u8)
    requires
        ascending(s),
        0 <= p <= s.len(),
        forall|j: int| 0 <= j < p ==> (#[trigger] s[j]).0 < l,
        p < s.len() ==> l < s[p].0,
    ensures
        ascending(s.insert(p, (l, width))),
        shape_map(s.insert(p, (l, width))) == shape_map(s).insert(l, width),
{
    let now = s.insert(p, (l, width));
    assert forall|i: int, j: int| 0 <= i < j < now.len() implies (#[trigger] now[i]).0 < (
    #[trigger] now[j]).0 by {
        if i == p {
            assert(now[j] == s[j - 1]);
            if j - 1 > p {
                assert(s[p].0 < s[j - 1].0);
            }
        } else if j == p {
            assert(now[i] == s[i]);
        } else {
            let a = if i < p {
                i
            } else {
                i - 1
            };
            let b = if j < p {
                j
            } else {
                j - 1
            };
            assert(now[i] == s[a] && now[j] == s[b]);
            assert(s[a].0 < s[b].0);
        }
    }
    assert forall|i: int| 0 <= i < s.len() implies #[trigger] s[i] == now[if i < p {
        i
    } else {
        i + 1
    }] by {}
    lemma_shape_map(s);
    lemma_shape_map(now);
    lemma_shapes_agree(s, now, p, l, width, 1);
}

proof fn lemma_shapes_agree(
    s: Seq<(u32, u8)>,
    now: Seq<(u32, u8)>,
    p: int,
    l: u32,
    width: u8,
    shift: int,
)
    requires
        ascending(s),
        ascending(now),
        shift == 0 || shift == 1,
        now.len() == s.len() + shift,
        0 <= p < now.len(),
        now[p] == (l, width),
        shift == 0 ==> s[p].0 == l,
        forall|i: int| 0 <= i < p ==> #[trigger] now[i] == s[i],
        forall|i: int| p < i < now.len() ==> #[trigger] now[i] == s[i - shift],
    ensures
        shape_map(now) == shape_map(s).insert(l, width),
{
    lemma_shape_map(s);
    lemma_shape_map(now);
    let goal = shape_map(s).insert(l, width);
    assert forall|k: u32| #[trigger] shape_map(now).contains_key(k) implies goal.contains_key(k)
        && goal[k] == shape_map(now)[k] by {
        let i = choose|i: int| 0 <= i < now.len() && #[trigger] now[i].0 == k;
        assert(shape_map(now).contains_pair(now[i].0, now[i].1));
        if i < p {
            assert(now[i] == s[i]);
            assert(now[i].0 < now[p].0);
            assert(shape_map(s).contains_pair(s[i].0, s[i].1));
        } else if i > p {
            assert(now[i] == s[i - shift]);
            assert(now[p].0 < now[i].0);
            assert(shape_map(s).contains_pair(s[i - shift].0, s[i - shift].1));
        }
    }
    assert forall|k: u32| #[trigger] goal.contains_key(k) implies shape_map(now).contains_key(k) by {
        if k == l {
            assert(shape_map(now).contains_pair(now[p].0, now[p].1));
        } else {
            let i = choose|i: int| 0 <= i < s.len() && #[trigger] s[i].0 == k;
            let a = if i < p {
                i
            } else {
                i + shift
            };
            assert(now[a] == s[i]);
            assert(shape_map(now).contains_pair(now[a].0, now[a].1));
        }
    }
    assert(shape_map(now) =~= goal);
}

impl Shapes {
    pub fn new() -> (r: Self)
        ensures
            r@ == Map::<u32, u8>::empty(),
            ascending(r.entries@),
    {
        let r = Shapes { entries: Vec::new() };
        assert(r@ =~= Map::<u32, u8>::empty());
        r
    }

    pub fn insert(&mut self, l: u32, width: u8)
        requires
            ascending(old(self).entries@),
        ensures
            final(self)@ == old(self)@.insert(l, width),
            ascending(final(self).entries@),
    {
        let ghost start = self.entries@;
        let mut p: usize = 0;
        while p < self.entries.len() && self.entries[p].0 < l
            invariant
                p <= self.entries@.len(),
                self.entries@ == start,
                forall|j: int| 0 <= j < p ==> (#[trigger] start[j]).0 < l,
            decreases self.entries@.len() - p,
        {
            p += 1;
        }
        if p < self.entries.len() && self.entries[p].0 == l {
            proof {
                lemma_shape_set(start, p as int, l, width);
            }
            self.entries.set(p, (l, width));
        } else {
            proof {
                lemma_shape_insert(start, p as int, l, width);
            }
            self.entries.insert(p, (l, width));
        }
    }

    pub fn get(&self, l: u32) -> (r: Option<u8>)
        requires
            ascending(self.entries@),
        ensures
            r == (if self@.contains_key(l) {
                Some(self@[l])
            } else {
                None
            }),
    {
        proof {
            lemma_shape_map(self.entries@);
        }
        let mut i: usize = 0;
        while i < self.entries.len()
            invariant
                i <= self.entries@.len(),
                ascending(self.entries@),
                forall|j: int| 0 <= j < i ==> (#[trigger] self.entries@[j]).0 != l,
                forall|j: int|
                    0 <= j < self.entries@.len() ==> self@.contains_pair(
                        (#[trigger] self.entries@[j]).0,
                        self.entries@[j].1,
                    ),
            decreases self.entries@.len() - i,
        {
            if self.entries[i].0 == l {
                return Some(self.entries[i].1);
            }
            i += 1;
        }
        proof {
            lemma_shape_map(self.entries@);
        }
        None
    }
}

fn width(types: &Vec<TypeOutline>, ty: usize) -> (r: u8)
    ensures
        r == width_of(type_at(views(types@), ty as int)),
{
    if ty < types.len() {
        assert(views(types@)[ty as int] == types@[ty as int]@);
        match &types[ty] {
            TypeOutline::Scalar => 1,
            TypeOutline::Vector(n) => *n,
            _ => 0,
        }
    } else {
        0
    }
}

fn collect_port(shapes: &mut Shapes, types: &Vec<TypeOutline>, p: &PortOutline)
    requires
        ascending(old(shapes).entries@),
    ensures
        final(shapes)@ == with_port(old(shapes)@, views(types@), *p),
        ascending(final(shapes).entries@),
{
    let ghost all = views(types@);
    if let Some(l) = p.location {
        shapes.insert(l, width(types, p.ty));
        return;
    }
    if p.ty < types.len() {
        assert(all[p.ty as int] == types@[p.ty as int]@);
        if let TypeOutline::Struct { fields, span: _ } = &types[p.ty] {
            let ghost start = shapes@;
            let ghost listed = views(fields@);
            let mut i: usize = 0;
            while i < fields.len()
                invariant
                    i <= fields@.len(),
                    listed == views(fields@),
                    all == views(types@),
                    ascending(shapes.entries@),
                    shapes@ == with_fields(start, all, listed, i as int),
                decreases fields@.len() - i,
            {
                assert(listed[i as int] == fields@[i as int]@);
                if let Some(l) = fields[i].location {
                    shapes.insert(l, width(types, fields[i].ty));
                }
                i += 1;
            }
        }
    }
}

/// The locations that the first of some entry points takes or gives, and
/// their widths.
pub fn shapes_in(types: &Vec<TypeOutline>, entries: &Vec<EntryOutline>, dir: IoDir) -> (r: Shapes)
    ensures
        r@ == shapes_of(views(types@), views(entries@), dir),
        ascending(r.entries@),
{
    let ghost all = views(types@);
    let mut out = Shapes::new();
    if entries.len() == 0 {
        return out;
    }
    let e = &entries[0];
    assert(views(entries@)[0] == e@);
    match dir {
        IoDir::Output => {
            if let Some(p) = &e.result {
                proof {
                    reveal_with_fuel(shapes_upto, 2);
                }
                collect_port(&mut out, types, p);
            }
        },
        IoDir::Input => {
            let mut i: usize = 0;
            while i < e.arguments.len()
                invariant
                    i <= e.arguments@.len(),
                    all == views(types@),
                    ascending(out.entries@),
                    out@ == shapes_upto(all, e.arguments@, i as int),
                decreases e.arguments@.len() - i,
            {
                collect_port(&mut out, types, &e.arguments[i]);
                i += 1;
            }
        },
    }
    out
}

/// The locations that the first entry point of a module takes or gives, and
/// their widths.
pub fn io_shapes(module: &naga::Module, dir: IoDir) -> (r: Shapes)
    ensures
        r@ == shapes_of(module_types(*module), module_entries(*module), dir),
        ascending(r.entries@),
{
    let types = read_types(module);
    let entries = read_entries(module);
    shapes_in(&types, &entries, dir)
}

/// Whether a location that is taken is not given, or not with that width.
pub open spec fn mismatched(given: Map<u32, u8>, taken: Map<u32, u8>, l: u32) -> bool {
    taken.contains_key(l) && !(given.contains_key(l) && given[l] == taken[l])
}

/// The least location that is taken and not given so.
pub fn first_mismatch(given: &Shapes, taken: &Shapes) -> (r: Option<u32>)
    requires
        ascending(given.entries@),
        ascending(taken.entries@),
    ensures
        match r {
            Some(l) => mismatched(given@, taken@, l) && forall|k: u32|
                k < l ==> !#[trigger] mismatched(given@, taken@, k),
            None => forall|k: u32| !#[trigger] mismatched(given@, taken@, k),
        },
{
    proof {
        lemma_shape_map(taken.entries@);
    }
    let mut i: usize = 0;
    while i < taken.entries.len()
        invariant
            i <= taken.entries@.len(),
            ascending(given.entries@),
            ascending(taken.entries@),
            forall|j: int|
                0 <= j < taken.entries@.len() ==> taken@.contains_pair(
                    (#[trigger] taken.entries@[j]).0,
                    taken.entries@[j].1,
                ),
            forall|l: u32| #[trigger]
                taken@.contains_key(l) ==> exists|j: int|
                    0 <= j < taken.entries@.len() && #[trigger] taken.entries@[j].0 == l,
            forall|j: int|
                0 <= j < i ==> !mismatched(given@, taken@, (#[trigger] taken.entries@[j]).0),
        decreases taken.entries@.len() - i,
    {
        let (l, w) = taken.entries[i];
        assert(taken@.contains_pair(taken.entries@[i as int].0, taken.entries@[i as int].1));
        let same = match given.get(l) {
            Some(had) => had == w,
            None => false,
        };
        if !same {
            assert forall|k: u32| k < l implies !#[trigger] mismatched(given@, taken@, k) by {
                if taken@.contains_key(k) {
                    let j = choose|j: int|
                        0 <= j < taken.entries@.len() && #[trigger] taken.entries@[j].0 == k;
                    if j > i {
                        assert(taken.entries@[i as int].0 < taken.entries@[j].0);
                    }
                }
            }
            return Some(l);
        }
        i += 1;
    }
    None
}

/// Whether one stage takes what the other does not give.
pub fn shapes_disagree(given: &Shapes, taken: &Shapes) -> (r: bool)
    requires
        ascending(given.entries@),
        ascending(taken.entries@),
    ensures
        r == exists|l: u32| #[trigger] mismatched(given@, taken@, l),
{
    first_mismatch(given, taken).is_some()
}

/// Whether the fragment stage takes what the vertex stage does not give.
pub fn stages_disagree(vs: &naga::Module, fs: &naga::Module) -> (r: bool)
    ensures
        r == exists|l: u32| #[trigger]
            mismatched(
                shapes_of(module_types(*vs), module_entries(*vs), IoDir::Output),
                shapes_of(module_types(*fs), module_entries(*fs), IoDir::Input),
                l,
            ),
{
    let given = io_shapes(vs, IoDir::Output);
    let taken = io_shapes(fs, IoDir::Input);
    shapes_disagree(&given, &taken)
}

/// Why a pass cannot be built.
#[derive(Debug, PartialEq, Eq)]
pub enum PassBuildError {
    /// A shader that cannot be translated, with what is said of it.
    Translate(String),
    InterfaceMismatch(u32),
    TooManyVaryings(u32, u32),
}

/// Whether a location is the greatest that is given or taken.
pub open spec fn is_greatest(given: Map<u32, u8>, taken: Map<u32, u8>, l: u32) -> bool {
    (given.contains_key(l) || taken.contains_key(l)) && forall|k: u32|
        (#[trigger] given.contains_key(k) ==> k <= l) && (#[trigger] taken.contains_key(k) ==> k
            <= l)
}

fn greatest(s: &Shapes) -> (r: Option<u32>)
    requires
        ascending(s.entries@),
    ensures
        match r {
            Some(l) => s@.contains_key(l) && forall|k: u32| #[trigger]
                s@.contains_key(k) ==> k <= l,
            None => forall|k: u32| !#[trigger] s@.contains_key(k),
        },
{
    proof {
        lemma_shape_map(s.entries@);
    }
    let n: usize = s.entries.len();
    if n == 0 {
        None
    } else {
        let l = s.entries[n - 1].0;
        proof {
            assert(s@.contains_pair(s.entries@[n - 1].0, s.entries@[n - 1].1));
            assert forall|k: u32| #[trigger] s@.contains_key(k) implies k <= l by {
                let i = choose|i: int| 0 <= i < s.entries@.len() && #[trigger] s.entries@[i].0 == k;
                if i < n - 1 {
                    assert(s.entries@[i].0 < s.entries@[n - 1].0);
                }
            }
        }
        Some(l)
    }
}

/// Whether two stages fit each other, and the device: the first must give what
/// the second takes, and no location may reach the limit.
pub fn check_interface(given: &Shapes, taken: &Shapes, limit: u32) -> (r: Result<
    (),
    PassBuildError,
>)
    requires
        ascending(given.entries@),
        ascending(taken.entries@),
    ensures
        match r {
            Ok(_) => (forall|k: u32| !#[trigger] mismatched(given@, taken@, k)) && forall|k: u32|
                (#[trigger] given@.contains_key(k) ==> k < limit) && (#[trigger]
                taken@.contains_key(k) ==> k < limit),
            Err(PassBuildError::InterfaceMismatch(l)) => mismatched(given@, taken@, l) && forall|
                k: u32,
            |
                k < l ==> !#[trigger] mismatched(given@, taken@, k),
            Err(PassBuildError::TooManyVaryings(l, max)) => max == limit && l >= limit
                && is_greatest(given@, taken@, l) && forall|k: u32|
                !#[trigger] mismatched(given@, taken@, k),
            Err(PassBuildError::Translate(_)) => false,
        },
{
    if let Some(l) = first_mismatch(given, taken) {
        return Err(PassBuildError::InterfaceMismatch(l));
    }
    let top: Option<u32> = match (greatest(given), greatest(taken)) {
        (Some(a), Some(b)) => if a > b {
            Some(a)
        } else {
            Some(b)
        },
        (Some(a), None) => Some(a),
        (None, b) => b,
    };
    if let Some(l) = top {
        if l >= limit {
            assert(is_greatest(given@, taken@, l));
            return Err(PassBuildError::TooManyVaryings(l, limit));
        }
    }
    Ok(())
}

/// What a variable is bound as; none for what is not bound or not read.
pub open spec fn binding_of(types: Seq<TypeModel>, g: GlobalOutline) -> Option<ModuleBinding> {
    match (g.binding, g.space) {
        (Some(b), Space::Uniform) => Some(ModuleBinding { binding: b, kind: BindKind::Ubo }),
        (Some(b), Space::Handle) => match type_at(types, g.ty as int) {
            TypeModel::Image => Some(ModuleBinding { binding: b, kind: BindKind::Texture }),
            TypeModel::Sampler => Some(ModuleBinding { binding: b, kind: BindKind::Sampler }),
            _ => None,
        },
        _ => None,
    }
}

/// What the first `k` variables are bound as.
pub open spec fn bindings_upto(
    types: Seq<TypeModel>,
    globals: Seq<GlobalOutline>,
    k: int,
) -> Seq<ModuleBinding>
    decreases k,
{
    if k <= 0 {
        Seq::empty()
    } else {
        match binding_of(types, globals[k - 1]) {
            Some(b) => bindings_upto(types, globals, k - 1).push(b),
            None => bindings_upto(types, globals, k - 1),
        }
    }
}

/// Numbers by which bindings are ordered.
pub open spec fn binding_keys(list: Seq<ModuleBinding>) -> Seq<i64> {
    Seq::new(list.len(), |i: int| list[i].binding as i64)
}

/// What the variables of a module are bound as, by binding.
pub open spec fn bindings_of(types: Seq<TypeModel>, globals: Seq<GlobalOutline>) -> Seq<
    ModuleBinding,
> {
    let list = bindings_upto(types, globals, globals.len() as int);
    crate::frame::picked(list, sorted_positions(binding_keys(list), list.len() as int))
}

fn find_binding(types: &Vec<TypeOutline>, g: &GlobalOutline) -> (r: Option<ModuleBinding>)
    ensures
        r == binding_of(views(types@), *g),
{
    let binding = match g.binding {
        Some(b) => b,
        None => {
            return None;
        },
    };
    match g.space {
        Space::Uniform => Some(ModuleBinding { binding, kind: BindKind::Ubo }),
        Space::Handle => if g.ty < types.len() {
            assert(views(types@)[g.ty as int] == types@[g.ty as int]@);
            match &types[g.ty] {
                TypeOutline::Image => Some(ModuleBinding { binding, kind: BindKind::Texture }),
                TypeOutline::Sampler => Some(ModuleBinding { binding, kind: BindKind::Sampler }),
                _ => None,
            }
        } else {
            None
        },
        Space::Other => None,
    }
}

/// What variables are bound as, by binding.
pub fn bindings_in(types: &Vec<TypeOutline>, globals: &Vec<GlobalOutline>) -> (r: Vec<ModuleBinding>)
    ensures
        r@ == bindings_of(views(types@), globals@),
{
    let ghost all = views(types@);
    let mut list: Vec<ModuleBinding> = Vec::new();
    let mut keys: Vec<i64> = Vec::new();
    let mut i: usize = 0;
    while i < globals.len()
        invariant
            i <= globals@.len(),
            all == views(types@),
            list@ == bindings_upto(all, globals@, i as int),
            keys@ =~= binding_keys(list@),
        decreases globals@.len() - i,
    {
        if let Some(b) = find_binding(types, &globals[i]) {
            list.push(b);
            keys.push(b.binding as i64);
        }
        i += 1;
    }
    let order = draw_positions(&keys, true);
    let ghost positions = sorted_positions(keys@, keys@.len() as int);
    let mut out: Vec<ModuleBinding> = Vec::new();
    let mut k: usize = 0;
    while k < order.len()
        invariant
            k <= order@.len(),
            order@.len() == list@.len(),
            ints(order@) == positions,
            out@.len() == k,
            forall|j: int| 0 <= j < order@.len() ==> (#[trigger] order@[j]) < list@.len(),
            forall|j: int| 0 <= j < k ==> #[trigger] out@[j] == list@[positions[j]],
        decreases order@.len() - k,
    {
        assert(positions[k as int] == order@[k as int] as int);
        out.push(list[order[k]]);
        k += 1;
    }
    assert(out@ =~= bindings_of(all, globals@));
    out
}

/// What the variables of a module are bound as, by binding.
pub fn module_bindings(module: &naga::Module) -> (r: Vec<ModuleBinding>)
    ensures
        r@ == bindings_of(module_types(*module), module_globals(*module)),
{
    let types = read_types(module);
    let globals = read_globals(module);
    bindings_in(&types, &globals)
}

/// The position of the type of the first uniform variable, at or after `from`.
pub open spec fn uniform_type(globals: Seq<GlobalOutline>, from: int) -> Option<usize>
    decreases globals.len() - from,
{
    if from < 0 || from >= globals.len() {
        None
    } else if globals[from].space == Space::Uniform {
        Some(globals[from].ty)
    } else {
        uniform_type(globals, from + 1)
    }
}

/// The name of a field: its own, or else the one that the shader's list has
/// for it.
pub open spec fn field_name(f: FieldModel, names: Seq<Seq<char>>, i: int) -> Seq<char> {
    match f.name {
        Some(n) => n,
        None => if i < names.len() {
            names[i]
        } else {
            Seq::empty()
        },
    }
}

/// How a block is laid out: as the structure of the first uniform variable is,
/// or else as its names ask for.
pub open spec fn module_layout(
    types: Seq<TypeModel>,
    globals: Seq<GlobalOutline>,
    names: Seq<Seq<char>>,
    params: Map<Seq<char>, GlType>,
) -> LayoutModel {
    match uniform_type(globals, 0) {
        Some(ty) => match type_at(types, ty as int) {
            TypeModel::Struct { fields, span } => LayoutModel {
                members: Seq::new(
                    fields.len(),
                    |i: int|
                        MemberModel {
                            name: field_name(fields[i], names, i),
                            ty: member_type(field_name(fields[i], names, i), params),
                            offset: fields[i].offset as usize,
                        },
                ),
                size: span as usize,
            },
            _ => layout_of(names, params),
        },
        None => layout_of(names, params),
    }
}

fn member_of(f: &FieldOutline, names: &Vec<String>, i: usize, params: &TextMap<GlType>) -> (r: Member)
    ensures
        r@.name == field_name(f@, views(names@), i as int),
        r@.ty == member_type(r@.name, params@),
        r@.offset == f@.offset,
{
    let name: String = match &f.name {
        Some(n) => n.clone(),
        None => if i < names.len() {
            assert(views(names@)[i as int] == names@[i as int]@);
            names[i].clone()
        } else {
            let empty = String::new();
            assert(empty@ =~= Seq::empty());
            empty
        },
    };
    let ty = match builtin_type(name.as_str()) {
        Some(t) => t,
        None => match params.get(name.as_str()) {
            Some(t) => *t,
            None => GlType::Float,
        },
    };
    Member { name, ty, offset: f.offset as usize }
}

/// How a block is laid out.
pub fn layout_in(
    types: &Vec<TypeOutline>,
    globals: &Vec<GlobalOutline>,
    names: &Vec<String>,
    params: &TextMap<GlType>,
) -> (r: GlobalsLayout)
    requires
        end_upto(views(names@), params@, names@.len() as int) + 15 <= usize::MAX,
    ensures
        r@ == module_layout(views(types@), globals@, views(names@), params@),
{
    let ghost all = views(types@);
    let mut i: usize = 0;
    while i < globals.len()
        invariant
            i <= globals@.len(),
            all == views(types@),
            end_upto(views(names@), params@, names@.len() as int) + 15 <= usize::MAX,
            uniform_type(globals@, 0) == uniform_type(globals@, i as int),
        decreases globals@.len() - i,
    {
        let g = globals[i];
        if let Space::Uniform = g.space {
            if g.ty < types.len() {
                assert(all[g.ty as int] == types@[g.ty as int]@);
                if let TypeOutline::Struct { fields, span } = &types[g.ty] {
                    let ghost goal = module_layout(all, globals@, views(names@), params@);
                    let ghost listed = views(fields@);
                    let mut members: Vec<Member> = Vec::new();
                    let mut k: usize = 0;
                    while k < fields.len()
                        invariant
                            k <= fields@.len(),
                            listed == views(fields@),
                            members@.len() == k,
                            goal.members.len() == fields@.len(),
                            forall|j: int|
                                0 <= j < fields@.len() ==> #[trigger] goal.members[j] == (
                                MemberModel {
                                    name: field_name(listed[j], views(names@), j),
                                    ty: member_type(
                                        field_name(listed[j], views(names@), j),
                                        params@,
                                    ),
                                    offset: listed[j].offset as usize,
                                }),
                            forall|j: int|
                                0 <= j < k ==> (#[trigger] members@[j])@ == goal.members[j],
                        decreases fields@.len() - k,
                    {
                        assert(listed[k as int] == fields@[k as int]@);
                        members.push(member_of(&fields[k], names, k, params));
                        k += 1;
                    }
                    let r = GlobalsLayout { members, size: *span as usize };
                    assert(r@.members =~= goal.members);
                    return r;
                }
            }
            return GlobalsLayout::build(names, params);
        }
        i += 1;
    }
    GlobalsLayout::build(names, params)
}

/// How the block of a module is laid out.
pub fn globals_layout(
    module: &naga::Module,
    globals_block: &Vec<String>,
    params: &TextMap<GlType>,
) -> (r: GlobalsLayout)
    requires
        end_upto(views(globals_block@), params@, globals_block@.len() as int) + 15 <= usize::MAX,
    ensures
        r@ == module_layout(
            module_types(*module),
            module_globals(*module),
            views(globals_block@),
            params@,
        ),
{
    let types = read_types(module);
    let globals = read_globals(module);
    layout_in(&types, &globals, globals_block, params)
}

} // verus!
