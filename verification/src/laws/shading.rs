//! What shaders are made from, how they are bound, and how they are mixed.
use vstd::prelude::*;

use crate::blend::{blend_of, BlendFactor, BlendOperation};
use crate::draw::{geometry_matrix, name_at, target_of, DrawTarget, PassMatrix};
use crate::glsl::{
    declared, declares_array, joined, line_is_dead, lines, live_lines, pinned_line, replaced, sane,
    stripped, Stage,
};
use crate::images::{cropped, fitted_size, region_fits, Region};
use crate::keys::{hex_char, hex_digits, with_length};
use crate::markup::{file_part, last_point, stem_of};
use crate::material::{Blending, PassModel};
use crate::modules::{
    binding_of, bindings_upto, mismatched, module_layout, ports_of, type_at, uniform_type, width_of,
    with_fields, with_port, EntryModel, FieldModel, GlobalOutline, IoDir, PortOutline, Space,
    TypeModel,
};
use crate::passes::small_combos;
use crate::plan::{Geometry, Output};
use crate::raster::{exponent_of, mantissa_of, painted, Block, RasterModel};
use crate::slots::{BindKind, ModuleBinding};
use crate::strings::{first_at, stands_at};
use crate::translation::{following, realigned, started, Round, TranslationModel};
use crate::uniforms::{member_type, GlType};

verus! {

/// How a pass mixes with what is there: a normal one replaces it, a
/// translucent one covers it by its alpha, and an additive one adds to it.
pub proof fn law_modes_mix_as_named(mode: Blending)
    ensures
        blend_of(Blending::Normal).color.src_factor == BlendFactor::One && blend_of(
            Blending::Normal,
        ).color.dst_factor == BlendFactor::Zero,
        blend_of(Blending::Normal).alpha == blend_of(Blending::Normal).color,
        blend_of(Blending::Translucent).color.src_factor == BlendFactor::SrcAlpha && blend_of(
            Blending::Translucent,
        ).color.dst_factor == BlendFactor::OneMinusSrcAlpha,
        blend_of(Blending::Translucent).alpha.src_factor == BlendFactor::One && blend_of(
            Blending::Translucent,
        ).alpha.dst_factor == BlendFactor::OneMinusSrcAlpha,
        blend_of(Blending::Additive).color.src_factor == BlendFactor::SrcAlpha && blend_of(
            Blending::Additive,
        ).color.dst_factor == BlendFactor::One,
        blend_of(Blending::Additive).alpha == blend_of(Blending::Additive).color,
        blend_of(mode).color.operation == BlendOperation::Add && blend_of(mode).alpha.operation
            == BlendOperation::Add,
{
}

/// What is drawn in the scene is placed by the scene's matrix, a puppet in its
/// own picture by its own, and a copy is not moved.
pub proof fn law_shapes_have_their_matrix()
    ensures
        geometry_matrix(Geometry::Scene) == PassMatrix::Screen,
        geometry_matrix(Geometry::Puppet) == PassMatrix::Screen,
        geometry_matrix(Geometry::SceneCopy) == PassMatrix::Screen,
        geometry_matrix(Geometry::PuppetCopy) == PassMatrix::Model,
        geometry_matrix(Geometry::Copy) == PassMatrix::Identity,
        geometry_matrix(Geometry::Pass) == PassMatrix::Identity,
{
}

proof fn lemma_name_at(names: Seq<Seq<char>>, name: Seq<char>, from: int, i: int)
    requires
        0 <= from <= i < names.len(),
        names[i] == name,
        forall|j: int| 0 <= j < i ==> names[j] != name,
    ensures
        name_at(names, name, from) == Some(i),
    decreases i - from,
{
    if from < i {
        lemma_name_at(names, name, from + 1, i);
    }
}

/// A pass draws into the target that it names: the scene, one of the layer's
/// two pictures, or a target of its own.
pub proof fn law_passes_draw_into_their_target(composites: (bool, bool), names: Seq<Seq<char>>, n: Seq<char>, i: int)
    ensures
        target_of(Output::Scene, composites, names) == DrawTarget::Scene,
        composites.0 ==> target_of(Output::Fbo(0), composites, names) == DrawTarget::Composite(0),
        composites.1 ==> target_of(Output::Fbo(1), composites, names) == DrawTarget::Composite(1),
        0 <= i < names.len() && names.len() <= usize::MAX && names[i] == n && (forall|j: int|
            0 <= j < i ==> names[j] != n) ==> target_of(Output::Named(n), composites, names)
            == DrawTarget::Named(i as usize),
{
    if 0 <= i < names.len() && names[i] == n && (forall|j: int| 0 <= j < i ==> names[j] != n) {
        lemma_name_at(names, n, 0, i);
    }
}

/// What a location of an entry point holds is as wide as its type: one for a
/// number, as many as it has for a vector.
pub proof fn law_locations_have_their_width(shapes: Map<u32, u8>, types: Seq<TypeModel>, p: PortOutline, l: u32, n: u8, other: u32)
    requires
        p.ty < types.len(),
        p.location == Some(l),
    ensures
        with_port(shapes, types, p).contains_key(l),
        types[p.ty as int] is Scalar ==> with_port(shapes, types, p)[l] == 1,
        types[p.ty as int] == TypeModel::Vector(n) ==> with_port(shapes, types, p)[l] == n,
        other != l && shapes.contains_key(other) ==> with_port(shapes, types, p)[other] == shapes[other],
{
}

/// The fields of a structure that have a location are put in one by one.
pub proof fn law_fields_have_their_width(shapes: Map<u32, u8>, types: Seq<TypeModel>, fields: Seq<FieldModel>, k: int, i: int, l: u32)
    requires
        0 <= i < k <= fields.len(),
        fields[i].location == Some(l),
        forall|j: int| i < j < k ==> (#[trigger] fields[j]).location != Some(l),
    ensures
        with_fields(shapes, types, fields, k).contains_key(l),
        with_fields(shapes, types, fields, k)[l] == width_of(type_at(types, fields[i].ty as int)),
    decreases k,
{
    if i < k - 1 {
        assert(fields[k - 1].location != Some(l));
        law_fields_have_their_width(shapes, types, fields, k - 1, i, l);
    }
}

/// A vertex stage gives what its first entry point returns; a fragment stage
/// takes what its first entry point is given.
pub proof fn law_stages_give_and_take(entries: Seq<EntryModel>, p: PortOutline)
    ensures
        entries.len() == 0 ==> ports_of(entries, IoDir::Input).len() == 0 && ports_of(
            entries,
            IoDir::Output,
        ).len() == 0,
        entries.len() > 0 ==> ports_of(entries, IoDir::Input) == entries[0].arguments,
        entries.len() > 0 && entries[0].result == Some(p) ==> ports_of(entries, IoDir::Output) == seq![p],
        entries.len() > 0 && entries[0].result is None ==> ports_of(entries, IoDir::Output).len() == 0,
{
}

/// Two stages disagree at a location that one takes, and the other does not
/// give or gives in another width.
pub proof fn law_stages_disagree_where_they_differ(given: Map<u32, u8>, taken: Map<u32, u8>, l: u32)
    ensures
        taken.contains_key(l) && !given.contains_key(l) ==> mismatched(given, taken, l),
        taken.contains_key(l) && given.contains_key(l) && given[l] != taken[l] ==> mismatched(given, taken, l),
        taken.contains_key(l) && given.contains_key(l) && given[l] == taken[l] ==> !mismatched(given, taken, l),
        !taken.contains_key(l) ==> !mismatched(given, taken, l),
{
}

/// A variable of a shader is bound as what it is: the block of values, a
/// texture or a sampler; anything else, or one without a number, is not bound.
pub proof fn law_variables_are_bound_as_what_they_are(types: Seq<TypeModel>, g: GlobalOutline, b: u32)
    ensures
        g.binding is None ==> binding_of(types, g) is None,
        g.binding == Some(b) && g.space == Space::Uniform ==> binding_of(types, g) == Some(
            ModuleBinding { binding: b, kind: BindKind::Ubo },
        ),
        g.binding == Some(b) && g.space == Space::Handle && g.ty < types.len() && types[g.ty as int] is Image
            ==> binding_of(types, g) == Some(ModuleBinding { binding: b, kind: BindKind::Texture }),
        g.binding == Some(b) && g.space == Space::Handle && g.ty < types.len() && types[g.ty as int] is Sampler
            ==> binding_of(types, g) == Some(ModuleBinding { binding: b, kind: BindKind::Sampler }),
        g.space == Space::Other ==> binding_of(types, g) is None,
{
}

/// Every variable that is bound is in the list of bindings.
pub proof fn law_all_bindings_are_listed(types: Seq<TypeModel>, globals: Seq<GlobalOutline>, k: int, i: int)
    requires
        0 <= i < k <= globals.len(),
        binding_of(types, globals[i]) is Some,
    ensures
        bindings_upto(types, globals, k).contains(binding_of(types, globals[i])->0),
    decreases k,
{
    let now = bindings_upto(types, globals, k);
    let before = bindings_upto(types, globals, k - 1);
    let b = binding_of(types, globals[i])->0;
    if i < k - 1 {
        law_all_bindings_are_listed(types, globals, k - 1, i);
        let j = before.index_of(b);
        assert(now[j] == b);
    } else {
        assert(now[now.len() - 1] == b);
    }
}

/// The values of a shader's block stand where the shader has them: at the
/// field's own offset, under the field's own name, in a block as long as the
/// shader's.
pub proof fn law_blocks_are_laid_out_as_the_shader_has_them(
    types: Seq<TypeModel>,
    globals: Seq<GlobalOutline>,
    names: Seq<Seq<char>>,
    params: Map<Seq<char>, GlType>,
    fields: Seq<FieldModel>,
    span: u32,
    i: int,
)
    requires
        globals.len() > 0,
        globals[0].space == Space::Uniform,
        globals[0].ty < types.len(),
        types[globals[0].ty as int] == (TypeModel::Struct { fields, span }),
        0 <= i < fields.len(),
    ensures
        ({
            let l = module_layout(types, globals, names, params);
            &&& l.size == span
            &&& l.members.len() == fields.len()
            &&& l.members[i].offset == fields[i].offset
            &&& fields[i].name is Some ==> l.members[i].name == fields[i].name->0
            &&& fields[i].name is None && i < names.len() ==> l.members[i].name == names[i]
            &&& l.members[i].ty == member_type(l.members[i].name, params)
        }),
{
    assert(uniform_type(globals, 0) == Some(globals[0].ty));
}

/// A pass is first translated as it is; where its stages disagree, once more
/// with sources that agree; and then with the switches that either stage
/// turned on.
pub proof fn law_translations_go_on_while_stages_disagree(
    t: TranslationModel,
    disagree: bool,
    vs: Map<Seq<char>, i32>,
    fs: Map<Seq<char>, i32>,
    pass: PassModel,
    a: Seq<char>,
    b: Seq<char>,
    k: Seq<char>,
)
    ensures
        t.round == Round::First && !disagree ==> following(t, disagree, vs, fs) is None,
        t.round == Round::First && disagree ==> (following(t, disagree, vs, fs) matches Some(u) && u.round
            == Round::Aligned && u.combos == t.combos && u.slots == t.slots && u.override_combos
            == t.override_combos && (u.vs, u.fs) == realigned(t.vs, t.fs)),
        t.round == Round::Aligned ==> (following(t, disagree, vs, fs) matches Some(u) && u.round
            == Round::Shared && u.vs == t.vs && u.fs == t.fs && u.combos == t.combos && (
        u.override_combos.contains_key(k) <==> vs.contains_key(k) || fs.contains_key(k))),
        t.round == Round::Shared ==> following(t, disagree, vs, fs) is None,
        started(pass, Round::First, a, b).vs == a && started(pass, Round::First, a, b).fs == b,
        started(pass, Round::First, a, b).round == Round::First,
        started(pass, Round::First, a, b).combos == small_combos(pass.combos),
{
}

/// A line that declares a varying with a place among the names is told its
/// location, and otherwise stays as it is; so does any other line.
pub proof fn law_lines_are_told_their_location(line: Seq<char>, names: Seq<Seq<char>>, n: Seq<char>, i: int)
    ensures
        declared(line) is None ==> pinned_line(line, names) == line,
        declared(line) == Some(n) && 0 <= i < names.len() && names[i] == n && (forall|j: int|
            0 <= j < i ==> names[j] != n) ==> exists|w: int|
            0 <= w <= line.len() && pinned_line(line, names) == #[trigger] line.take(w) + "layout(location = "@
                + crate::strings::decimal(i) + ") "@ + line.skip(w),
{
    if declared(line) == Some(n) && 0 <= i < names.len() && names[i] == n && (forall|j: int|
        0 <= j < i ==> names[j] != n) {
        lemma_name_at(names, n, 0, i);
        let w = crate::value::after_white(line, 0);
        lemma_after_white(line, 0);
        assert(line.take(w) == line.take(w));
    }
}

proof fn lemma_after_white(s: Seq<char>, from: int)
    requires
        0 <= from <= s.len(),
    ensures
        from <= crate::value::after_white(s, from) <= s.len(),
    decreases s.len() - from,
{
    if from < s.len() && crate::value::white(s[from]) {
        lemma_after_white(s, from + 1);
    }
}

/// A fragment source keeps every line but those that declare a varying that
/// the vertex source does not declare and that nothing else in it names.
pub proof fn law_live_lines_stay(vs: Seq<char>, fs: Seq<char>, k: int, i: int)
    requires
        0 <= i < k <= lines(fs).len(),
    ensures
        !line_is_dead(vs, fs, lines(fs)[i]) ==> live_lines(vs, fs, k).contains(lines(fs)[i]),
        forall|j: int|
            0 <= j < live_lines(vs, fs, k).len() ==> !line_is_dead(vs, fs, #[trigger] live_lines(vs, fs, k)[j]),
    decreases k,
{
    let now = live_lines(vs, fs, k);
    let before = live_lines(vs, fs, k - 1);
    let line = lines(fs)[i];
    if k > 1 {
        law_live_lines_stay(vs, fs, k - 1, if i < k - 1 { i } else { 0 });
    }
    if !line_is_dead(vs, fs, line) {
        if i < k - 1 {
            let j = before.index_of(line);
            assert(now[j] == line);
        } else {
            assert(now[now.len() - 1] == line);
        }
    }
    assert forall|j: int| 0 <= j < now.len() implies !line_is_dead(vs, fs, #[trigger] now[j]) by {
        if j < before.len() {
            assert(now[j] == before[j]);
        }
    }
}

proof fn lemma_first_at(s: Seq<char>, p: Seq<char>, from: int)
    requires
        0 <= from <= s.len(),
        p.len() > 0,
    ensures
        match first_at(s, p, from) {
            Some(i) => from <= i && stands_at(s, p, i) && forall|j: int|
                from <= j < i ==> !#[trigger] stands_at(s, p, j),
            None => forall|j: int| from <= j ==> !#[trigger] stands_at(s, p, j),
        },
    decreases s.len() - from,
{
    if from + p.len() <= s.len() && !stands_at(s, p, from) {
        lemma_first_at(s, p, from + 1);
    }
}

/// A text in which a word does not stand is not changed by replacing the word;
/// one in which it stands has the other word in its place, first to last.
pub proof fn law_words_are_replaced(s: Seq<char>, p: Seq<char>, r: Seq<char>, i: int)
    requires
        p.len() > 0,
    ensures
        (forall|j: int| 0 <= j ==> !#[trigger] stands_at(s, p, j)) ==> replaced(s, p, r, 0) == s,
        stands_at(s, p, i) && (forall|j: int| 0 <= j < i ==> !#[trigger] stands_at(s, p, j)) ==> replaced(
            s,
            p,
            r,
            0,
        ) == s.take(i) + r + replaced(s, p, r, i + p.len()),
{
    lemma_first_at(s, p, 0);
    assert(s.skip(0) =~= s);
    if stands_at(s, p, i) && (forall|j: int| 0 <= j < i ==> !#[trigger] stands_at(s, p, j)) {
        assert(first_at(s, p, 0) == Some(i));
        assert(s.subrange(0, i) =~= s.take(i));
    }
}

/// A fragment stage asks for the place of its fragment where it asked for the
/// place of a vertex; a vertex stage is not changed in that.
pub proof fn law_fragments_ask_for_their_place(src: Seq<char>)
    ensures
        sane(src, Stage::Fragment) == replaced(sane(src, Stage::Vertex), "gl_Position"@, "gl_FragCoord"@, 0),
{
}

/// A picture that fits is not shrunk, and neither side becomes nothing.
pub proof fn law_pictures_that_fit_stay(width: u32, height: u32, ceiling: u32)
    ensures
        1 <= width <= ceiling && 1 <= height <= ceiling ==> fitted_size(width, height, ceiling) == (width, height),
        fitted_size(width, height, ceiling).0 >= 1 && fitted_size(width, height, ceiling).1 >= 1,
{
}

/// A part of a picture has the pixels that the picture has there, row by row.
pub proof fn law_parts_have_the_pixels_of_the_picture(
    pixels: Seq<u8>,
    width: u32,
    height: u32,
    r: Region,
    x: int,
    y: int,
    c: int,
)
    requires
        region_fits(r, width, height),
        pixels.len() == width * height * 4,
        0 <= x < r.width,
        0 <= y < r.height,
        0 <= c < 4,
    ensures
        cropped(pixels, width as int, r).len() == r.width * r.height * 4,
        cropped(pixels, width as int, r)[(y * r.width + x) * 4 + c] == pixels[((r.y + y) * width + r.x + x) * 4 + c],
{
    let w = r.width as int;
    let row = w * 4;
    let i = (y * w + x) * 4 + c;
    let rest = x * 4 + c;
    assert(i == y * row + rest) by (nonlinear_arith)
        requires
            i == (y * w + x) * 4 + c,
            row == w * 4,
            rest == x * 4 + c,
    ;
    assert(0 <= rest < row);
    vstd::arithmetic::div_mod::lemma_fundamental_div_mod_converse(i, row, y, rest);
    assert(0 <= i < w * r.height * 4) by (nonlinear_arith)
        requires
            i == y * row + rest,
            0 <= rest < row,
            0 <= y < r.height,
            row == w * 4,
            w >= 1,
    ;
    let q = width as int;
    let top = r.y as int + y;
    assert((top * q + r.x + x) * 4 + c == top * (q * 4) + r.x * 4 + rest) by (nonlinear_arith)
        requires
            rest == x * 4 + c,
    ;
}

/// The length that bytes are put behind is their own, the lowest byte first.
pub proof fn law_lengths_stand_before_their_bytes(bytes: Seq<u8>)
    requires
        bytes.len() <= u32::MAX,
    ensures
        with_length(bytes).len() == bytes.len() + 4,
        with_length(bytes).skip(4) == bytes,
        with_length(bytes)[0] + with_length(bytes)[1] * 0x100 + with_length(bytes)[2] * 0x1_0000
            + with_length(bytes)[3] * 0x100_0000 == bytes.len(),
{
    assert(with_length(bytes).skip(4) =~= bytes);
}

/// A number in hexadecimal digits has the digits that it asks for, and two
/// numbers that fit have the same digits only if they are the same.
pub proof fn law_hexadecimal_digits_tell_numbers_apart(a: nat, b: nat, k: nat)
    requires
        a < vstd::arithmetic::power2::pow2(4 * k),
        b < vstd::arithmetic::power2::pow2(4 * k),
    ensures
        hex_digits(a, k).len() == k,
        hex_digits(a, k) == hex_digits(b, k) ==> a == b,
    decreases k,
{
    use_pow2_step(k);
    if k > 0 {
        let p = vstd::arithmetic::power2::pow2((4 * (k - 1)) as nat);
        assert(a / 16 < p && b / 16 < p);
        law_hexadecimal_digits_tell_numbers_apart(a / 16, b / 16, (k - 1) as nat);
        if hex_digits(a, k) == hex_digits(b, k) {
            let x = hex_digits(a, k);
            let y = hex_digits(b, k);
            assert(x.drop_last() =~= hex_digits(a / 16, (k - 1) as nat));
            assert(y.drop_last() =~= hex_digits(b / 16, (k - 1) as nat));
            assert(x.last() == hex_char((a % 16) as int));
            assert(y.last() == hex_char((b % 16) as int));
            assert(hex_char((a % 16) as int) as u32 == if a % 16 < 10 { 48 + a % 16 } else { 87 + a % 16 });
            assert(hex_char((b % 16) as int) as u32 == if b % 16 < 10 { 48 + b % 16 } else { 87 + b % 16 });
        }
    }
}

proof fn use_pow2_step(k: nat)
    ensures
        k == 0 ==> vstd::arithmetic::power2::pow2(4 * k) == 1,
        k > 0 ==> vstd::arithmetic::power2::pow2(4 * k) == 16 * vstd::arithmetic::power2::pow2(
            (4 * (k - 1)) as nat,
        ),
{
    vstd::arithmetic::power2::lemma2_to64();
    if k > 0 {
        vstd::arithmetic::power2::lemma_pow2_adds((4 * (k - 1)) as nat, 4);
        assert((4 * (k - 1)) as nat + 4 == 4 * k);
    }
}

/// A block paints the pixels that it lies over, white and as covered as it is,
/// where they are covered less; all others stay.
pub proof fn law_blocks_paint_what_they_lie_over(b: Block, r: RasterModel, x: int, y: int)
    requires
        r.valid(),
        0 <= x < r.width,
        0 <= y < r.height,
    ensures
        ({
            let p = (y * r.width + x) * 4;
            let inside = b.x <= x < b.x + b.width && b.y <= y < b.y + b.height;
            let after = painted(b, r);
            &&& after.pixels.len() == r.pixels.len()
            &&& inside && b.coverage > r.pixels[p + 3] ==> after.pixels[p] == 255 && after.pixels[p + 1]
                == 255 && after.pixels[p + 2] == 255 && after.pixels[p + 3] == b.coverage
            &&& !inside || b.coverage <= r.pixels[p + 3] ==> after.pixels[p] == r.pixels[p]
                && after.pixels[p + 1] == r.pixels[p + 1] && after.pixels[p + 2] == r.pixels[p + 2]
                && after.pixels[p + 3] == r.pixels[p + 3]
            &&& after.width == r.width && after.height == r.height
        }),
{
    let w = r.width as int;
    let i = y * w + x;
    vstd::arithmetic::div_mod::lemma_fundamental_div_mod_converse(i, w, y, x);
    assert(0 <= i < w * r.height) by (nonlinear_arith)
        requires
            i == y * w + x,
            0 <= x < w,
            0 <= y < r.height,
    ;
    let p = i * 4;
    assert(p / 4 == i && (p + 1) / 4 == i && (p + 2) / 4 == i && (p + 3) / 4 == i);
    assert(p % 4 == 0 && (p + 1) % 4 == 1 && (p + 2) % 4 == 2 && (p + 3) % 4 == 3);
}

/// The name of a file is what stands behind its last slash, of either kind.
pub proof fn law_file_names_stand_behind_the_last_slash(s: Seq<char>)
    ensures
        !file_part(s).contains('/') && !file_part(s).contains('\\'),
        file_part(s).len() <= s.len(),
        s.skip(s.len() - file_part(s).len()) == file_part(s),
        file_part(s).len() < s.len() ==> s[s.len() - file_part(s).len() - 1] == '/' || s[s.len()
            - file_part(s).len() - 1] == '\\',
    decreases s.len(),
{
    if s.len() > 0 && s.last() != '/' && s.last() != '\\' {
        let before = s.drop_last();
        law_file_names_stand_behind_the_last_slash(before);
        let p = file_part(s);
        let q = file_part(before);
        assert forall|i: int| 0 <= i < q.len() implies s[s.len() - p.len() + i] == q[i] by {
            assert(before.skip(before.len() - q.len())[i] == q[i]);
        }
        assert(s.skip(s.len() - p.len()) =~= p);
        assert forall|c: char| (c == '/' || c == '\\') implies !p.contains(c) by {
            if p.contains(c) {
                let i = p.index_of(c);
                assert(i < p.len() - 1);
                assert(q[i] == c);
            }
        }
    } else {
        assert(s.skip(s.len() as int) =~= Seq::<char>::empty());
    }
}

proof fn lemma_last_point(s: Seq<char>, to: int)
    requires
        0 <= to <= s.len(),
    ensures
        match last_point(s, to) {
            Some(i) => 0 <= i < to && s[i] == '.' && forall|j: int| i < j < to ==> s[j] != '.',
            None => forall|j: int| 0 <= j < to ==> s[j] != '.',
        },
    decreases to,
{
    if to > 0 && s[to - 1] != '.' {
        lemma_last_point(s, to - 1);
    }
}

/// The stem of a name is what stands before its last point, or all of it.
pub proof fn law_stems_stand_before_the_last_point(s: Seq<char>, i: int)
    ensures
        !s.contains('.') ==> stem_of(s) == s,
        0 <= i < s.len() && s[i] == '.' && (forall|j: int| i < j < s.len() ==> s[j] != '.') ==> stem_of(s)
            == s.take(i),
{
    lemma_last_point(s, s.len() as int);
    if !s.contains('.') {
        assert forall|j: int| 0 <= j < s.len() implies s[j] != '.' by {
            assert(s.contains(s[j]));
        }
    }
}

/// Lines are put together with an end of line between each two.
pub proof fn law_lines_are_put_together(ls: Seq<Seq<char>>, line: Seq<char>)
    ensures
        joined(Seq::empty(), 0).len() == 0,
        ls.len() == 0 ==> joined(ls.push(line), 1) == line,
        ls.len() > 0 ==> joined(ls.push(line), ls.len() as int + 1) == joined(ls, ls.len() as int) + "\n"@ + line,
{
    lemma_joined(ls.push(line), ls, ls.len() as int);
}

proof fn lemma_joined(a: Seq<Seq<char>>, b: Seq<Seq<char>>, k: int)
    requires
        0 <= k <= a.len(),
        k <= b.len(),
        forall|i: int| 0 <= i < k ==> a[i] == b[i],
    ensures
        joined(a, k) == joined(b, k),
    decreases k,
{
    if k > 0 {
        lemma_joined(a, b, k - 1);
    }
}

/// No line of a text holds an end of line, and a text without one is a line,
/// unless it is empty.
pub proof fn law_lines_hold_no_end_of_line(s: Seq<char>, i: int)
    ensures
        0 <= i < lines(s).len() ==> !lines(s)[i].contains('\n'),
        s.len() == 0 ==> lines(s).len() == 0,
        s.len() > 0 && !s.contains('\n') ==> lines(s) == seq![s],
{
    super::values::law_texts_are_their_pieces(s, '\n');
    let p = crate::strings::split(s, '\n');
    if 0 <= i < lines(s).len() {
        assert(!p[i].contains('\n'));
        let line = lines(s)[i];
        if line.contains('\n') {
            let j = line.index_of('\n');
            assert(p[i][j] == '\n');
        }
    }
    if !s.contains('\n') {
        lemma_no_end(s, 0);
        assert(p =~= seq![s]);
        if s.len() > 0 {
            assert(lines(s) =~= seq![s]);
        }
    }
}

proof fn lemma_no_end(s: Seq<char>, from: int)
    requires
        !s.contains('\n'),
        0 <= from <= s.len(),
    ensures
        crate::strings::index_of(s, '\n', from) is None,
    decreases s.len() - from,
{
    if from < s.len() {
        assert(s.contains(s[from]));
        lemma_no_end(s, from + 1);
    }
}

/// Sources that disagree are made to agree: what is dead in the fragment
/// source goes, and both sources are told the locations of one list of names;
/// where either declares an array, the locations are left alone.
pub proof fn law_sources_are_made_to_agree(vs: Seq<char>, fs: Seq<char>)
    ensures
        ({
            let rest = stripped(vs, fs);
            let names = crate::glsl::varying_names(vs, rest);
            let arrays = (exists|i: int| 0 <= i < lines(vs).len() && declares_array(#[trigger] lines(vs)[i]))
                || (exists|i: int| 0 <= i < lines(rest).len() && declares_array(#[trigger] lines(rest)[i]));
            &&& arrays ==> realigned(vs, fs) == (vs, rest)
            &&& !arrays ==> realigned(vs, fs) == (
                crate::glsl::pinned(vs, names),
                crate::glsl::pinned(rest, names),
            )
        }),
{
}

/// A single above zero is its mantissa times a power of two: the two together
/// are all of its bits.
pub proof fn law_singles_are_mantissa_and_exponent(b: u32)
    requires
        0 < b < 0x7f80_0000,
    ensures
        exponent_of(b) >= 1,
        0 < mantissa_of(b) < 0x100_0000,
        b >= 0x80_0000 ==> mantissa_of(b) >= 0x80_0000,
        exponent_of(b) * 0x80_0000 + mantissa_of(b) - 0x80_0000 == b,
{
}

} // verus!
