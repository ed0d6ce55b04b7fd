//! What the files of a scene give it, and what is told of music and textures.
use vstd::prelude::*;

use super::members::{holds, lacks, law_members_are_found_by_name};
use crate::assets::{
    complaints, document, loaded_effect, loaded_image, loaded_particle, loaded_scene, model_in,
    Answer, EffectAnswers, ImageAnswers, ObjectAnswers, ParticleAnswers,
};
use crate::json::{Members, Tree};
use crate::loading::{
    component_start, entry_of, file_name_of, file_stem_of, named_properties, path_end, project_file,
};
use crate::material::{effect_file_of, material_of, PassModel};
use crate::media::{changes_of, hex_colour, utc_offset, MediaEvent, PrevModel};
use crate::models::{sizes_upto, SizeModel};
use crate::object::{EffectModel, ImageModel, KindModel, ObjectModel, ParticleModel};
use crate::order::{draw_order, law_sorted_positions};
use crate::particle::system_of;
use crate::property::{Bag, Property};
use crate::resolve::resolved_object;
use crate::scene::SceneModelView;
use crate::slots::{names_file, SlotModel};
use crate::strings::{digit_char, lower};
use crate::templates::{
    answered, folded_member, material_number, number_words, remapped, template_in, word_end,
};
use crate::textures::{drawn_for, texture_key, TextureLookup, Variant};
use crate::value::{after_white, digits_value, float_len, hex_digit, white, Number};

verus! {

/// A file that is not there, or that is no document, is complained of under
/// its own path; one that can be read is not.
pub proof fn law_missing_files_are_complained_of(path: Seq<char>, a: Answer)
    ensures
        a is None ==> complaints(path, a).len() == 1 && document(a) is None,
        document(a) is Some ==> complaints(path, a).len() == 0,
        document(a) is None ==> complaints(path, a).len() == 1 && complaints(path, a)[0].path == path,
{
}

/// The model and the material of an image are what its files say; an image
/// whose files are missing keeps what it had, and everything else stays.
pub proof fn law_images_are_loaded(i: ImageModel, a: ImageAnswers, t: Tree, k: int)
    requires
        a.effects.len() == i.effects.len(),
    ensures
        ({
            let after = loaded_image(i, a);
            &&& model_in(a.model) is Some ==> after.model == model_in(a.model)
            &&& model_in(a.model) is None ==> after.model == i.model && after.material == i.material
            &&& model_in(a.model) is Some && document(a.material) == Some(t) ==> after.material == Some(
                material_of(t),
            )
            &&& document(a.material) is None ==> after.material == i.material
            &&& after.effects.len() == i.effects.len()
            &&& 0 <= k < i.effects.len() ==> after.effects[k] == loaded_effect(i.effects[k], a.effects[k])
            &&& after.alpha == i.alpha && after.color == i.color && after.visible == i.visible
                && after.brightness == i.brightness && after.scale == i.scale && after.angles == i.angles
                && after.size == i.size && after.image == i.image && after.alignment == i.alignment
                && after.parallax_depth == i.parallax_depth && after.color_blend_mode
                == i.color_blend_mode && after.animationlayers == i.animationlayers && after.instance
                == i.instance
        }),
{
}

/// An effect is what its file says, with the materials of its passes; what the
/// image says of it stays.
pub proof fn law_effects_are_loaded(e: EffectModel, a: EffectAnswers, t: Tree, m: Tree, k: int)
    requires
        document(a.file) == Some(t),
        a.materials.len() == effect_file_of(t).passes.len(),
        0 <= k < effect_file_of(t).passes.len(),
    ensures
        ({
            let after = loaded_effect(e, a);
            let file = effect_file_of(t);
            &&& after.file == e.file && after.id == e.id && after.name == e.name && after.visible
                == e.visible && after.passes == e.passes
            &&& after.resolved is Some
            &&& after.resolved->0.fbos == file.fbos && after.resolved->0.name == file.name
            &&& after.resolved->0.passes.len() == file.passes.len()
            &&& after.resolved->0.passes[k].bind == file.passes[k].bind
            &&& after.resolved->0.passes[k].target == file.passes[k].target
            &&& after.resolved->0.passes[k].material == file.passes[k].material
            &&& file.passes[k].material is Some && document(a.materials[k]) == Some(m)
                ==> after.resolved->0.passes[k].resolved == Some(material_of(m))
            &&& file.passes[k].material is None || document(a.materials[k]) is None
                ==> after.resolved->0.passes[k].resolved == file.passes[k].resolved
        }),
{
}

/// An effect without a readable file stays as it was.
pub proof fn law_missing_effects_stay(e: EffectModel, a: EffectAnswers)
    ensures
        document(a.file) is None ==> loaded_effect(e, a) == e,
{
}

/// A particle system is what its file says, with its material.
pub proof fn law_particles_are_loaded(p: ParticleModel, a: ParticleAnswers, t: Tree, m: Tree)
    ensures
        ({
            let after = loaded_particle(p, a);
            let system = if p.particle_file is Some && document(a.system) is Some {
                system_of(document(a.system)->0)
            } else {
                p.system
            };
            &&& after.system.emitters == system.emitters && after.system.maxcount == system.maxcount
                && after.system.material == system.material && after.system.operators == system.operators
            &&& system.material is Some && document(a.material) == Some(m)
                ==> after.system.resolved_material == Some(material_of(m))
            &&& system.material is None || document(a.material) is None ==> after.system.resolved_material
                == system.resolved_material
            &&& after.visible == p.visible && after.scale == p.scale && after.instanceoverride
                == p.instanceoverride && after.particle_file == p.particle_file
        }),
{
}

/// Loading a scene keeps its objects, and each of them is loaded with its own
/// files and then resolved.
pub proof fn law_scenes_are_loaded_object_by_object(s: SceneModelView, answers: Seq<ObjectAnswers>, bag: Bag, k: int, x: ImageAnswers, y: ParticleAnswers, i: ImageModel, p: ParticleModel)
    requires
        0 <= k < s.objects.len(),
        answers.len() == s.objects.len(),
    ensures
        ({
            let after = loaded_scene(s, answers, bag);
            &&& after.camera == s.camera && after.general == s.general
            &&& after.objects.len() == s.objects.len()
            &&& s.objects[k].kind == KindModel::Image(i) && answers[k] == ObjectAnswers::Image(x)
                ==> after.objects[k] == resolved_object(
                ObjectModel { kind: KindModel::Image(loaded_image(i, x)), ..s.objects[k] },
                bag,
            )
            &&& s.objects[k].kind == KindModel::Particle(p) && answers[k] == ObjectAnswers::Particle(y)
                ==> after.objects[k] == resolved_object(
                ObjectModel { kind: KindModel::Particle(loaded_particle(p, y)), ..s.objects[k] },
                bag,
            )
            &&& !(s.objects[k].kind is Image) && !(s.objects[k].kind is Particle) ==> after.objects[k]
                == resolved_object(s.objects[k], bag)
        }),
{
}

/// Objects are drawn by their sort order where a scene asks for it, those of
/// one order as they are listed; else as they are listed.
pub proof fn law_objects_are_drawn_in_order(keys: Seq<i64>, custom: bool, i: int, j: int)
    requires
        0 <= i < j < keys.len(),
    ensures
        draw_order(keys, custom).len() == keys.len(),
        !custom ==> draw_order(keys, custom)[i] == i,
        custom ==> {
            let order = draw_order(keys, custom);
            keys[order[i]] < keys[order[j]] || (keys[order[i]] == keys[order[j]] && order[i] < order[j])
        },
{
    law_sorted_positions(keys, keys.len() as int);
    if custom {
        let order = draw_order(keys, custom);
        assert(crate::order::before(keys, order[i], order[j]));
    }
}

/// The scene file of a project is the one that its document names, where that
/// is a JSON file.
pub proof fn law_projects_name_their_scene(a: Answer, m: Members, f: Seq<char>)
    requires
        document(a) == Some(Tree::Table(m)),
    ensures
        holds(m, "file"@, Tree::Text(f)) ==> project_file(a) == Some(f),
        lacks(m, "file"@) ==> project_file(a) is None && entry_of(a) is None,
        holds(m, "file"@, Tree::Text(f)) && f.len() >= 5 && f.skip(f.len() - 5) == ".json"@ ==> entry_of(a)
            == Some(f),
        holds(m, "file"@, Tree::Text(f)) && (f.len() < 5 || f.skip(f.len() - 5) != ".json"@) ==> entry_of(a) is None,
{
    law_members_are_found_by_name(m, "file"@);
    reveal_strlit(".json");
    assert(".json"@.len() == 5);
}

/// The properties that are handed over are those that are named and that there
/// are, in the order of their names.
pub proof fn law_named_properties_are_handed_over(names: Seq<Seq<char>>, bag: Bag, k: int, i: int)
    requires
        0 <= i < k <= names.len(),
    ensures
        bag.contains_key(names[i]) ==> named_properties(names, bag, k).contains((names[i], bag[names[i]])),
        forall|j: int|
            0 <= j < named_properties(names, bag, k).len() ==> bag.contains_key(
                (#[trigger] named_properties(names, bag, k)[j]).0,
            ) && bag[named_properties(names, bag, k)[j].0] == named_properties(names, bag, k)[j].1,
    decreases k,
{
    let now = named_properties(names, bag, k);
    let before = named_properties(names, bag, k - 1);
    if k > 1 {
        law_named_properties_are_handed_over(names, bag, k - 1, if i < k - 1 { i } else { 0 });
    }
    if bag.contains_key(names[i]) {
        if i < k - 1 {
            let j = before.index_of((names[i], bag[names[i]]));
            assert(now[j] == before[j]);
        } else {
            assert(now[now.len() - 1] == (names[i], bag[names[i]]));
        }
    }
    assert forall|j: int| 0 <= j < now.len() implies bag.contains_key((#[trigger] now[j]).0)
        && bag[now[j].0] == now[j].1 by {
        if j < before.len() {
            assert(now[j] == before[j]);
        }
    }
}

/// A colour of the music is red, green and blue, two digits each.
pub proof fn law_music_colors_are_read(s: Seq<char>, r: nat, g: nat, b: nat)
    requires
        s.len() == 7,
        s[0] == '#',
        s[1] != '+' && s[3] != '+' && s[5] != '+',
        hex_digit(s[1]) is Some && hex_digit(s[2]) is Some && hex_digit(s[3]) is Some && hex_digit(s[4]) is Some && hex_digit(s[5]) is Some && hex_digit(s[6]) is Some,
        r == hex_digit(s[1])->0 * 16 + hex_digit(s[2])->0,
        g == hex_digit(s[3])->0 * 16 + hex_digit(s[4])->0,
        b == hex_digit(s[5])->0 * 16 + hex_digit(s[6])->0,
    ensures
        hex_colour(s) == Some((Number::Channel(r as i64), Number::Channel(g as i64), Number::Channel(b as i64))),
        hex_digit('0') == Some(0nat) && hex_digit('9') == Some(9nat) && hex_digit('a') == Some(10nat)
            && hex_digit('f') == Some(15nat) && hex_digit('A') == Some(10nat) && hex_digit('F') == Some(15nat)
            && hex_digit('g') is None,
{
}

/// Scripts are told of the music what changed in it: all of it the first time,
/// and then what is not as it was.
pub proof fn law_music_changes_are_told(p: PrevModel, e: MediaEvent, moved: bool)
    ensures
        ({
            let c = changes_of(None, e, moved);
            c.status && c.playback && c.properties && c.thumbnail && c.timeline
        }),
        ({
            let c = changes_of(Some(p), e, moved);
            &&& c.status <==> p.available != e.available
            &&& c.playback <==> p.state != e.state
            &&& c.properties <==> !(p.title == e.title@ && p.artist == e.artist@ && p.album == e.album@)
            &&& c.thumbnail <==> p.art_key != e.art_key
            &&& c.timeline <==> moved
        }),
{
}

/// An offset from universal time is hours and minutes, and its sign.
pub proof fn law_offsets_are_hours_and_minutes(s: Seq<char>)
    requires
        s.len() == 5,
        s[0] == '+' || s[0] == '-',
        forall|i: int| 1 <= i < 5 ==> digit_char(#[trigger] s[i]),
    ensures
        ({
            let h = (s[1] as u32 - 48) * 10 + (s[2] as u32 - 48);
            let m = (s[3] as u32 - 48) * 10 + (s[4] as u32 - 48);
            utc_offset(s) == Some(if s[0] == '-' {
                -(h * 3600 + m * 60)
            } else {
                h * 3600 + m * 60
            })
        }),
{
    assert(digit_char(s[1]) && digit_char(s[2]) && digit_char(s[3]) && digit_char(s[4]));
    lemma_two_digits(s.subrange(1, 3));
    lemma_two_digits(s.subrange(3, 5));
}

proof fn lemma_two_digits(s: Seq<char>)
    requires
        s.len() == 2,
        digit_char(s[0]),
        digit_char(s[1]),
    ensures
        digits_value(s) == (s[0] as u32 - 48) * 10 + (s[1] as u32 - 48),
{
    reveal_with_fuel(digits_value, 3);
    assert(s.drop_last().drop_last() =~= Seq::<char>::empty());
    assert(s.drop_last().last() == s[0]);
}

/// A texture that is kept is used; one that is not known is loaded; one that
/// could not be loaded in a special way is used in the plain one, and one that
/// could not be loaded at all is white.
pub proof fn law_textures_are_kept_or_loaded(loaded: Map<Seq<char>, Option<usize>>, name: Seq<char>, n: usize, v: Variant)
    ensures
        !loaded.contains_key(texture_key(v, name)) ==> drawn_for(loaded, v, name) == TextureLookup::Load(v),
        loaded.contains_key(texture_key(v, name)) && loaded[texture_key(v, name)] == Some(n) ==> drawn_for(
            loaded,
            v,
            name,
        ) == TextureLookup::Kept(n),
        loaded.contains_key(name) && loaded[name] is None ==> drawn_for(loaded, Variant::Plain, name)
            == TextureLookup::White,
        v != Variant::Plain && loaded.contains_key(texture_key(v, name)) && loaded[texture_key(v, name)] is None
            ==> {
            &&& !loaded.contains_key(name) ==> drawn_for(loaded, v, name) == TextureLookup::Load(Variant::Plain)
            &&& loaded.contains_key(name) && loaded[name] == Some(n) ==> drawn_for(loaded, v, name)
                == TextureLookup::Kept(n)
            &&& loaded.contains_key(name) && loaded[name] is None ==> drawn_for(loaded, v, name)
                == TextureLookup::White
        },
{
}

/// The same texture is kept apart for each way in which it is loaded.
pub proof fn law_texture_keys_differ(name: Seq<char>)
    ensures
        texture_key(Variant::Plain, name) == name,
        texture_key(Variant::Wrapping, name) != name,
        texture_key(Variant::FirstFrame, name) != name,
        texture_key(Variant::Wrapping, name) != texture_key(Variant::FirstFrame, name),
{
    reveal_strlit("\0wrap:");
    reveal_strlit("\0f0:");
    assert("\0wrap:"@.len() == 6 && "\0f0:"@.len() == 4);
    assert(texture_key(Variant::Wrapping, name).len() == name.len() + 6);
    assert(texture_key(Variant::FirstFrame, name).len() == name.len() + 4);
}

/// The template of a layer that scripts make has the texture, the tint and the
/// alpha of the first pass of its material, whatever case these are named in;
/// without them it is white and opaque.
pub proof fn law_templates_take_the_first_pass(
    path: Seq<char>,
    m: Members,
    passes: Seq<Tree>,
    pass: Members,
    props: Seq<(Seq<char>, Property)>,
    textures: Seq<Tree>,
    t: Seq<char>,
)
    requires
        holds(m, "passes"@, Tree::List(passes)),
        passes.len() > 0,
        passes[0] == Tree::Table(pass),
    ensures
        ({
            let x = template_in(path, Tree::Table(m), props);
            &&& x is Some
            &&& x->0.path == path
            &&& holds(pass, "textures"@, Tree::List(textures)) && textures.len() > 0 && textures[0]
                == Tree::Text(t) ==> x->0.texture == Some(t)
            &&& lacks(pass, "textures"@) ==> x->0.texture is None
            &&& lacks(pass, "constantshadervalues"@) ==> x->0.tint == (
                Number::Single(0x3f80_0000),
                Number::Single(0x3f80_0000),
                Number::Single(0x3f80_0000),
            ) && x->0.alpha == Number::Single(0x3f80_0000)
        }),
{
    law_members_are_found_by_name(m, "passes"@);
    law_members_are_found_by_name(pass, "textures"@);
    law_members_are_found_by_name(pass, "constantshadervalues"@);
}

proof fn lemma_folded_at(m: Members, key: Seq<char>, from: int, i: int)
    requires
        0 <= from <= i < m.len(),
        lower(m[i].0) == lower(key),
        forall|j: int| 0 <= j < i ==> lower((#[trigger] m[j]).0) != lower(key),
    ensures
        folded_member(m, key, from) == Some(m[i].1),
    decreases i - from,
{
    if from < i {
        assert(lower(m[from].0) != lower(key));
        lemma_folded_at(m, key, from + 1, i);
    }
}

/// A constant of a template is found whatever the case of its name; its
/// number is the property's that it follows, or its own.
pub proof fn law_template_constants_are_found(m: Members, key: Seq<char>, i: int, o: Members, b: u64, props: Seq<(Seq<char>, Property)>)
    requires
        0 <= i < m.len(),
        lower(m[i].0) == lower(key),
        forall|j: int| 0 <= j < i ==> lower((#[trigger] m[j]).0) != lower(key),
    ensures
        folded_member(m, key, 0) == Some(m[i].1),
        material_number(Tree::Real(b), props) == Some(Number::Real(b)),
        lacks(o, "user"@) && holds(o, "value"@, Tree::Real(b)) ==> material_number(Tree::Table(o), props)
            == Some(Number::Real(b)),
{
    lemma_folded_at(m, key, 0, i);
    law_members_are_found_by_name(o, "user"@);
    law_members_are_found_by_name(o, "value"@);
}

/// A file of a workshop item is looked for in the item's own folder, behind
/// the first folder of its path; where it is found under its own path, it is
/// not looked for again.
pub proof fn law_workshop_files_have_their_own_folder(folder: Seq<char>, rest: Seq<char>, id: Seq<char>, first: Answer, second: Answer, b: Seq<u8>)
    requires
        !folder.contains('/'),
    ensures
        remapped(folder + seq!['/'] + rest, Some(id)) == Some(
            folder + "/workshop/"@ + id + "/"@ + rest,
        ),
        remapped(folder + seq!['/'] + rest, None) is None,
        first == Some(b) ==> answered(first, Some(rest), second) == Some(b),
        first is None ==> answered(first, Some(rest), second) == second,
        first is None ==> answered(first, None, second) is None,
{
    let path = folder + seq!['/'] + rest;
    assert forall|j: int| 0 <= j < folder.len() implies path[j] != '/' by {
        assert(folder.contains(folder[j]));
    }
    lemma_index_of_at(path, '/', 0, folder.len() as int);
    assert(path.take(folder.len() as int) =~= folder);
    assert(path.skip(folder.len() as int + 1) =~= rest);
}

proof fn lemma_index_of_at(s: Seq<char>, c: char, from: int, i: int)
    requires
        0 <= from <= i < s.len(),
        s[i] == c,
        forall|j: int| 0 <= j < i ==> s[j] != c,
    ensures
        crate::strings::index_of(s, c, from) == Some(i),
    decreases i - from,
{
    if from < i {
        lemma_index_of_at(s, c, from + 1, i);
    }
}

/// A shader of a model is told the size of the texture that a sampler of it
/// shows, in the sampler's slot; of the last of several samplers of a slot.
pub proof fn law_model_slots_have_their_size(samplers: Seq<SlotModel>, pass: PassModel, k: int, i: int, slot: u32, n: Seq<char>)
    requires
        0 <= i < k <= samplers.len(),
        samplers[i].slot == Some(slot),
        0 < slot < 8,
        forall|j: int| i < j < k ==> (#[trigger] samplers[j]).slot != Some(slot),
    ensures
        sizes_upto(samplers, pass, k).len() == 8,
        slot < pass.textures.len() && pass.textures[slot as int] == Some(n) && names_file(n) ==> sizes_upto(
            samplers,
            pass,
            k,
        )[slot as int] == SizeModel::Texture(n),
        slot >= pass.textures.len() && samplers[i].default_texture is None ==> sizes_upto(samplers, pass, k)[slot as int]
            == SizeModel::Scene,
        sizes_upto(samplers, pass, k)[0] == SizeModel::Input,
    decreases k,
{
    lemma_sizes_len(samplers, pass, k);
    if i < k - 1 {
        assert(samplers[k - 1].slot != Some(slot));
        law_model_slots_have_their_size(samplers, pass, k - 1, i, slot, n);
    } else {
        lemma_sizes_len(samplers, pass, k - 1);
    }
}

proof fn lemma_sizes_len(samplers: Seq<SlotModel>, pass: PassModel, k: int)
    requires
        k <= samplers.len(),
    ensures
        sizes_upto(samplers, pass, k).len() == 8,
        sizes_upto(samplers, pass, k)[0] == SizeModel::Input,
    decreases k,
{
    if k > 0 {
        lemma_sizes_len(samplers, pass, k - 1);
    }
}

proof fn lemma_path_ends(s: Seq<char>)
    requires
        s.len() > 0,
        s.last() != '/',
        !(s.len() > 1 && s.last() == '.' && s[s.len() - 2] == '/'),
    ensures
        path_end(s, s.len() as int) == s.len(),
{
}

proof fn lemma_component(s: Seq<char>, from: int, to: int)
    requires
        0 <= from <= to <= s.len(),
        forall|i: int| from <= i < to ==> s[i] != '/',
        from == 0 || s[from - 1] == '/',
    ensures
        component_start(s, to) == from,
    decreases to - from,
{
    if from < to {
        lemma_component(s, from, to - 1);
    }
}

/// The file that a path leads to is the part behind its last slash, and its
/// package is named after it, without its ending.
pub proof fn law_paths_lead_to_their_file(folder: Seq<char>, name: Seq<char>, stem: Seq<char>, ending: Seq<char>)
    requires
        name.len() > 0,
        !name.contains('/'),
        name != "."@,
        name != ".."@,
    ensures
        file_name_of(folder + seq!['/'] + name) == Some(name),
        file_name_of(name) == Some(name),
        name == stem + seq!['.'] + ending && !ending.contains('.') && stem.len() > 0 ==> file_stem_of(name) == stem,
        !name.contains('.') ==> file_stem_of(name) == name,
{
    reveal_strlit(".");
    assert forall|i: int| 0 <= i < name.len() implies name[i] != '/' by {
        assert(name.contains(name[i]));
    }
    let path = folder + seq!['/'] + name;
    let at = folder.len() as int + 1;
    assert(path[at - 1] == '/');
    if name.len() == 1 {
        assert(name[0] != '.') by {
            if name[0] == '.' {
                assert(name =~= "."@);
            }
        }
    } else {
        assert(path[path.len() - 2] == name[name.len() - 2]);
    }
    assert(path.last() == name.last());
    lemma_path_ends(path);
    lemma_path_ends(name);
    assert forall|i: int| at <= i < path.len() implies path[i] != '/' by {
        assert(path[i] == name[i - at]);
    }
    lemma_component(path, at, path.len() as int);
    lemma_component(name, 0, name.len() as int);
    assert(path.subrange(at, path.len() as int) =~= name);
    assert(name.subrange(0, name.len() as int) =~= name);
    super::shading::law_stems_stand_before_the_last_point(name, stem.len() as int);
    if name == stem + seq!['.'] + ending && !ending.contains('.') {
        assert forall|j: int| stem.len() < j < name.len() implies name[j] != '.' by {
            assert(ending.contains(ending[j - stem.len() - 1]));
        }
        assert(name.take(stem.len() as int) =~= stem);
    }
}

/// The numbers among the words of a text are words of it that are numbers and
/// nothing else, and no more than are asked for.
pub proof fn law_number_words_are_numbers(s: Seq<char>, from: int, limit: nat, i: int)
    ensures
        number_words(s, from, limit).len() <= limit,
        0 <= i < number_words(s, from, limit).len() ==> float_len(number_words(s, from, limit)[i])
            == number_words(s, from, limit)[i].len() && number_words(s, from, limit)[i].len() > 0,
    decreases s.len() - from,
{
    let a = after_white(s, from);
    let b = word_end(s, a);
    if !(limit == 0 || from < 0 || !(from <= a < b <= s.len())) {
        let word = s.subrange(a, b);
        if float_len(word) == word.len() {
            law_number_words_are_numbers(s, b, (limit - 1) as nat, i - 1);
            let rest = number_words(s, b, (limit - 1) as nat);
            let all = number_words(s, from, limit);
            assert(all == seq![word] + rest);
            if 0 < i < all.len() {
                assert(all[i] == rest[i - 1]);
            }
        } else {
            law_number_words_are_numbers(s, b, limit, i);
        }
    }
}

/// A word that is a number counts, and one that is none is passed over.
pub proof fn law_number_words_are_taken_in_order(s: Seq<char>, e: int, limit: nat)
    requires
        0 < e <= s.len(),
        limit > 0,
        forall|i: int| 0 <= i < e ==> !white(#[trigger] s[i]),
        e == s.len() || white(s[e]),
    ensures
        float_len(s.take(e)) == e ==> number_words(s, 0, limit) == seq![s.take(e)] + number_words(
            s,
            e,
            (limit - 1) as nat,
        ),
        float_len(s.take(e)) != e ==> number_words(s, 0, limit) == number_words(s, e, limit),
{
    assert(after_white(s, 0) == 0);
    lemma_word_end(s, 0, e);
    assert(s.subrange(0, e) =~= s.take(e));
}

proof fn lemma_word_end(s: Seq<char>, from: int, e: int)
    requires
        0 <= from <= e <= s.len(),
        forall|i: int| 0 <= i < e ==> !white(#[trigger] s[i]),
        e == s.len() || white(s[e]),
    ensures
        word_end(s, from) == e,
    decreases e - from,
{
    if from < e {
        assert(!white(s[from]));
        lemma_word_end(s, from + 1, e);
    }
}

} // verus!
