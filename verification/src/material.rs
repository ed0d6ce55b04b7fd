//! Materials, models and effects.
use vstd::prelude::*;

use crate::copy::{copy_slots, Duplicate};
use crate::json::{
    items, lookup, read_texts, tables, text_of_tree, text_or, texts_in, Json, JsonMap, Members,
    Tree,
};
use crate::strings::{lemma_views_push, opt_view, same_text, texts, views};
use crate::table::TextMap;
use crate::user::{constants_of, parse_constant_values, ConstantValues, Constants};
use crate::value::{
    coerce_bool, coerce_f64, coerce_i64, json_bool, json_number, json_whole, Number, Scalar,
    ONE_BITS,
};

verus! {

#[derive(Clone, Copy, Debug, PartialEq, Eq, Structural)]
pub enum Blending {
    Normal,
    Translucent,
    Additive,
}

#[derive(Clone, Copy, Debug, PartialEq, Eq, Structural)]
pub enum CullMode {
    NoCull,
    Normal,
}

#[derive(Clone, Copy, Debug, PartialEq, Eq, Structural)]
pub enum DepthMode {
    Disabled,
    Enabled,
}

/// The texture slots of a pass: the name of the texture in each, if it has one.
pub type TextureSlots = Vec<Option<String>>;

pub type Combos = TextMap<i64>;

/// One pass of a material.
#[derive(Debug)]
pub struct Pass {
    pub blending: Blending,
    pub cullmode: CullMode,
    pub depthtest: DepthMode,
    pub depthwrite: DepthMode,
    pub shader: String,
    pub textures: TextureSlots,
    pub usertextures: TextureSlots,
    pub combos: Combos,
    pub constantshadervalues: ConstantValues,
}

/// What a [`Pass`] holds.
#[verifier::ext_equal]
pub struct PassModel {
    pub blending: Blending,
    pub cullmode: CullMode,
    pub depthtest: DepthMode,
    pub depthwrite: DepthMode,
    pub shader: Seq<char>,
    pub textures: Seq<Option<Seq<char>>>,
    pub usertextures: Seq<Option<Seq<char>>>,
    pub combos: Map<Seq<char>, i64>,
    pub constants: Constants,
}

impl View for Pass {
    type V = PassModel;

    open spec fn view(&self) -> PassModel {
        PassModel {
            blending: self.blending,
            cullmode: self.cullmode,
            depthtest: self.depthtest,
            depthwrite: self.depthwrite,
            shader: self.shader@,
            textures: texts(self.textures@),
            usertextures: texts(self.usertextures@),
            combos: self.combos@,
            constants: self.constantshadervalues@,
        }
    }
}

impl Duplicate for Pass {
    fn duplicate(&self) -> (r: Self) {
        Pass {
            blending: self.blending,
            cullmode: self.cullmode,
            depthtest: self.depthtest,
            depthwrite: self.depthwrite,
            shader: self.shader.clone(),
            textures: copy_slots(&self.textures),
            usertextures: copy_slots(&self.usertextures),
            combos: self.combos.duplicate(),
            constantshadervalues: self.constantshadervalues.duplicate(),
        }
    }
}

#[derive(Debug)]
pub struct Material {
    pub passes: Vec<Pass>,
}

impl View for Material {
    type V = Seq<PassModel>;

    open spec fn view(&self) -> Seq<PassModel> {
        views(self.passes@)
    }
}

/// The model file of an image layer.
#[derive(Debug)]
pub struct ModelFile {
    pub material: String,
    pub solidlayer: bool,
    pub fullscreen: bool,
    pub passthrough: bool,
    pub autosize: bool,
    pub nopadding: bool,
    pub width: Option<i64>,
    pub height: Option<i64>,
    pub puppet: Option<String>,
}

/// What a [`ModelFile`] holds.
pub struct ModelFileModel {
    pub material: Seq<char>,
    pub solidlayer: bool,
    pub fullscreen: bool,
    pub passthrough: bool,
    pub autosize: bool,
    pub nopadding: bool,
    pub width: Option<i64>,
    pub height: Option<i64>,
    pub puppet: Option<Seq<char>>,
}

impl View for ModelFile {
    type V = ModelFileModel;

    open spec fn view(&self) -> ModelFileModel {
        ModelFileModel {
            material: self.material@,
            solidlayer: self.solidlayer,
            fullscreen: self.fullscreen,
            passthrough: self.passthrough,
            autosize: self.autosize,
            nopadding: self.nopadding,
            width: self.width,
            height: self.height,
            puppet: opt_view(self.puppet),
        }
    }
}

#[derive(Clone, Copy, Debug, PartialEq, Eq, Structural)]
pub enum ModelFileError {
    MaterialMissing,
}

#[derive(Clone, Copy, Debug, PartialEq, Eq, Structural)]
pub enum PassCommand {
    Copy,
    Swap,
}

/// A texture that an effect pass puts into a slot.
#[derive(Debug)]
pub struct Bind {
    pub name: String,
    pub index: i64,
}

impl View for Bind {
    type V = (Seq<char>, i64);

    open spec fn view(&self) -> (Seq<char>, i64) {
        (self.name@, self.index)
    }
}

#[derive(Debug)]
pub struct EffectPass {
    pub material: Option<String>,
    pub resolved: Option<Material>,
    pub bind: Vec<Bind>,
    pub command: Option<PassCommand>,
    pub source: Option<String>,
    pub target: Option<String>,
}

/// What an [`EffectPass`] holds.
pub struct EffectPassModel {
    pub material: Option<Seq<char>>,
    pub resolved: Option<Seq<PassModel>>,
    pub bind: Seq<(Seq<char>, i64)>,
    pub command: Option<PassCommand>,
    pub source: Option<Seq<char>>,
    pub target: Option<Seq<char>>,
}

impl View for EffectPass {
    type V = EffectPassModel;

    open spec fn view(&self) -> EffectPassModel {
        EffectPassModel {
            material: opt_view(self.material),
            resolved: opt_view(self.resolved),
            bind: views(self.bind@),
            command: self.command,
            source: opt_view(self.source),
            target: opt_view(self.target),
        }
    }
}

/// A render target that an effect declares.
#[derive(Debug)]
pub struct Fbo {
    pub name: String,
    pub format: String,
    pub scale: Scalar,
    pub unique: bool,
}

/// What an [`Fbo`] holds.
pub struct FboModel {
    pub name: Seq<char>,
    pub format: Seq<char>,
    pub scale: Number,
    pub unique: bool,
}

impl View for Fbo {
    type V = FboModel;

    open spec fn view(&self) -> FboModel {
        FboModel {
            name: self.name@,
            format: self.format@,
            scale: self.scale@,
            unique: self.unique,
        }
    }
}

impl Duplicate for Fbo {
    fn duplicate(&self) -> (r: Self) {
        Fbo {
            name: self.name.clone(),
            format: self.format.clone(),
            scale: self.scale.duplicate(),
            unique: self.unique,
        }
    }
}

#[derive(Debug)]
pub struct EffectFile {
    pub name: String,
    pub description: String,
    pub group: String,
    pub preview: String,
    pub dependencies: Vec<String>,
    pub passes: Vec<EffectPass>,
    pub fbos: Vec<Fbo>,
}

/// What an [`EffectFile`] holds.
pub struct EffectFileModel {
    pub name: Seq<char>,
    pub description: Seq<char>,
    pub group: Seq<char>,
    pub preview: Seq<char>,
    pub dependencies: Seq<Seq<char>>,
    pub passes: Seq<EffectPassModel>,
    pub fbos: Seq<FboModel>,
}

impl View for EffectFile {
    type V = EffectFileModel;

    open spec fn view(&self) -> EffectFileModel {
        EffectFileModel {
            name: self.name@,
            description: self.description@,
            group: self.group@,
            preview: self.preview@,
            dependencies: views(self.dependencies@),
            passes: views(self.passes@),
            fbos: views(self.fbos@),
        }
    }
}

/// The blending of that name.
pub open spec fn blending_of(s: Seq<char>) -> Blending {
    if s == "translucent"@ {
        Blending::Translucent
    } else if s == "additive"@ {
        Blending::Additive
    } else {
        Blending::Normal
    }
}

/// The culling of that name.
pub open spec fn cull_of(s: Seq<char>) -> CullMode {
    if s == "normal"@ {
        CullMode::Normal
    } else {
        CullMode::NoCull
    }
}

/// The depth mode of that name.
pub open spec fn depth_of(s: Seq<char>) -> DepthMode {
    if s == "enabled"@ {
        DepthMode::Enabled
    } else {
        DepthMode::Disabled
    }
}

impl Blending {
    pub fn parse(s: &str) -> (r: Self)
        ensures
            r == blending_of(s@),
    {
        if same_text(s, "translucent") {
            Blending::Translucent
        } else if same_text(s, "additive") {
            Blending::Additive
        } else {
            Blending::Normal
        }
    }
}

impl CullMode {
    pub fn parse(s: &str) -> (r: Self)
        ensures
            r == cull_of(s@),
    {
        if same_text(s, "normal") {
            CullMode::Normal
        } else {
            CullMode::NoCull
        }
    }
}

impl DepthMode {
    pub fn parse(s: &str) -> (r: Self)
        ensures
            r == depth_of(s@),
    {
        if same_text(s, "enabled") {
            DepthMode::Enabled
        } else {
            DepthMode::Disabled
        }
    }
}

/// The texture that an entry of a list of slots names.
pub open spec fn slot_of(t: Tree) -> Option<Seq<char>> {
    match t {
        Tree::Text(s) => if s.len() == 0 {
            None
        } else {
            Some(s)
        },
        Tree::Table(o) => text_of_tree(lookup(o, "name"@)),
        _ => None,
    }
}

/// The slots that a list gives; anything but a list gives none.
pub open spec fn slots_of(t: Option<Tree>) -> Seq<Option<Seq<char>>> {
    let list = items(t);
    Seq::new(list.len(), |i: int| slot_of(list[i]))
}

pub fn parse_textures(value: Option<&Json>) -> (r: TextureSlots)
    ensures
        texts(r@) == slots_of(
            match value {
                Some(v) => Some(v@),
                None => None,
            },
        ),
{
    let mut out: TextureSlots = Vec::new();
    let ghost wanted = slots_of(
        match value {
            Some(v) => Some(v@),
            None => None,
        },
    );
    if let Some(v) = value {
        if let Some(list) = v.as_list() {
            let ghost all = views(list@);
            let mut i: usize = 0;
            while i < list.len()
                invariant
                    i <= list@.len(),
                    all == views(list@),
                    out@.len() == i,
                    forall|j: int| 0 <= j < i ==> opt_view(#[trigger] out@[j]) == slot_of(all[j]),
                decreases list@.len() - i,
            {
                let entry = &list[i];
                assert(all[i as int] == entry@);
                let slot: Option<String> = match entry.as_text() {
                    Some(s) => if s.as_str().is_empty() {
                        None
                    } else {
                        Some(s.clone())
                    },
                    None => match entry.as_table() {
                        Some(o) => o.text_copy("name"),
                        None => None,
                    },
                };
                out.push(slot);
                i += 1;
            }
            assert(texts(out@) =~= wanted);
            return out;
        }
    }
    assert(texts(out@) =~= wanted);
    out
}

/// The first `k` entries of a table of combos.
pub open spec fn combos_upto(m: Members, k: int) -> Map<Seq<char>, i64>
    decreases k,
{
    if k <= 0 {
        Map::empty()
    } else {
        combos_upto(m, k - 1).insert(
            m[k - 1].0,
            match json_whole(m[k - 1].1) {
                Some(i) => i,
                None => 0,
            },
        )
    }
}

/// The combos that a table gives; anything but a table gives none.
pub open spec fn combos_of(t: Option<Tree>) -> Map<Seq<char>, i64> {
    match t {
        Some(Tree::Table(m)) => combos_upto(m, m.len() as int),
        _ => Map::empty(),
    }
}

pub fn parse_combos(value: Option<&Json>) -> (r: Combos)
    ensures
        r@ == combos_of(
            match value {
                Some(v) => Some(v@),
                None => None,
            },
        ),
{
    let mut out: Combos = TextMap::new();
    if let Some(v) = value {
        if let Some(m) = v.as_table() {
            let mut i: usize = 0;
            while i < m.entries.len()
                invariant
                    i <= m.entries@.len(),
                    out@ == combos_upto(m@, i as int),
                decreases m.entries@.len() - i,
            {
                assert(m@[i as int] == (m.entries@[i as int].0@, m.entries@[i as int].1@));
                let n: i64 = match coerce_i64(&m.entries[i].1) {
                    Some(n) => n,
                    None => 0,
                };
                out.insert(m.entries[i].0.clone(), n);
                i += 1;
            }
        }
    }
    out
}

/// The pass that a table of a material is.
pub open spec fn pass_of(m: Members) -> PassModel {
    PassModel {
        blending: blending_of(text_or(m, "blending"@, "normal"@)),
        cullmode: cull_of(text_or(m, "cullmode"@, "nocull"@)),
        depthtest: depth_of(text_or(m, "depthtest"@, "disabled"@)),
        depthwrite: depth_of(text_or(m, "depthwrite"@, "disabled"@)),
        shader: text_or(m, "shader"@, Seq::empty()),
        textures: slots_of(lookup(m, "textures"@)),
        usertextures: slots_of(lookup(m, "usertextures"@)),
        combos: combos_of(lookup(m, "combos"@)),
        constants: constants_of(lookup(m, "constantshadervalues"@)),
    }
}

impl Pass {
    pub fn parse(obj: &JsonMap) -> (r: Self)
        ensures
            r@ == pass_of(obj@),
    {
        proof {
            reveal_strlit("");
            reveal_strlit("normal");
            reveal_strlit("nocull");
            assert(""@ =~= Seq::empty());
        }
        Pass {
            blending: Blending::parse(obj.text_or("blending", "normal").as_str()),
            cullmode: CullMode::parse(obj.text_or("cullmode", "nocull").as_str()),
            depthtest: DepthMode::parse(obj.text_or("depthtest", "disabled").as_str()),
            depthwrite: DepthMode::parse(obj.text_or("depthwrite", "disabled").as_str()),
            shader: obj.text_or("shader", ""),
            textures: parse_textures(obj.get("textures")),
            usertextures: parse_textures(obj.get("usertextures")),
            combos: parse_combos(obj.get("combos")),
            constantshadervalues: parse_constant_values(obj.get("constantshadervalues")),
        }
    }
}

/// The members of a value that is a table, and none of anything else.
pub open spec fn members_of(t: Tree) -> Members {
    match t {
        Tree::Table(m) => m,
        _ => Members::empty(),
    }
}

/// The passes of the material that a document is.
pub open spec fn material_of(t: Tree) -> Seq<PassModel> {
    let list = tables(members_of(t), "passes"@);
    Seq::new(list.len(), |i: int| pass_of(list[i]))
}

fn read_passes(obj: &JsonMap) -> (r: Vec<Pass>)
    ensures
        views(r@) == material_of(Tree::Table(obj@)),
{
    let list = obj.tables("passes");
    let mut out: Vec<Pass> = Vec::new();
    let mut i: usize = 0;
    while i < list.len()
        invariant
            i <= list@.len(),
            out@.len() == i,
            forall|j: int| 0 <= j < i ==> (#[trigger] out@[j])@ == pass_of(list@[j]@),
        decreases list@.len() - i,
    {
        out.push(Pass::parse(list[i]));
        i += 1;
    }
    assert(views(out@) =~= material_of(Tree::Table(obj@)));
    out
}

impl Material {
    pub fn from_value(value: &Json) -> (r: Self)
        ensures
            r@ == material_of(value@),
    {
        match value.as_table() {
            Some(m) => Material { passes: read_passes(m) },
            None => {
                let r = Material { passes: Vec::new() };
                assert(tables(Members::empty(), "passes"@) =~= Seq::empty());
                assert(r@ =~= material_of(value@));
                r
            },
        }
    }
}

/// The id of what has none.
pub const NO_ID: i64 = -1;

/// A flag of a table, or `default`.
pub open spec fn flag_or(m: Members, key: Seq<char>, default: bool) -> bool {
    match lookup(m, key) {
        Some(t) => match json_bool(t) {
            Some(b) => b,
            None => default,
        },
        None => default,
    }
}

/// A whole number of a table, if it has one.
pub open spec fn whole_in(m: Members, key: Seq<char>) -> Option<i64> {
    match lookup(m, key) {
        Some(t) => json_whole(t),
        None => None,
    }
}

/// A whole number of a table, or `default`.
pub open spec fn whole_or(m: Members, key: Seq<char>, default: i64) -> i64 {
    match whole_in(m, key) {
        Some(i) => i,
        None => default,
    }
}

/// A number of a table, if it has one.
pub open spec fn number_in(m: Members, key: Seq<char>) -> Option<Number> {
    match lookup(m, key) {
        Some(t) => json_number(t),
        None => None,
    }
}

/// A number of a table, or the single `default`.
pub open spec fn number_or(m: Members, key: Seq<char>, default: u32) -> Number {
    match number_in(m, key) {
        Some(n) => n,
        None => Number::Single(default),
    }
}

pub(crate) fn read_flag(m: &JsonMap, key: &str, default: bool) -> (r: bool)
    ensures
        r == flag_or(m@, key@, default),
{
    match m.get(key) {
        Some(v) => match coerce_bool(v) {
            Some(b) => b,
            None => default,
        },
        None => default,
    }
}

pub(crate) fn read_whole(m: &JsonMap, key: &str) -> (r: Option<i64>)
    ensures
        r == whole_in(m@, key@),
{
    match m.get(key) {
        Some(v) => coerce_i64(v),
        None => None,
    }
}

pub(crate) fn read_whole_or(m: &JsonMap, key: &str, default: i64) -> (r: i64)
    ensures
        r == whole_or(m@, key@, default),
{
    match read_whole(m, key) {
        Some(i) => i,
        None => default,
    }
}

pub(crate) fn read_number(m: &JsonMap, key: &str) -> (r: Option<Scalar>)
    ensures
        opt_view(r) == number_in(m@, key@),
{
    match m.get(key) {
        Some(v) => coerce_f64(v),
        None => None,
    }
}

pub(crate) fn read_number_or(m: &JsonMap, key: &str, default: u32) -> (r: Scalar)
    ensures
        r@ == number_or(m@, key@, default),
{
    match read_number(m, key) {
        Some(n) => n,
        None => Scalar::Single(default),
    }
}

/// The model file that a document is, if it names a material.
pub open spec fn model_file_of(t: Tree) -> Option<ModelFileModel> {
    let m = members_of(t);
    match text_of_tree(lookup(m, "material"@)) {
        Some(material) => Some(
            ModelFileModel {
                material,
                solidlayer: flag_or(m, "solidlayer"@, false),
                fullscreen: flag_or(m, "fullscreen"@, false),
                passthrough: flag_or(m, "passthrough"@, false),
                autosize: flag_or(m, "autosize"@, false),
                nopadding: flag_or(m, "nopadding"@, false),
                width: whole_in(m, "width"@),
                height: whole_in(m, "height"@),
                puppet: text_of_tree(lookup(m, "puppet"@)),
            },
        ),
        None => None,
    }
}

impl ModelFile {
    pub fn from_value(value: &Json) -> (r: Result<Self, ModelFileError>)
        ensures
            match r {
                Ok(f) => model_file_of(value@) == Some(f@),
                Err(e) => model_file_of(value@) is None && e == ModelFileError::MaterialMissing,
            },
    {
        match value.as_table() {
            None => Err(ModelFileError::MaterialMissing),
            Some(m) => match m.text("material") {
                None => Err(ModelFileError::MaterialMissing),
                Some(material) => Ok(
                    ModelFile {
                        material: material.clone(),
                        solidlayer: read_flag(m, "solidlayer", false),
                        fullscreen: read_flag(m, "fullscreen", false),
                        passthrough: read_flag(m, "passthrough", false),
                        autosize: read_flag(m, "autosize", false),
                        nopadding: read_flag(m, "nopadding", false),
                        width: read_whole(m, "width"),
                        height: read_whole(m, "height"),
                        puppet: m.text_copy("puppet"),
                    },
                ),
            },
        }
    }
}

/// The binds among the first `k` tables of a list: those with a name and a slot.
pub open spec fn binds_upto(list: Seq<Members>, k: int) -> Seq<(Seq<char>, i64)>
    decreases k,
{
    if k <= 0 {
        Seq::empty()
    } else {
        let before = binds_upto(list, k - 1);
        match (text_of_tree(lookup(list[k - 1], "name"@)), whole_in(list[k - 1], "index"@)) {
            (Some(n), Some(i)) => before.push((n, i)),
            _ => before,
        }
    }
}

/// The pass that a table of an effect is.
pub open spec fn effect_pass_of(m: Members) -> EffectPassModel {
    let binds = tables(m, "bind"@);
    EffectPassModel {
        material: text_of_tree(lookup(m, "material"@)),
        resolved: None,
        bind: binds_upto(binds, binds.len() as int),
        command: match text_of_tree(lookup(m, "command"@)) {
            Some(c) => Some(
                if c == "copy"@ {
                    PassCommand::Copy
                } else {
                    PassCommand::Swap
                },
            ),
            None => None,
        },
        source: text_of_tree(lookup(m, "source"@)),
        target: text_of_tree(lookup(m, "target"@)),
    }
}

impl EffectPass {
    pub fn parse(obj: &JsonMap) -> (r: Self)
        ensures
            r@ == effect_pass_of(obj@),
    {
        let list = obj.tables("bind");
        let ghost tables_view = tables(obj@, "bind"@);
        let mut bind: Vec<Bind> = Vec::new();
        let mut i: usize = 0;
        assert(views(bind@) =~= Seq::empty());
        while i < list.len()
            invariant
                i <= list@.len(),
                list@.len() == tables_view.len(),
                forall|j: int| 0 <= j < list@.len() ==> (#[trigger] list@[j])@ == tables_view[j],
                views(bind@) == binds_upto(tables_view, i as int),
            decreases list@.len() - i,
        {
            broadcast use lemma_views_push;

            let o = list[i];
            assert(o@ == tables_view[i as int]);
            match (o.text("name"), read_whole(o, "index")) {
                (Some(n), Some(k)) => {
                    bind.push(Bind { name: n.clone(), index: k });
                },
                _ => {},
            }
            i += 1;
        }
        let command = match obj.text("command") {
            Some(c) => Some(
                if same_text(c.as_str(), "copy") {
                    PassCommand::Copy
                } else {
                    PassCommand::Swap
                },
            ),
            None => None,
        };
        EffectPass {
            material: obj.text_copy("material"),
            resolved: None,
            bind,
            command,
            source: obj.text_copy("source"),
            target: obj.text_copy("target"),
        }
    }
}

/// The render target that a table of an effect declares, if it has a name.
pub open spec fn fbo_of(m: Members) -> Option<FboModel> {
    match text_of_tree(lookup(m, "name"@)) {
        Some(name) => Some(
            FboModel {
                name,
                format: text_or(m, "format"@, "rgba8888"@),
                scale: number_or(m, "scale"@, ONE_BITS),
                unique: flag_or(m, "unique"@, false),
            },
        ),
        None => None,
    }
}

impl Fbo {
    pub fn parse(obj: &JsonMap) -> (r: Option<Self>)
        ensures
            opt_view(r) == fbo_of(obj@),
    {
        match obj.text("name") {
            Some(name) => Some(
                Fbo {
                    name: name.clone(),
                    format: obj.text_or("format", "rgba8888"),
                    scale: read_number_or(obj, "scale", ONE_BITS),
                    unique: read_flag(obj, "unique", false),
                },
            ),
            None => None,
        }
    }
}

/// The targets that the first `k` tables of a list declare.
pub open spec fn fbos_upto(list: Seq<Members>, k: int) -> Seq<FboModel>
    decreases k,
{
    if k <= 0 {
        Seq::empty()
    } else {
        let before = fbos_upto(list, k - 1);
        match fbo_of(list[k - 1]) {
            Some(f) => before.push(f),
            None => before,
        }
    }
}

/// The effect that a document is.
pub open spec fn effect_file_of(t: Tree) -> EffectFileModel {
    let m = members_of(t);
    let passes = tables(m, "passes"@);
    let fbos = tables(m, "fbos"@);
    EffectFileModel {
        name: text_or(m, "name"@, Seq::empty()),
        description: text_or(m, "description"@, Seq::empty()),
        group: text_or(m, "group"@, Seq::empty()),
        preview: text_or(m, "preview"@, Seq::empty()),
        dependencies: texts_in(lookup(m, "dependencies"@)),
        passes: Seq::new(passes.len(), |i: int| effect_pass_of(passes[i])),
        fbos: fbos_upto(fbos, fbos.len() as int),
    }
}

fn read_effect_passes(obj: &JsonMap) -> (r: Vec<EffectPass>)
    ensures
        views(r@) == Seq::new(
            tables(obj@, "passes"@).len(),
            |i: int| effect_pass_of(tables(obj@, "passes"@)[i]),
        ),
{
    let list = obj.tables("passes");
    let mut out: Vec<EffectPass> = Vec::new();
    let mut i: usize = 0;
    while i < list.len()
        invariant
            i <= list@.len(),
            out@.len() == i,
            forall|j: int| 0 <= j < i ==> (#[trigger] out@[j])@ == effect_pass_of(list@[j]@),
        decreases list@.len() - i,
    {
        out.push(EffectPass::parse(list[i]));
        i += 1;
    }
    assert(views(out@) =~= Seq::new(
        tables(obj@, "passes"@).len(),
        |i: int| effect_pass_of(tables(obj@, "passes"@)[i]),
    ));
    out
}

fn read_fbos(obj: &JsonMap) -> (r: Vec<Fbo>)
    ensures
        views(r@) == fbos_upto(tables(obj@, "fbos"@), tables(obj@, "fbos"@).len() as int),
{
    let list = obj.tables("fbos");
    let ghost all = tables(obj@, "fbos"@);
    let mut out: Vec<Fbo> = Vec::new();
    let mut i: usize = 0;
    assert(views(out@) =~= Seq::empty());
    while i < list.len()
        invariant
            i <= list@.len(),
            list@.len() == all.len(),
            forall|j: int| 0 <= j < list@.len() ==> (#[trigger] list@[j])@ == all[j],
            views(out@) == fbos_upto(all, i as int),
        decreases list@.len() - i,
    {
        broadcast use lemma_views_push;

        assert(list@[i as int]@ == all[i as int]);
        if let Some(f) = Fbo::parse(list[i]) {
            out.push(f);
        }
        i += 1;
    }
    out
}

impl EffectFile {
    pub fn from_value(value: &Json) -> (r: Self)
        ensures
            r@ == effect_file_of(value@),
    {
        let none = JsonMap::new();
        let m = match value.as_table() {
            Some(m) => m,
            None => &none,
        };
        proof {
            reveal_strlit("");
            assert(""@ =~= Seq::empty());
            assert(m@ == members_of(value@));
        }
        EffectFile {
            name: m.text_or("name", ""),
            description: m.text_or("description", ""),
            group: m.text_or("group", ""),
            preview: m.text_or("preview", ""),
            dependencies: read_texts(m.get("dependencies")),
            passes: read_effect_passes(m),
            fbos: read_fbos(m),
        }
    }
}

} // verus!
