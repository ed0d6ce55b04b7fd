//! The rounds in which the shaders of a pass are translated.
use vstd::prelude::*;

use crate::glsl::{
    declares_array, has_array_varying, lines, pin_varying_locations, pinned, sane, sanitize_glsl,
    strip_dead_fs_varyings, stripped, varying_names, Stage,
};
use crate::material::{Pass, PassModel};
use crate::passes::{merge_combos, merged, shader_inputs, slots_upto, small_combos, ShaderInputs};
use crate::table::TextMap;

verus! {

/// Whether a source declares a varying that is an array.
pub open spec fn declares_arrays(src: Seq<char>) -> bool {
    exists|i: int| 0 <= i < lines(src).len() && declares_array(#[trigger] lines(src)[i])
}

/// The sources of two stages that did not agree, made to: what only the
/// fragment stage declares and does not use goes, and the places of the rest
/// are written down, unless one of them is an array.
pub open spec fn realigned(vs: Seq<char>, fs: Seq<char>) -> (Seq<char>, Seq<char>) {
    let rest = stripped(vs, fs);
    if declares_arrays(vs) || declares_arrays(rest) {
        (vs, rest)
    } else {
        (pinned(vs, varying_names(vs, rest)), pinned(rest, varying_names(vs, rest)))
    }
}

/// The sources of two stages that did not agree, made to.
pub fn realign(vs: &str, fs: &str) -> (r: (String, String))
    ensures
        (r.0@, r.1@) == realigned(vs@, fs@),
{
    let rest = strip_dead_fs_varyings(vs, fs);
    if has_array_varying(vs) || has_array_varying(rest.as_str()) {
        (vs.to_owned(), rest)
    } else {
        pin_varying_locations(vs, rest.as_str())
    }
}

/// The rounds of translating the two stages of a pass.
#[derive(Clone, Copy, Debug, PartialEq, Eq, Structural)]
pub enum Round {
    /// The sources as they are.
    First,
    /// The sources made to agree.
    Aligned,
    /// Both stages with the switches that either turned on.
    Shared,
}

/// The sources and the inputs of the two stages of a pass, in a round.
#[derive(Debug)]
pub struct Translation {
    pub round: Round,
    pub vs: String,
    pub fs: String,
    pub inputs: ShaderInputs,
}

/// What a [`Translation`] holds.
pub struct TranslationModel {
    pub round: Round,
    pub vs: Seq<char>,
    pub fs: Seq<char>,
    pub combos: Map<Seq<char>, i32>,
    pub override_combos: Map<Seq<char>, i32>,
    pub slots: Seq<u32>,
}

impl View for Translation {
    type V = TranslationModel;

    open spec fn view(&self) -> TranslationModel {
        TranslationModel {
            round: self.round,
            vs: self.vs@,
            fs: self.fs@,
            combos: self.inputs.combos@,
            override_combos: self.inputs.override_combos@,
            slots: self.inputs.populated_texture_slots@,
        }
    }
}

/// The first round of a pass with the given sources.
pub open spec fn started(
    pass: PassModel,
    round: Round,
    vs: Seq<char>,
    fs: Seq<char>,
) -> TranslationModel {
    TranslationModel {
        round,
        vs,
        fs,
        combos: small_combos(pass.combos),
        override_combos: Map::empty(),
        slots: slots_upto(pass.textures, pass.textures.len() as int),
    }
}

/// The round that follows one, if one does: stages that agree at once are
/// done, and others are translated twice more, the second time with the
/// switches that the first turned on.
pub open spec fn following(
    t: TranslationModel,
    disagree: bool,
    vs_combos: Map<Seq<char>, i32>,
    fs_combos: Map<Seq<char>, i32>,
) -> Option<TranslationModel> {
    match t.round {
        Round::First => if disagree {
            let sources = realigned(t.vs, t.fs);
            Some(TranslationModel { round: Round::Aligned, vs: sources.0, fs: sources.1, ..t })
        } else {
            None
        },
        Round::Aligned => Some(
            TranslationModel {
                round: Round::Shared,
                override_combos: merged(vs_combos, fs_combos),
                ..t
            },
        ),
        Round::Shared => None,
    }
}

impl Translation {
    /// The first round of a pass that draws a layer.
    pub fn of_layer(pass: &Pass, vs: &str, fs: &str) -> (r: Self)
        requires
            pass.textures@.len() <= u32::MAX,
        ensures
            r@ == started(pass@, Round::First, sane(vs@, Stage::Vertex), sane(fs@, Stage::Fragment)),
    {
        Translation {
            round: Round::First,
            vs: sanitize_glsl(vs, Stage::Vertex),
            fs: sanitize_glsl(fs, Stage::Fragment),
            inputs: shader_inputs(pass),
        }
    }

    /// The first round of a pass that draws a model: its stages are made to
    /// agree from the start.
    pub fn of_model(pass: &Pass, vs: &str, fs: &str) -> (r: Self)
        requires
            pass.textures@.len() <= u32::MAX,
        ensures
            r@ == started(
                pass@,
                Round::Aligned,
                pinned(vs@, varying_names(vs@, fs@)),
                pinned(fs@, varying_names(vs@, fs@)),
            ),
    {
        let (v, f) = pin_varying_locations(vs, fs);
        Translation { round: Round::Aligned, vs: v, fs: f, inputs: shader_inputs(pass) }
    }

    /// Goes on to the round that follows, if one does: `disagree` says whether
    /// the translated stages did, and the switches are those that they turned
    /// on.
    pub fn advance(
        &mut self,
        disagree: bool,
        vs_combos: &TextMap<i32>,
        fs_combos: &TextMap<i32>,
    ) -> (again: bool)
        ensures
            match following(old(self)@, disagree, vs_combos@, fs_combos@) {
                Some(t) => again && final(self)@ == t,
                None => !again && final(self)@ == old(self)@,
            },
    {
        match self.round {
            Round::First => {
                if disagree {
                    let (v, f) = realign(self.vs.as_str(), self.fs.as_str());
                    self.vs = v;
                    self.fs = f;
                    self.round = Round::Aligned;
                    true
                } else {
                    false
                }
            },
            Round::Aligned => {
                self.inputs.override_combos = merge_combos(vs_combos, fs_combos);
                self.round = Round::Shared;
                true
            },
            Round::Shared => false,
        }
    }
}

/// A pass is translated three times at most.
pub proof fn law_translations_end(
    t: TranslationModel,
    first: (bool, Map<Seq<char>, i32>, Map<Seq<char>, i32>),
    second: (bool, Map<Seq<char>, i32>, Map<Seq<char>, i32>),
    third: (bool, Map<Seq<char>, i32>, Map<Seq<char>, i32>),
)
    ensures
        following(t, first.0, first.1, first.2) matches Some(u) ==> (following(
            u,
            second.0,
            second.1,
            second.2,
        ) matches Some(w) ==> following(w, third.0, third.1, third.2) is None),
{
}

} // verus!
