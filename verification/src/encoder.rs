//! Which render passes a frame is recorded in.
use vstd::prelude::*;

verus! {

/// What the open render pass draws into.
#[derive(Clone, Copy, Debug, PartialEq, Eq, Structural)]
pub enum Target {
    /// The scene that every layer is drawn into.
    Scene,
    /// Anything else.
    Other,
}

/// What is done with what a target holds when a pass on it is opened.
#[derive(Clone, Copy, Debug, PartialEq, Eq, Structural)]
pub enum LoadOp {
    Load,
    Clear,
}

/// What a draw into the scene has to be recorded in.
#[derive(Clone, Copy, Debug, PartialEq, Eq, Structural)]
pub enum ScenePass {
    /// The pass that is open.
    Open,
    /// A new one.
    New(LoadOp),
}

/// How passes are recorded: in as few as can be, or each draw in its own.
#[derive(Clone, Copy, Debug, PartialEq, Eq, Structural)]
pub struct PassBatching {
    pub unbatched: bool,
}

/// Turns the batching of passes off, or on again.
pub fn set_unbatched_passes(batching: &mut PassBatching, on: bool)
    ensures
        final(batching).unbatched == on,
{
    batching.unbatched = on;
}

/// Where the recording of a frame stands.
#[derive(Clone, Copy, Debug, PartialEq, Eq, Structural)]
pub struct FrameEncoder {
    /// What the open pass draws into.
    pub open: Option<Target>,
    /// Whether the scene has been cleared in this frame.
    pub cleared: bool,
    /// Whether the scene has been drawn into since it was last copied.
    pub dirty: bool,
    pub unbatched: bool,
    /// How many passes have been opened.
    pub passes: u64,
}

/// Whether a recording is sound: a pass that is open on the scene has cleared
/// it, or found it cleared.
pub open spec fn sound(s: FrameEncoder) -> bool {
    s.open == Some(Target::Scene) ==> s.cleared
}

/// What becomes of a draw into the scene: it joins an open pass on the scene
/// where passes are batched, and else opens one, which clears the scene if
/// nothing in the frame has.
pub open spec fn scene_pass(s: FrameEncoder) -> ScenePass {
    if !s.unbatched && s.open == Some(Target::Scene) {
        ScenePass::Open
    } else if s.cleared {
        ScenePass::New(LoadOp::Load)
    } else {
        ScenePass::New(LoadOp::Clear)
    }
}

/// The recording after a draw into the scene.
pub open spec fn after_scene(s: FrameEncoder) -> FrameEncoder {
    match scene_pass(s) {
        ScenePass::Open => FrameEncoder { dirty: true, ..s },
        ScenePass::New(_) => FrameEncoder {
            dirty: true,
            cleared: true,
            open: Some(Target::Scene),
            passes: (s.passes + 1) as u64,
            ..s
        },
    }
}

/// The recording once the scene is sure to be cleared.
pub open spec fn after_clear(s: FrameEncoder) -> FrameEncoder {
    if s.cleared {
        s
    } else {
        after_scene(s)
    }
}

/// Whether the scene has to be copied: it is sure to be cleared first, and has
/// been drawn into since the last copy, or passes are not batched.
pub open spec fn copies(s: FrameEncoder) -> bool {
    after_clear(s).dirty || s.unbatched
}

/// The recording after a copy of the scene was asked for.
pub open spec fn after_snapshot(s: FrameEncoder) -> FrameEncoder {
    if copies(s) {
        FrameEncoder { open: None, dirty: false, ..after_clear(s) }
    } else {
        after_clear(s)
    }
}

impl FrameEncoder {
    pub fn new(batching: &PassBatching) -> (r: Self)
        ensures
            r == (FrameEncoder {
                open: None,
                cleared: false,
                dirty: false,
                unbatched: batching.unbatched,
                passes: 0,
            }),
            sound(r),
    {
        FrameEncoder {
            open: None,
            cleared: false,
            dirty: false,
            unbatched: batching.unbatched,
            passes: 0,
        }
    }

    /// A draw into the scene. The first of a frame clears it; the rest keep
    /// what is there.
    pub fn scene(&mut self) -> (r: ScenePass)
        requires
            old(self).passes < u64::MAX,
        ensures
            r == scene_pass(*old(self)),
            *final(self) == after_scene(*old(self)),
            sound(*old(self)) ==> sound(*final(self)),
    {
        self.dirty = true;
        if !self.unbatched {
            if let Some(Target::Scene) = self.open {
                return ScenePass::Open;
            }
        }
        let load = if self.cleared {
            LoadOp::Load
        } else {
            self.cleared = true;
            LoadOp::Clear
        };
        self.open = Some(Target::Scene);
        self.passes += 1;
        ScenePass::New(load)
    }

    /// A draw into anything else. An open pass is closed, and no later draw
    /// joins this one.
    pub fn offscreen(&mut self)
        requires
            old(self).passes < u64::MAX,
        ensures
            *final(self) == (FrameEncoder {
                open: Some(Target::Other),
                passes: (old(self).passes + 1) as u64,
                ..*old(self)
            }),
            sound(*final(self)),
    {
        self.open = Some(Target::Other);
        self.passes += 1;
    }

    /// A draw into the scene with depth. No other draw joins it.
    pub fn with_depth(&mut self)
        requires
            old(self).passes < u64::MAX,
        ensures
            *final(self) == (FrameEncoder {
                open: Some(Target::Other),
                dirty: true,
                passes: (old(self).passes + 1) as u64,
                ..*old(self)
            }),
            sound(*final(self)),
    {
        self.open = Some(Target::Other);
        self.passes += 1;
        self.dirty = true;
    }

    /// Something that is recorded outside of any pass: an open one is closed.
    pub fn raw(&mut self)
        ensures
            *final(self) == (FrameEncoder { open: None, ..*old(self) }),
            sound(*final(self)),
    {
        self.open = None;
    }

    /// Makes sure that the scene is cleared in this frame. Returns whether a
    /// pass that clears it is opened.
    pub fn ensure_cleared(&mut self) -> (r: bool)
        requires
            old(self).passes < u64::MAX,
        ensures
            r == !old(self).cleared,
            *final(self) == after_clear(*old(self)),
            sound(*old(self)) ==> sound(*final(self)),
    {
        if !self.cleared {
            let opened = self.scene();
            return true;
        }
        false
    }

    /// Asks for a copy of the scene. Returns whether it is cleared first, and
    /// whether it is copied: a scene that has not changed since the last copy
    /// is not.
    pub fn refresh_snapshot(&mut self) -> (r: (bool, bool))
        requires
            old(self).passes < u64::MAX,
        ensures
            r.0 == !old(self).cleared,
            r.1 == copies(*old(self)),
            *final(self) == after_snapshot(*old(self)),
            sound(*old(self)) ==> sound(*final(self)),
    {
        let clears = self.ensure_cleared();
        if !self.dirty && !self.unbatched {
            return (clears, false);
        }
        self.raw();
        self.dirty = false;
        (clears, true)
    }
}

/// Draws into the scene that follow each other share one pass, where passes
/// are batched: the second joins the first.
pub proof fn law_draws_share_a_pass(s: FrameEncoder)
    requires
        !s.unbatched,
        s.passes < u64::MAX,
    ensures
        scene_pass(after_scene(s)) == ScenePass::Open,
        after_scene(after_scene(s)) == after_scene(s),
{
}

/// A frame clears the scene once: after the first draw into it, or the first
/// copy of it, every pass on it keeps what is there.
pub proof fn law_the_scene_is_cleared_once(s: FrameEncoder)
    requires
        sound(s),
    ensures
        scene_pass(s) == ScenePass::New(LoadOp::Clear) <==> !s.cleared,
        scene_pass(after_scene(s)) != ScenePass::New(LoadOp::Clear),
        scene_pass(after_snapshot(s)) != ScenePass::New(LoadOp::Clear),
{
}

/// A copy is not made twice of one scene: right after a copy a second is
/// skipped where passes are batched, and a draw in between brings it back.
pub proof fn law_unchanged_scenes_are_not_copied_again(s: FrameEncoder)
    requires
        sound(s),
        !s.unbatched,
    ensures
        !copies(after_snapshot(s)),
        copies(after_scene(after_snapshot(s))),
{
}

} // verus!
