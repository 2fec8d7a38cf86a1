//! What a draw keeps across frames: which render-target formats its
//! pipeline was built for and whether the atlas texture it binds is stale.
use vstd::prelude::*;

verus! {

/// The colour and depth formats of a render target, each as a number that
/// identifies the format.
#[derive(Clone, Copy, Debug, PartialEq, Eq, Structural)]
pub struct TargetFormats {
    pub color: u32,
    pub depth: u32,
}

/// Which GPU objects a draw has to make before it issues its one draw call;
/// the instance buffer and count are overwritten on every draw.
#[derive(Clone, Copy, Debug, PartialEq, Eq, Structural)]
pub struct DrawPlan {
    /// Nothing was drawn before: sampler, bindings and pipeline are made anew.
    pub create: bool,
    pub rebuild_pipeline: bool,
    pub rebind_texture: bool,
    pub instances: usize,
}

pub ghost struct DrawCacheView {
    pub drawn: bool,
    pub formats: TargetFormats,
    pub texture_stale: bool,
}

/// The draw state kept across frames.
pub struct DrawCache {
    drawn: bool,
    formats: TargetFormats,
    texture_stale: bool,
}

impl View for DrawCache {
    type V = DrawCacheView;

    closed spec fn view(&self) -> DrawCacheView {
        DrawCacheView { drawn: self.drawn, formats: self.formats, texture_stale: self.texture_stale }
    }
}

impl DrawCache {
    /// Nothing drawn yet.
    pub fn new() -> (r: DrawCache)
        ensures
            !r@.drawn,
            !r@.texture_stale,
    {
        DrawCache { drawn: false, formats: TargetFormats { color: 0, depth: 0 }, texture_stale: false }
    }

    /// The atlas texture was replaced: a draw state that exists must bind
    /// the new one on its next draw.
    pub fn texture_rebuilt(&mut self)
        ensures
            final(self)@ == (DrawCacheView {
                texture_stale: old(self)@.texture_stale || old(self)@.drawn,
                ..old(self)@
            }),
    {
        if self.drawn {
            self.texture_stale = true;
        }
    }

    /// Plans this frame's draw into a target of the given formats: the
    /// first draw makes everything; a later one rebuilds the pipeline only
    /// when the formats changed and rebinds the texture only when it went
    /// stale since the last draw.
    pub fn plan(&mut self, formats: TargetFormats, instances: usize) -> (r: DrawPlan)
        ensures
            r.instances == instances,
            r.create == !old(self)@.drawn,
            r.rebuild_pipeline == (!old(self)@.drawn || old(self)@.formats != formats),
            r.rebind_texture == (old(self)@.drawn && old(self)@.texture_stale),
            final(self)@ == (DrawCacheView { drawn: true, formats, texture_stale: false }),
    {
        let r = if !self.drawn {
            DrawPlan { create: true, rebuild_pipeline: true, rebind_texture: false, instances }
        } else {
            DrawPlan {
                create: false,
                rebuild_pipeline: self.formats != formats,
                rebind_texture: self.texture_stale,
                instances,
            }
        };
        self.drawn = true;
        self.formats = formats;
        self.texture_stale = false;
        r
    }
}

/// Across frames, a draw into the same formats with no atlas rebuild in
/// between makes no GPU object anew.
pub proof fn lemma_steady_frames(before: DrawCacheView, formats: TargetFormats, plan: DrawPlan)
    requires
        before.drawn,
        before.formats == formats,
        !before.texture_stale,
        plan.create == !before.drawn,
        plan.rebuild_pipeline == (!before.drawn || before.formats != formats),
        plan.rebind_texture == (before.drawn && before.texture_stale),
    ensures
        !plan.create && !plan.rebuild_pipeline && !plan.rebind_texture,
{
}

} // verus!
