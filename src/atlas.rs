//! The growth protocol of the glyph atlas: when the queued glyphs do not
//! fit, both texture dimensions double and the cache is rebuilt around its
//! intact queue, up to the largest texture side a GPU texture can have.
use vstd::prelude::*;
use rusttype::gpu_cache::Cache;
use crate::draw_cache::DrawCache;

verus! {

/// rusttype's GPU glyph cache, carried as an opaque value.
#[verifier::external_type_specification]
#[verifier::external_body]
pub struct ExCache<'a>(Cache<'a>);

/// The texture size, width and height, that a glyph cache packs into.
pub uninterp spec fn cache_size(cache: Cache) -> (u32, u32);

/// Relies on `Cache::dimensions`: it returns the cache's texture size.
pub assume_specification<'font>[ Cache::<'font>::dimensions ](cache: &Cache<'font>) -> (r: (u32, u32))
    ensures
        r == cache_size(*cache),
;

/// Relies on `Cache::to_builder`, `CacheBuilder::dimensions` and
/// `CacheBuilder::rebuild`: the cache keeps its tolerances and its glyph
/// queue, drops the glyphs it had packed, and packs into the new size.
#[verifier::external_body]
fn resize_cache(cache: &mut Cache, width: u32, height: u32)
    ensures
        cache_size(*final(cache)) == (width, height),
{
    cache.to_builder().dimensions(width, height).rebuild(cache);
}

/// Largest side of an atlas texture: texture sides are 16-bit.
pub const MAX_TEXTURE_SIDE: u32 = 0xffff;

/// Why a draw failed.
#[derive(Clone, Copy, Debug, PartialEq, Eq, Structural)]
pub enum DrawError {
    /// The atlas is full and doubling it would pass the largest texture side.
    AtlasTooLarge { width: u32, height: u32 },
    /// A texture of the doubled size could not be made.
    TextureAllocation { width: u32, height: u32 },
}

/// The doubled atlas size, if both sides stay within the largest side.
pub open spec fn grown_size_spec(size: (u32, u32)) -> Option<(u32, u32)> {
    if 2 * size.0 <= MAX_TEXTURE_SIDE && 2 * size.1 <= MAX_TEXTURE_SIDE {
        Some(((2 * size.0) as u32, (2 * size.1) as u32))
    } else {
        None
    }
}

pub fn grown_size(size: (u32, u32)) -> (r: Option<(u32, u32)>)
    ensures
        r == grown_size_spec(size),
{
    if size.0 <= MAX_TEXTURE_SIDE / 2 && size.1 <= MAX_TEXTURE_SIDE / 2 {
        Some((2 * size.0, 2 * size.1))
    } else {
        None
    }
}

/// What a draw does once it has tried to put the queued glyphs into the atlas.
#[derive(Clone, Copy, Debug, PartialEq, Eq, Structural)]
pub enum AtlasStep {
    /// Every queued glyph is in the atlas.
    Ready,
    /// The glyphs did not fit: make a texture of this size, then `grow`.
    Allocate { width: u32, height: u32 },
    /// The glyphs did not fit and the atlas cannot grow.
    Fail(DrawError),
}

pub open spec fn after_commit_spec(size: (u32, u32), committed: bool) -> AtlasStep {
    if committed {
        AtlasStep::Ready
    } else {
        match grown_size_spec(size) {
            Some((w, h)) => AtlasStep::Allocate { width: w, height: h },
            None => AtlasStep::Fail(DrawError::AtlasTooLarge { width: size.0, height: size.1 }),
        }
    }
}

/// Decides the next step after a commit of the queue into the atlas; on
/// overflow it asks for a texture with both sides doubled.
pub fn after_commit(cache: &Cache, committed: bool) -> (r: AtlasStep)
    ensures
        r == after_commit_spec(cache_size(*cache), committed),
{
    if committed {
        AtlasStep::Ready
    } else {
        let size = cache.dimensions();
        match grown_size(size) {
            Some((width, height)) => AtlasStep::Allocate { width, height },
            None => AtlasStep::Fail(DrawError::AtlasTooLarge { width: size.0, height: size.1 }),
        }
    }
}

/// Completes a growth step once the texture of `width` by `height` was
/// asked for: when it was made, the cache is rebuilt at that size with its
/// queue intact and any draw state must bind the new texture, and the
/// commit is to be tried again; when it was not, the draw fails and
/// nothing changes.
pub fn grow(cache: &mut Cache, draw: &mut DrawCache, allocated: bool, width: u32, height: u32) -> (r: Result<(), DrawError>)
    ensures
        allocated ==> r is Ok && cache_size(*final(cache)) == (width, height) && final(draw)@ == (
        crate::draw_cache::DrawCacheView {
            texture_stale: old(draw)@.texture_stale || old(draw)@.drawn,
            ..old(draw)@
        }),
        !allocated ==> r == Err::<(), DrawError>(DrawError::TextureAllocation { width, height })
            && *final(cache) == *old(cache) && final(draw)@ == old(draw)@,
{
    if allocated {
        resize_cache(cache, width, height);
        draw.texture_rebuilt();
        Ok(())
    } else {
        Err(DrawError::TextureAllocation { width, height })
    }
}

/// Atlas growth: a commit that overflows an atlas of any size that can
/// still grow asks for both dimensions doubled, and once that texture is
/// made the cache packs into the doubled size.
pub proof fn lemma_overflow_doubles(size: (u32, u32), grown: (u32, u32))
    requires
        2 * size.0 <= MAX_TEXTURE_SIDE,
        2 * size.1 <= MAX_TEXTURE_SIDE,
        grown_size_spec(size) == Some(grown),
    ensures
        after_commit_spec(size, false) == (AtlasStep::Allocate { width: grown.0, height: grown.1 }),
        grown.0 == 2 * size.0 && grown.1 == 2 * size.1,
{
}

} // verus!
