//! The static decoration. It never emits actions and ignores reactions;
//! it exists to give its cell a sprite to draw.
use vstd::prelude::*;

verus! {

/// Marker for static decorations. An [`crate::items::Item`] of kind
/// `Sprite` has no behavior of its own: the dispatchers leave it untouched
/// and emit nothing for it.
pub struct StaticSprite;

} // verus!
