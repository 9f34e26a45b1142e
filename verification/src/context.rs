//! The shaping context: a face's path and size as they were when the context
//! was derived, by which a later resize is noticed.

use vstd::prelude::*;
use crate::error::LayoutError;
use crate::font::{FaceState, FaceTables, FontFace, FontMetrics};

verus! {

/// A context as a mathematical value: the state of the face that it is
/// bound to.
pub struct ContextState {
    pub path: Seq<char>,
    pub pixel_size: u16,
    pub revision: u64,
    pub units_per_em: u16,
}

impl ContextState {
    /// The context that binds to a face in its current state.
    pub open spec fn bound_to(face: FaceState) -> ContextState {
        ContextState {
            path: face.path,
            pixel_size: face.pixel_size,
            revision: face.revision,
            units_per_em: face.tables.units_per_em,
        }
    }

    /// What deriving a context from the face gives: a face without a size
    /// has no context.
    pub open spec fn derived(face: FaceState) -> Result<ContextState, LayoutError> {
        if face.pixel_size == 0 {
            Err(LayoutError::SizeUnset)
        } else {
            Ok(ContextState::bound_to(face))
        }
    }

    /// The context no longer describes the face: the face is another one, or
    /// it was resized since.
    pub open spec fn stale_for(self, face: FaceState) -> bool {
        ||| self.path != face.path
        ||| self.pixel_size != face.pixel_size
        ||| self.revision != face.revision
    }
}

/// A read-only snapshot of a sized face, in the form that shaping needs.
pub struct ShapingContext {
    path: String,
    pixel_size: u16,
    revision: u64,
    units_per_em: u16,
}

impl View for ShapingContext {
    type V = ContextState;

    closed spec fn view(&self) -> ContextState {
        ContextState {
            path: self.path@,
            pixel_size: self.pixel_size,
            revision: self.revision,
            units_per_em: self.units_per_em,
        }
    }
}

impl ShapingContext {
    /// Binds a context to the face's current path and size.
    pub fn derive(face: &FontFace) -> (result: Result<ShapingContext, LayoutError>)
        ensures
            match ContextState::derived(face@) {
                Ok(state) => result is Ok && result->Ok_0@ == state,
                Err(error) => result is Err && result->Err_0 == error,
            },
    {
        if face.pixel_size() == 0 {
            Err(LayoutError::SizeUnset)
        } else {
            Ok(
                ShapingContext {
                    path: face.path_string().clone(),
                    pixel_size: face.pixel_size(),
                    revision: face.revision(),
                    units_per_em: face.units_per_em(),
                },
            )
        }
    }

    /// Whether the face changed since the context was derived.
    pub fn is_stale(&self, face: &FontFace) -> (stale: bool)
        ensures
            stale == self@.stale_for(face@),
    {
        self.revision != face.revision() || self.pixel_size != face.pixel_size() || !(self.path
            == *face.path_string())
    }

    /// The pixel size of the face when the context was derived.
    pub fn pixel_size(&self) -> (px: u16)
        ensures
            px == self@.pixel_size,
    {
        self.pixel_size
    }

    pub fn units_per_em(&self) -> (em: u16)
        ensures
            em == self@.units_per_em,
    {
        self.units_per_em
    }
}

/// A context derived from a face is not stale for that face.
pub proof fn lemma_fresh_context_not_stale(face: FaceState)
    ensures
        !ContextState::bound_to(face).stale_for(face),
{
}

/// Once a face is resized, every context derived from it before is stale.
/// The revision count notices a resize to the same size too, as long as it
/// has not reached the largest number it can hold.
pub proof fn lemma_resize_makes_stale(face: FaceState, px: u16)
    requires
        face.accepts_size(px),
        face.revision < u64::MAX || px != face.pixel_size,
    ensures
        ContextState::bound_to(face).stale_for(face.resized(px)),
{
}

/// Size before use: a face as it was loaded has neither metrics nor a
/// context, and a refused resize does not change that.
pub proof fn lemma_size_before_use(
    path: Seq<char>,
    max_pixel_size: Option<u16>,
    tables: FaceTables,
)
    ensures
        ({
            let face = FaceState::fresh(path, max_pixel_size, tables);
            &&& face.metrics() == Err::<FontMetrics, LayoutError>(LayoutError::SizeUnset)
            &&& ContextState::derived(face) == Err::<ContextState, LayoutError>(
                LayoutError::SizeUnset,
            )
        }),
{
}

/// Once a size was accepted the face has metrics and a context.
pub proof fn lemma_sized_face_is_usable(face: FaceState, px: u16)
    requires
        face.accepts_size(px),
    ensures
        face.resized(px).metrics() is Ok,
        ContextState::derived(face.resized(px)) is Ok,
        !(ContextState::derived(face.resized(px))->Ok_0).stale_for(face.resized(px)),
{
}

} // verus!
