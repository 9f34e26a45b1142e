//! The font engine: the owner of every face it loads.

use vstd::prelude::*;
use crate::error::{FaceLoadReason, LayoutError};
use crate::font::{FaceData, FaceState, FaceTables, FontFace};

verus! {

/// What to do with a character that the font has no glyph for.
#[derive(Clone, Copy, Debug, PartialEq, Eq, Structural)]
pub enum MissingGlyphPolicy {
    /// Emit the font's glyph for missing characters and go on.
    Substitute,
    /// Fail the shaping.
    Fatal,
}

/// The options that the core recognizes.
#[derive(Clone, Copy, Debug, PartialEq, Eq, Structural)]
pub struct Config {
    /// The largest pixel size a face accepts; `None` leaves it unrestricted.
    pub max_pixel_size: Option<u16>,
    pub missing_glyph_policy: MissingGlyphPolicy,
    /// Whether the segments of a right-to-left run come out in visual order.
    pub visual_reorder_output: bool,
}

impl Config {
    /// The defaults: no cap on the pixel size, missing glyphs substituted,
    /// output in logical order.
    pub open spec fn standard() -> Config {
        Config {
            max_pixel_size: None,
            missing_glyph_policy: MissingGlyphPolicy::Substitute,
            visual_reorder_output: false,
        }
    }
}

impl Default for Config {
    fn default() -> (config: Config)
        ensures
            config == Config::standard(),
    {
        Config {
            max_pixel_size: None,
            missing_glyph_policy: MissingGlyphPolicy::Substitute,
            visual_reorder_output: false,
        }
    }
}

/// The handle of a face within the engine that loaded it.
#[derive(Clone, Copy, Debug, PartialEq, Eq, Structural)]
pub struct FaceId {
    pub index: usize,
}

/// How many of the slots hold a face.
pub open spec fn count_live(slots: Seq<Option<FaceState>>) -> nat
    decreases slots.len(),
{
    if slots.len() == 0 {
        0
    } else {
        count_live(slots.drop_last()) + if slots.last() is Some {
            1nat
        } else {
            0nat
        }
    }
}

/// The engine as a mathematical value: its options and one slot for each
/// face it ever loaded, empty once the face is released.
#[verifier::ext_equal]
pub struct EngineState {
    pub config: Config,
    pub slots: Seq<Option<FaceState>>,
}

impl EngineState {
    /// An engine right after its start.
    pub open spec fn started(config: Config) -> EngineState {
        EngineState { config, slots: Seq::empty() }
    }

    /// Whether the handle names a face that is loaded and not released.
    pub open spec fn live(self, id: FaceId) -> bool {
        id.index < self.slots.len() && self.slots[id.index as int] is Some
    }

    /// The face that a live handle names.
    pub open spec fn face(self, id: FaceId) -> FaceState {
        self.slots[id.index as int]->0
    }

    pub open spec fn live_count(self) -> nat {
        count_live(self.slots)
    }

    /// Why a request to load a face is refused, if it is: the file could not
    /// be opened, it lacks the face asked for, or its tables contradict one
    /// another.
    pub open spec fn load_error(face_index: u32, opened: Result<FaceTables, FaceLoadReason>) -> Option<LayoutError> {
        match opened {
            Err(reason) => Some(LayoutError::FaceLoad(reason)),
            Ok(tables) => if face_index >= tables.face_count {
                Some(LayoutError::FaceLoad(FaceLoadReason::IndexOutOfRange))
            } else if !tables.consistent() {
                Some(LayoutError::FaceLoad(FaceLoadReason::UnsupportedFormat))
            } else {
                None
            },
        }
    }

    /// The engine after it loaded a face from `path`.
    pub open spec fn loaded(self, path: Seq<char>, tables: FaceTables) -> EngineState {
        EngineState {
            slots: self.slots.push(
                Some(FaceState::fresh(path, self.config.max_pixel_size, tables)),
            ),
            ..self
        }
    }

    /// The engine with the face of `id` replaced by `face`.
    pub open spec fn with_face(self, id: FaceId, face: FaceState) -> EngineState {
        EngineState { slots: self.slots.update(id.index as int, Some(face)), ..self }
    }

    /// The engine after it released the face of `id`.
    pub open spec fn released(self, id: FaceId) -> EngineState {
        EngineState { slots: self.slots.update(id.index as int, None), ..self }
    }

    /// The engine may shut down only when none of its faces is live.
    pub open spec fn can_shut_down(self) -> bool {
        self.live_count() == 0
    }
}

pub open spec fn slot_state(slot: Option<FontFace>) -> Option<FaceState> {
    match slot {
        Some(face) => Some(face@),
        None => None,
    }
}

/// The handle to the outline subsystem, and the owner of the faces loaded
/// through it.
pub struct FontEngine {
    config: Config,
    faces: Vec<Option<FontFace>>,
}

impl View for FontEngine {
    type V = EngineState;

    closed spec fn view(&self) -> EngineState {
        EngineState {
            config: self.config,
            slots: Seq::new(self.faces@.len(), |i: int| slot_state(self.faces@[i])),
        }
    }
}

impl FontEngine {
    /// Takes the status that the outline subsystem answered to its start,
    /// and builds the engine if the start succeeded.
    pub fn create(init_status: i32, config: Config) -> (result: Result<FontEngine, LayoutError>)
        ensures
            init_status == 0 ==> result is Ok && result->Ok_0@ == EngineState::started(config),
            init_status != 0 ==> result is Err && result->Err_0 == LayoutError::EngineInit,
    {
        if freetype::succeeded(init_status) {
            let engine = FontEngine { config, faces: Vec::new() };
            assert(engine@.slots =~= Seq::empty());
            Ok(engine)
        } else {
            Err(LayoutError::EngineInit)
        }
    }

    pub fn config(&self) -> (config: Config)
        ensures
            config == self@.config,
    {
        self.config
    }

    /// Loads the face that was opened from `path`. `opened` is what the
    /// outline subsystem reported: the face's data, or why it could not be
    /// opened. A refused load leaves the engine as it was.
    pub fn load_face(
        &mut self,
        path: &str,
        face_index: u32,
        opened: Result<FaceData, FaceLoadReason>,
    ) -> (result: Result<FaceId, LayoutError>)
        ensures
            match EngineState::load_error(
                face_index,
                match opened {
                    Ok(data) => Ok(data@),
                    Err(reason) => Err(reason),
                },
            ) {
                Some(error) => result == Err::<FaceId, LayoutError>(error) && final(self)@ == old(
                    self,
                )@,
                None => result == Ok::<FaceId, LayoutError>(
                    FaceId { index: old(self)@.slots.len() as usize },
                ) && final(self)@ == old(self)@.loaded(path@, opened->Ok_0@),
            },
    {
        match opened {
            Err(reason) => Err(LayoutError::FaceLoad(reason)),
            Ok(data) => {
                if face_index >= data.face_count {
                    Err(LayoutError::FaceLoad(FaceLoadReason::IndexOutOfRange))
                } else if !data.is_consistent() {
                    Err(LayoutError::FaceLoad(FaceLoadReason::UnsupportedFormat))
                } else {
                    let index = self.faces.len();
                    let face = FontFace::new(path.to_owned(), data, self.config.max_pixel_size);
                    self.faces.push(Some(face));
                    assert(final(self)@.slots =~= old(self)@.loaded(path@, data@).slots);
                    Ok(FaceId { index })
                }
            },
        }
    }

    /// The face of a handle, while it is live.
    pub fn face(&self, id: FaceId) -> (face: Option<&FontFace>)
        ensures
            face is Some == self@.live(id),
            face matches Some(f) ==> f@ == self@.face(id),
    {
        if id.index < self.faces.len() {
            self.faces[id.index].as_ref()
        } else {
            None
        }
    }

    /// The face of a handle, to be resized. What the caller makes of the
    /// face is what the engine holds afterwards.
    pub fn face_mut(&mut self, id: FaceId) -> (face: Option<&mut FontFace>)
        ensures
            face is Some == old(self)@.live(id),
            face matches Some(f) ==> f@ == old(self)@.face(id) && final(self)@ == old(
                self,
            )@.with_face(id, final(f)@),
            face is None ==> final(self)@ == old(self)@,
    {
        if id.index < self.faces.len() {
            let slot = &mut self.faces[id.index];
            slot.as_mut()
        } else {
            None
        }
    }

    /// Releases the face of a handle. Says whether there was a live face to
    /// release; a handle that names none leaves the engine as it was.
    pub fn release_face(&mut self, id: FaceId) -> (released: bool)
        ensures
            released == old(self)@.live(id),
            released ==> final(self)@ == old(self)@.released(id),
            !released ==> final(self)@ == old(self)@,
    {
        if id.index < self.faces.len() {
            let slot = &mut self.faces[id.index];
            let was = slot.take();
            was.is_some()
        } else {
            false
        }
    }

    /// How many faces are live.
    pub fn live_faces(&self) -> (count: usize)
        ensures
            count == self@.live_count(),
    {
        let n = self.faces.len();
        let mut count: usize = 0;
        let mut i: usize = 0;
        while i < n
            invariant
                n == self.faces@.len(),
                i <= n,
                count <= i,
                count == count_live(self@.slots.take(i as int)),
            decreases n - i,
        {
            assert(self@.slots.take(i + 1).drop_last() =~= self@.slots.take(i as int));
            if self.faces[i].is_some() {
                count = count + 1;
            }
            i = i + 1;
        }
        assert(self@.slots.take(n as int) =~= self@.slots);
        count
    }

    /// Shuts the engine down. While a face is live the engine refuses and
    /// comes back unchanged.
    pub fn shutdown(self) -> (result: Result<(), FontEngine>)
        ensures
            self@.can_shut_down() ==> result is Ok,
            !self@.can_shut_down() ==> result is Err && result->Err_0@ == self@,
    {
        if self.live_faces() == 0 {
            Ok(())
        } else {
            Err(self)
        }
    }
}

/// No face is counted exactly when every slot is empty.
pub proof fn lemma_count_live_zero(slots: Seq<Option<FaceState>>)
    ensures
        count_live(slots) == 0 <==> (forall|i: int| 0 <= i < slots.len() ==> slots[i] is None),
    decreases slots.len(),
{
    if slots.len() > 0 {
        let front = slots.drop_last();
        lemma_count_live_zero(front);
        if count_live(slots) == 0 {
            assert forall|i: int| 0 <= i < slots.len() implies slots[i] is None by {
                if i < slots.len() - 1 {
                    assert(front[i] is None);
                }
            }
        } else {
            if forall|i: int| 0 <= i < slots.len() ==> slots[i] is None {
                assert forall|i: int| 0 <= i < front.len() implies front[i] is None by {
                    assert(slots[i] is None);
                }
                assert(slots.last() is None);
            }
        }
    }
}

/// While a face is live the engine cannot shut down.
pub proof fn lemma_live_face_blocks_shutdown(engine: EngineState, id: FaceId)
    requires
        engine.live(id),
    ensures
        !engine.can_shut_down(),
{
    lemma_count_live_zero(engine.slots);
}

/// A face that was just loaded is live under the handle that the load
/// answered, has no size yet, and keeps the engine from shutting down. The
/// faces loaded before are as they were.
pub proof fn lemma_loaded_face_is_live(engine: EngineState, path: Seq<char>, tables: FaceTables)
    requires
        engine.slots.len() <= usize::MAX,
    ensures
        ({
            let id = FaceId { index: engine.slots.len() as usize };
            let after = engine.loaded(path, tables);
            &&& after.live(id)
            &&& after.face(id) == FaceState::fresh(path, engine.config.max_pixel_size, tables)
            &&& after.face(id).pixel_size == 0
            &&& !after.can_shut_down()
            &&& forall|other: FaceId|
                engine.live(other) ==> after.live(other) && after.face(other) == engine.face(other)
        }),
{
    let id = FaceId { index: engine.slots.len() as usize };
    lemma_live_face_blocks_shutdown(engine.loaded(path, tables), id);
}

/// Once every face is released the engine can shut down.
pub proof fn lemma_no_live_face_allows_shutdown(engine: EngineState)
    requires
        engine.slots.len() <= usize::MAX,
        forall|id: FaceId| !engine.live(id),
    ensures
        engine.can_shut_down(),
{
    lemma_count_live_zero(engine.slots);
    assert forall|i: int| 0 <= i < engine.slots.len() implies engine.slots[i] is None by {
        let id = FaceId { index: i as usize };
        assert(!engine.live(id));
    }
}

} // verus!
