//! The layout buffer: it gathers the logical runs of a text and shapes them
//! once against a sized face.

use vstd::prelude::*;
use vstd::slice::slice_to_vec;
use crate::context::{ContextState, ShapingContext};
use crate::engine::{Config, MissingGlyphPolicy};
use crate::error::LayoutError;
use crate::font::{FaceState, FaceTables, FontFace};
use crate::segment::{
    lemma_segment_containing, lemma_segmentation_exists, lemma_segments_start_characters,
    resolve_direction, resolved_direction, segment_run, segmentation, uniform_segment, Segment,
};
use crate::shape::{
    all_mapped, clusters_in_order, covered, lemma_mapped_from_later, lemma_mapped_up_to_earlier,
    lemma_segment_covered, lemma_shaped_segment_order, map_to_glyphs, output_place,
    shape_segment, shaped_segment, Glyph,
};
use crate::text::{is_well_formed_utf16, well_formed_utf16, Direction, DirectionHint};

verus! {

/// Where a buffer stands in its life.
#[derive(Clone, Copy, Debug, PartialEq, Eq, Structural)]
pub enum BufferState {
    /// Nothing was pushed yet.
    Empty,
    /// At least one run was pushed.
    Accumulating,
    /// The buffer was shaped; it takes no more runs and shapes no more.
    Shaped,
}

/// One logical run as a mathematical value.
pub struct RunView {
    pub units: Seq<u16>,
    pub hint: DirectionHint,
}

/// The shaped glyphs of one segment as a mathematical value.
pub struct GlyphRunView {
    pub run_index: usize,
    pub segment: Segment,
    pub glyphs: Seq<Glyph>,
    pub fully_mapped: bool,
}

/// The shaped glyphs of one segment: the run it belongs to, the segment's
/// range of code units within that run, its glyphs in output order, and
/// whether the font had a glyph for each of its characters. Where it had
/// not, the glyph for missing characters stands in.
#[derive(Debug)]
pub struct GlyphRun {
    pub run_index: usize,
    pub segment: Segment,
    pub glyphs: Vec<Glyph>,
    pub fully_mapped: bool,
}

impl View for GlyphRun {
    type V = GlyphRunView;

    open spec fn view(&self) -> GlyphRunView {
        GlyphRunView {
            run_index: self.run_index,
            segment: self.segment,
            glyphs: self.glyphs@,
            fully_mapped: self.fully_mapped,
        }
    }
}

/// A sequence of glyph runs as mathematical values.
pub open spec fn glyph_runs_view(runs: Seq<GlyphRun>) -> Seq<GlyphRunView> {
    Seq::new(runs.len(), |i: int| runs[i]@)
}

/// Whether the segments of a run come out last first: only for a
/// right-to-left run, and only when visual order is asked for.
pub open spec fn segments_reversed(direction: Direction, visual: bool) -> bool {
    visual && direction == Direction::RightToLeft
}

/// Which segment comes out at place `k` of `count`.
pub open spec fn segment_at_place(count: int, reversed: bool, k: int) -> int {
    if reversed {
        count - 1 - k
    } else {
        k
    }
}

/// The glyph run of one segment of a run of text.
pub open spec fn shaped_glyph_run(
    units: Seq<u16>,
    run_index: usize,
    tables: FaceTables,
    px: u16,
    segment: Segment,
) -> GlyphRunView {
    GlyphRunView {
        run_index,
        segment,
        glyphs: shaped_segment(units, tables, px, segment),
        fully_mapped: all_mapped(units, tables, segment.start as int, segment.end as int),
    }
}

/// The glyph runs of one run of text, one for each segment.
pub open spec fn shaped_run(
    run: RunView,
    run_index: usize,
    tables: FaceTables,
    px: u16,
    visual: bool,
) -> Seq<GlyphRunView> {
    let direction = resolved_direction(run.units, run.hint);
    let segments = segmentation(run.units, direction);
    Seq::new(
        segments.len(),
        |k: int|
            {
                let segment = segments[segment_at_place(
                    segments.len() as int,
                    segments_reversed(direction, visual),
                    k,
                )];
                shaped_glyph_run(run.units, run_index, tables, px, segment)
            },
    )
}

/// The glyph runs of the first `upto` runs of text, in the order in which
/// the runs were pushed.
pub open spec fn shaped_runs(
    runs: Seq<RunView>,
    tables: FaceTables,
    px: u16,
    visual: bool,
    upto: int,
) -> Seq<GlyphRunView>
    decreases upto,
{
    if upto <= 0 {
        Seq::empty()
    } else {
        shaped_runs(runs, tables, px, visual, upto - 1) + shaped_run(
            runs[upto - 1],
            (upto - 1) as usize,
            tables,
            px,
            visual,
        )
    }
}

/// Whether the font has a glyph for every character of the first `upto` runs.
pub open spec fn runs_mapped(runs: Seq<RunView>, tables: FaceTables, upto: int) -> bool {
    forall|i: int|
        0 <= i < upto ==> all_mapped(
            (#[trigger] runs[i]).units,
            tables,
            0,
            runs[i].units.len() as int,
        )
}

/// A buffer as a mathematical value.
#[verifier::ext_equal]
pub struct BufferView {
    pub state: BufferState,
    pub runs: Seq<RunView>,
    pub missing_glyph_policy: MissingGlyphPolicy,
    pub visual_reorder_output: bool,
}

impl BufferView {
    /// A buffer holds runs exactly while it accumulates, and every run it
    /// holds is well-formed UTF-16.
    pub open spec fn wf(self) -> bool {
        &&& self.state == BufferState::Accumulating <==> self.runs.len() > 0
        &&& forall|i: int| 0 <= i < self.runs.len() ==> well_formed_utf16((#[trigger] self.runs[i]).units)
    }

    /// A buffer to which nothing was pushed yet.
    pub open spec fn fresh(config: Config) -> BufferView {
        BufferView {
            state: BufferState::Empty,
            runs: Seq::empty(),
            missing_glyph_policy: config.missing_glyph_policy,
            visual_reorder_output: config.visual_reorder_output,
        }
    }

    /// What a push answers: a shaped buffer takes nothing more, and
    /// malformed text is refused.
    pub open spec fn push_result(self, units: Seq<u16>) -> Result<(), LayoutError> {
        if self.state == BufferState::Shaped {
            Err(LayoutError::BufferConsumed)
        } else if !well_formed_utf16(units) {
            Err(LayoutError::Encoding)
        } else {
            Ok(())
        }
    }

    /// The buffer after a push: one run longer if the push was accepted, as
    /// before if it was refused.
    pub open spec fn after_push(self, units: Seq<u16>, hint: DirectionHint) -> BufferView {
        if self.push_result(units) is Ok {
            BufferView {
                state: BufferState::Accumulating,
                runs: self.runs.push(RunView { units, hint }),
                ..self
            }
        } else {
            self
        }
    }

    /// What shaping answers.
    pub open spec fn shape_result(self, context: ContextState, face: FaceState) -> Result<
        Seq<GlyphRunView>,
        LayoutError,
    > {
        if self.state == BufferState::Shaped {
            Err(LayoutError::BufferConsumed)
        } else if context.stale_for(face) {
            Err(LayoutError::StaleContext)
        } else if self.missing_glyph_policy == MissingGlyphPolicy::Fatal && !runs_mapped(
            self.runs,
            face.tables,
            self.runs.len() as int,
        ) {
            Err(LayoutError::UnmappableGlyph)
        } else {
            Ok(
                shaped_runs(
                    self.runs,
                    face.tables,
                    context.pixel_size,
                    self.visual_reorder_output,
                    self.runs.len() as int,
                ),
            )
        }
    }

    /// Whether shaping uses the buffer up. A consumed buffer stays so, and a
    /// stale context is noticed before anything is touched; in every other
    /// case the runs are taken, whether glyphs come out or not.
    pub open spec fn shape_consumes(self, context: ContextState, face: FaceState) -> bool {
        self.state != BufferState::Shaped && !context.stale_for(face)
    }

    /// The buffer after shaping.
    pub open spec fn after_shape(self, context: ContextState, face: FaceState) -> BufferView {
        if self.shape_consumes(context, face) {
            BufferView { state: BufferState::Shaped, runs: Seq::empty(), ..self }
        } else {
            self
        }
    }
}

/// One logical run of text.
struct TextRun {
    units: Vec<u16>,
    hint: DirectionHint,
}

impl View for TextRun {
    type V = RunView;

    closed spec fn view(&self) -> RunView {
        RunView { units: self.units@, hint: self.hint }
    }
}

/// An accumulator of logical runs of text that is shaped once.
pub struct LayoutBuffer {
    state: BufferState,
    runs: Vec<TextRun>,
    missing_glyph_policy: MissingGlyphPolicy,
    visual_reorder_output: bool,
}

impl View for LayoutBuffer {
    type V = BufferView;

    closed spec fn view(&self) -> BufferView {
        BufferView {
            state: self.state,
            runs: Seq::new(self.runs@.len(), |i: int| self.runs@[i]@),
            missing_glyph_policy: self.missing_glyph_policy,
            visual_reorder_output: self.visual_reorder_output,
        }
    }
}

impl LayoutBuffer {
    /// An empty buffer with the default options.
    pub fn new() -> (buffer: LayoutBuffer)
        ensures
            buffer@ == BufferView::fresh(Config::standard()),
            buffer@.wf(),
    {
        let buffer = LayoutBuffer {
            state: BufferState::Empty,
            runs: Vec::new(),
            missing_glyph_policy: MissingGlyphPolicy::Substitute,
            visual_reorder_output: false,
        };
        assert(buffer@.runs =~= Seq::empty());
        buffer
    }

    /// An empty buffer with the shaping options of `config`.
    pub fn with_config(config: &Config) -> (buffer: LayoutBuffer)
        ensures
            buffer@ == BufferView::fresh(*config),
            buffer@.wf(),
    {
        let buffer = LayoutBuffer {
            state: BufferState::Empty,
            runs: Vec::new(),
            missing_glyph_policy: config.missing_glyph_policy,
            visual_reorder_output: config.visual_reorder_output,
        };
        assert(buffer@.runs =~= Seq::empty());
        buffer
    }

    pub fn state(&self) -> (state: BufferState)
        ensures
            state == self@.state,
    {
        self.state
    }

    /// How many runs the buffer holds.
    pub fn run_count(&self) -> (count: usize)
        ensures
            count == self@.runs.len(),
    {
        self.runs.len()
    }

    /// Appends one logical run with a hint at its base direction.
    pub fn push_run(&mut self, code_units: &[u16], hint: DirectionHint) -> (result: Result<
        (),
        LayoutError,
    >)
        ensures
            result == old(self)@.push_result(code_units@),
            final(self)@ == old(self)@.after_push(code_units@, hint),
            old(self)@.wf() ==> final(self)@.wf(),
    {
        if self.state == BufferState::Shaped {
            return Err(LayoutError::BufferConsumed);
        }
        if !is_well_formed_utf16(code_units) {
            return Err(LayoutError::Encoding);
        }
        let run = TextRun { units: slice_to_vec(code_units), hint };
        let ghost before = self@;
        self.runs.push(run);
        self.state = BufferState::Accumulating;
        assert(self@.runs =~= before.runs.push(RunView { units: code_units@, hint }));
        Ok(())
    }

    /// Appends one logical run and leaves its direction to be inferred.
    pub fn push_utf16_run(&mut self, run: &[u16]) -> (result: Result<(), LayoutError>)
        ensures
            result == old(self)@.push_result(run@),
            final(self)@ == old(self)@.after_push(run@, DirectionHint::Auto),
            old(self)@.wf() ==> final(self)@.wf(),
    {
        self.push_run(run, DirectionHint::Auto)
    }

    /// Shapes the runs against the face that `context` was derived from and
    /// uses the buffer up. A consumed buffer and a stale context are
    /// refused before anything is touched.
    pub fn shape(&mut self, context: &ShapingContext, face: &FontFace) -> (result: Result<
        Vec<GlyphRun>,
        LayoutError,
    >)
        ensures
            match old(self)@.shape_result(context@, face@) {
                Ok(runs) => result is Ok && glyph_runs_view(result->Ok_0@) == runs,
                Err(error) => result is Err && result->Err_0 == error,
            },
            final(self)@ == old(self)@.after_shape(context@, face@),
            old(self)@.wf() ==> final(self)@.wf(),
    {
        if self.state == BufferState::Shaped {
            return Err(LayoutError::BufferConsumed);
        }
        if context.is_stale(face) {
            return Err(LayoutError::StaleContext);
        }
        let ghost before = self@;
        let mut runs: Vec<TextRun> = Vec::new();
        core::mem::swap(&mut runs, &mut self.runs);
        self.state = BufferState::Shaped;
        assert(self@.runs =~= Seq::empty());
        assert(before.runs =~= Seq::new(runs@.len(), |i: int| runs@[i]@));
        if self.missing_glyph_policy == MissingGlyphPolicy::Fatal && !runs_are_mapped(&runs, face) {
            return Err(LayoutError::UnmappableGlyph);
        }
        let px = context.pixel_size();
        let visual = self.visual_reorder_output;
        let mut out: Vec<GlyphRun> = Vec::new();
        let n = runs.len();
        let mut r: usize = 0;
        assert(glyph_runs_view(out@) =~= Seq::empty());
        while r < n
            invariant
                n == runs@.len(),
                r <= n,
                before.runs == Seq::new(runs@.len(), |i: int| runs@[i]@),
                glyph_runs_view(out@) == shaped_runs(
                    before.runs,
                    face@.tables,
                    px,
                    visual,
                    r as int,
                ),
            decreases n - r,
        {
            assert(before.runs[r as int] == runs@[r as int]@);
            shape_run(&runs[r], r, face, px, visual, &mut out);
            r = r + 1;
        }
        Ok(out)
    }

    /// Shapes the runs against the face at its current size and gives the
    /// buffer up.
    pub fn layout(self, font: &FontFace) -> (result: Result<Vec<GlyphRun>, LayoutError>)
        ensures
            match ContextState::derived(font@) {
                Err(error) => result is Err && result->Err_0 == error,
                Ok(context) => match self@.shape_result(context, font@) {
                    Ok(runs) => result is Ok && glyph_runs_view(result->Ok_0@) == runs,
                    Err(error) => result is Err && result->Err_0 == error,
                },
            },
    {
        let mut buffer = self;
        match ShapingContext::derive(font) {
            Err(error) => Err(error),
            Ok(context) => buffer.shape(&context, font),
        }
    }
}

/// Whether the font has a glyph for every character of every run.
fn runs_are_mapped(runs: &Vec<TextRun>, face: &FontFace) -> (mapped: bool)
    ensures
        mapped == runs_mapped(
            Seq::new(runs@.len(), |i: int| runs@[i]@),
            face@.tables,
            runs@.len() as int,
        ),
{
    let ghost views = Seq::new(runs@.len(), |i: int| runs@[i]@);
    let n = runs.len();
    let mut i: usize = 0;
    while i < n
        invariant
            n == runs@.len(),
            i <= n,
            views == Seq::new(runs@.len(), |i: int| runs@[i]@),
            runs_mapped(views, face@.tables, i as int),
        decreases n - i,
    {
        let units = runs[i].units.as_slice();
        assert(units@ == views[i as int].units);
        let (_, complete) = map_to_glyphs(units, face, 0, units.len());
        if !complete {
            return false;
        }
        i = i + 1;
    }
    true
}

/// Shapes one run of text and appends its glyph runs to `out`.
fn shape_run(
    run: &TextRun,
    run_index: usize,
    face: &FontFace,
    px: u16,
    visual: bool,
    out: &mut Vec<GlyphRun>,
)
    ensures
        glyph_runs_view(final(out)@) == glyph_runs_view(old(out)@) + shaped_run(
            run@,
            run_index,
            face@.tables,
            px,
            visual,
        ),
{
    let units = run.units.as_slice();
    let direction = resolve_direction(units, run.hint);
    let segments = segment_run(units, direction);
    let reversed = visual && direction == Direction::RightToLeft;
    let count = segments.len();
    let ghost before = glyph_runs_view(out@);
    let ghost whole = shaped_run(run@, run_index, face@.tables, px, visual);
    let mut k: usize = 0;
    while k < count
        invariant
            count == segments@.len(),
            k <= count,
            units@ == run@.units,
            segments@ == segmentation(run@.units, direction),
            crate::segment::is_segmentation(run@.units, direction, segments@),
            direction == resolved_direction(run@.units, run@.hint),
            reversed == segments_reversed(direction, visual),
            whole == shaped_run(run@, run_index, face@.tables, px, visual),
            glyph_runs_view(out@) == before + whole.take(k as int),
        decreases count - k,
    {
        let j = if reversed {
            count - 1 - k
        } else {
            k
        };
        let segment = segments[j];
        assert(crate::segment::uniform_segment(run@.units, direction, segments@[j as int]));
        let (glyphs, fully_mapped) = shape_segment(units, face, px, &segment);
        let glyph_run = GlyphRun { run_index, segment, glyphs, fully_mapped };
        proof {
            assert(glyph_run@ == whole[k as int]);
            assert(glyph_runs_view(out@.push(glyph_run)) =~= glyph_runs_view(out@).push(
                glyph_run@,
            ));
            assert(whole.take(k + 1) =~= whole.take(k as int).push(whole[k as int]));
            assert((before + whole.take(k as int)).push(whole[k as int]) =~= before + whole.take(
                k + 1,
            ));
        }
        out.push(glyph_run);
        k = k + 1;
    }
    proof {
        assert(whole.take(count as int) =~= whole);
    }
}

/// A buffer is shaped once. After a shaping that succeeded, or that failed
/// for any reason but a stale context, the buffer refuses every further
/// push and every further shaping, and stays as it is.
pub proof fn lemma_single_use(
    buffer: BufferView,
    context: ContextState,
    face: FaceState,
    units: Seq<u16>,
    hint: DirectionHint,
    later_context: ContextState,
    later_face: FaceState,
)
    requires
        buffer.shape_result(context, face) != Err::<Seq<GlyphRunView>, LayoutError>(
            LayoutError::StaleContext,
        ),
    ensures
        ({
            let shaped = buffer.after_shape(context, face);
            &&& shaped.state == BufferState::Shaped
            &&& shaped.push_result(units) == Err::<(), LayoutError>(LayoutError::BufferConsumed)
            &&& shaped.after_push(units, hint) == shaped
            &&& shaped.shape_result(later_context, later_face) == Err::<
                Seq<GlyphRunView>,
                LayoutError,
            >(LayoutError::BufferConsumed)
            &&& shaped.after_shape(later_context, later_face) == shaped
        }),
{
}

/// A shaping that is refused for a stale context leaves the buffer as it
/// was, to be shaped with a context derived anew.
pub proof fn lemma_stale_context_refused(
    buffer: BufferView,
    context: ContextState,
    face: FaceState,
)
    requires
        buffer.state != BufferState::Shaped,
        context.stale_for(face),
    ensures
        buffer.shape_result(context, face) == Err::<Seq<GlyphRunView>, LayoutError>(
            LayoutError::StaleContext,
        ),
        buffer.after_shape(context, face) == buffer,
{
}

/// A buffer to which nothing was pushed shapes to no glyph runs at all,
/// whatever the missing-glyph policy.
pub proof fn lemma_empty_input(buffer: BufferView, context: ContextState, face: FaceState)
    requires
        buffer.state != BufferState::Shaped,
        buffer.runs.len() == 0,
        !context.stale_for(face),
    ensures
        buffer.shape_result(context, face) == Ok::<Seq<GlyphRunView>, LayoutError>(Seq::empty()),
{
}

/// The glyph run of the segment at place `j` of the segmentation of the run
/// at place `r`.
pub open spec fn glyph_run_of(
    runs: Seq<RunView>,
    tables: FaceTables,
    px: u16,
    r: int,
    j: int,
) -> GlyphRunView {
    let run = runs[r];
    let segment = segmentation(run.units, resolved_direction(run.units, run.hint))[j];
    shaped_glyph_run(run.units, r as usize, tables, px, segment)
}

/// How many segments the run at place `r` has.
pub open spec fn segment_count(runs: Seq<RunView>, r: int) -> int {
    segmentation(runs[r].units, resolved_direction(runs[r].units, runs[r].hint)).len() as int
}

/// Every glyph run that comes out is the glyph run of one segment of one of
/// the runs that were pushed.
pub proof fn lemma_output_is_segment(
    runs: Seq<RunView>,
    tables: FaceTables,
    px: u16,
    visual: bool,
    upto: int,
    g: int,
) -> (place: (int, int))
    requires
        0 <= upto <= runs.len(),
        0 <= g < shaped_runs(runs, tables, px, visual, upto).len(),
    ensures
        0 <= place.0 < upto,
        0 <= place.1 < segment_count(runs, place.0),
        shaped_runs(runs, tables, px, visual, upto)[g] == glyph_run_of(
            runs,
            tables,
            px,
            place.0,
            place.1,
        ),
    decreases upto,
{
    let earlier = shaped_runs(runs, tables, px, visual, upto - 1);
    if g < earlier.len() {
        lemma_output_is_segment(runs, tables, px, visual, upto - 1, g)
    } else {
        let run = runs[upto - 1];
        let direction = resolved_direction(run.units, run.hint);
        let count = segment_count(runs, upto - 1);
        (upto - 1, segment_at_place(count, segments_reversed(direction, visual), g - earlier.len()))
    }
}

/// The glyph run of every segment of every run that was pushed comes out.
pub proof fn lemma_segment_is_output(
    runs: Seq<RunView>,
    tables: FaceTables,
    px: u16,
    visual: bool,
    upto: int,
    r: int,
    j: int,
) -> (g: int)
    requires
        0 <= r < upto <= runs.len(),
        0 <= j < segment_count(runs, r),
    ensures
        0 <= g < shaped_runs(runs, tables, px, visual, upto).len(),
        shaped_runs(runs, tables, px, visual, upto)[g] == glyph_run_of(runs, tables, px, r, j),
    decreases upto,
{
    let earlier = shaped_runs(runs, tables, px, visual, upto - 1);
    if r < upto - 1 {
        lemma_segment_is_output(runs, tables, px, visual, upto - 1, r, j)
    } else {
        let run = runs[r];
        let direction = resolved_direction(run.units, run.hint);
        let count = segment_count(runs, r);
        let k = segment_at_place(count, segments_reversed(direction, visual), j);
        assert(segment_at_place(count, segments_reversed(direction, visual), k) == j);
        earlier.len() + k
    }
}

/// The code unit at `index` of the run at place `r` is kept: one of the
/// glyph runs is of that run and of a segment that holds the code unit, and
/// in it the code unit belongs to the cluster of a glyph.
pub open spec fn text_kept(out: Seq<GlyphRunView>, r: int, index: int) -> bool {
    exists|g: int|
        {
            &&& 0 <= g < out.len()
            &&& (#[trigger] out[g]).run_index == r
            &&& out[g].segment.start <= index < out[g].segment.end
            &&& covered(out[g].glyphs, index)
        }
}

/// No text is dropped. Where shaping succeeds, every code unit of every run
/// lies in a segment that has a glyph run in the output, and in that glyph
/// run it belongs to the cluster of a glyph.
pub proof fn lemma_no_text_dropped(
    buffer: BufferView,
    context: ContextState,
    face: FaceState,
    r: int,
    index: int,
)
    requires
        buffer.shape_result(context, face) is Ok,
        0 <= r < buffer.runs.len() <= usize::MAX,
        0 <= index < buffer.runs[r].units.len() <= usize::MAX,
    ensures
        text_kept(buffer.shape_result(context, face)->Ok_0, r, index),
{
    let out = buffer.shape_result(context, face)->Ok_0;
    let run = buffer.runs[r];
    let direction = resolved_direction(run.units, run.hint);
    let segments = segmentation(run.units, direction);
    lemma_segmentation_exists(run.units, direction);
    assert(segments.len() > 0);
    let j = lemma_segment_containing(run.units, direction, segments, index, 0);
    let g = lemma_segment_is_output(
        buffer.runs,
        face.tables,
        context.pixel_size,
        buffer.visual_reorder_output,
        buffer.runs.len() as int,
        r,
        j,
    );
    lemma_segment_covered(run.units, face.tables, context.pixel_size, segments[j], index);
    assert(out[g].run_index == r);
}

/// In every glyph run that comes out there is at least one glyph, and in
/// output order the clusters never fall if the segment is left-to-right and
/// never rise if it is right-to-left: a right-to-left segment comes out in
/// the reverse of its logical order. The glyph that is first in logical
/// order begins the segment.
pub proof fn lemma_output_order(
    buffer: BufferView,
    context: ContextState,
    face: FaceState,
    g: int,
)
    requires
        buffer.shape_result(context, face) is Ok,
        0 <= g < buffer.shape_result(context, face)->Ok_0.len(),
        forall|r: int| 0 <= r < buffer.runs.len() ==> (#[trigger] buffer.runs[r]).units.len() <= usize::MAX,
    ensures
        ({
            let run = buffer.shape_result(context, face)->Ok_0[g];
            &&& run.glyphs.len() > 0
            &&& clusters_in_order(run.glyphs, run.segment.direction)
            &&& run.glyphs[output_place(
                run.glyphs.len() as int,
                run.segment.direction,
                0,
            )].cluster_index == run.segment.start
        }),
{
    let place = lemma_output_is_segment(
        buffer.runs,
        face.tables,
        context.pixel_size,
        buffer.visual_reorder_output,
        buffer.runs.len() as int,
        g,
    );
    let run = buffer.runs[place.0];
    let direction = resolved_direction(run.units, run.hint);
    let segments = segmentation(run.units, direction);
    lemma_segmentation_exists(run.units, direction);
    assert(uniform_segment(run.units, direction, segments[place.1]));
    lemma_shaped_segment_order(run.units, face.tables, context.pixel_size, segments[place.1]);
}

/// Under the fatal policy no glyph for missing characters comes out: where
/// shaping succeeds, the font had a glyph for every character of every
/// glyph run.
pub proof fn lemma_fatal_policy_maps_all(
    buffer: BufferView,
    context: ContextState,
    face: FaceState,
    g: int,
)
    requires
        buffer.missing_glyph_policy == MissingGlyphPolicy::Fatal,
        buffer.shape_result(context, face) is Ok,
        0 <= g < buffer.shape_result(context, face)->Ok_0.len(),
        forall|r: int| 0 <= r < buffer.runs.len() ==> (#[trigger] buffer.runs[r]).units.len() <= usize::MAX,
    ensures
        buffer.shape_result(context, face)->Ok_0[g].fully_mapped,
{
    let place = lemma_output_is_segment(
        buffer.runs,
        face.tables,
        context.pixel_size,
        buffer.visual_reorder_output,
        buffer.runs.len() as int,
        g,
    );
    let run = buffer.runs[place.0];
    let direction = resolved_direction(run.units, run.hint);
    let segments = segmentation(run.units, direction);
    let segment = segments[place.1];
    let end = run.units.len() as int;
    lemma_segmentation_exists(run.units, direction);
    assert(uniform_segment(run.units, direction, segment));
    lemma_segments_start_characters(run.units, direction, segments, place.1);
    assert(all_mapped(run.units, face.tables, 0, end));
    lemma_mapped_from_later(run.units, face.tables, 0, segment.start as int, end);
    lemma_mapped_up_to_earlier(
        run.units,
        face.tables,
        segment.start as int,
        segment.end as int,
        end,
    );
}

} // verus!
