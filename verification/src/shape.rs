//! Shaping one segment: characters to glyphs, substitution, positioning, and
//! the order in which the glyphs come out.

use vstd::prelude::*;
use crate::font::{scale, scaled, FaceTables, FontFace, NOTDEF_GLYPH};
use crate::segment::Segment;
use crate::text::{char_starts_at, char_width_at, code_point_at, decode_at, Direction};

verus! {

/// A glyph before it is positioned, with the code unit at which the text
/// that it stands for begins.
#[derive(Clone, Copy, Debug, PartialEq, Eq, Structural)]
pub struct ClusterGlyph {
    pub glyph: u32,
    pub cluster: usize,
}

/// One shaped glyph: which glyph, how far the pen moves after it, where it
/// is drawn relative to the pen, and the code unit at which its cluster
/// begins.
#[derive(Clone, Copy, Debug, PartialEq, Eq, Structural)]
pub struct Glyph {
    pub glyph_id: u32,
    pub x_advance: i32,
    pub y_advance: i32,
    pub x_offset: i32,
    pub y_offset: i32,
    pub cluster_index: usize,
}

/// The place where the character after the one at `i` begins.
pub open spec fn next_char(units: Seq<u16>, i: int) -> int {
    i + char_width_at(units, i)
}

/// The glyph of each character of the code units in `[from, end)`, in
/// logical order, each with the place where its character begins. A
/// character without a glyph gets the glyph for missing characters.
pub open spec fn nominal_glyphs(units: Seq<u16>, tables: FaceTables, from: int, end: int) -> Seq<ClusterGlyph>
    decreases end - from + 1,
{
    if from < 0 || from >= end {
        Seq::empty()
    } else {
        seq![
            ClusterGlyph {
                glyph: tables.glyph_for(code_point_at(units, from)),
                cluster: from as usize,
            },
        ] + nominal_glyphs(units, tables, next_char(units, from), end)
    }
}

/// Whether the font has a glyph for every character in `[from, end)`.
pub open spec fn all_mapped(units: Seq<u16>, tables: FaceTables, from: int, end: int) -> bool
    decreases end - from + 1,
{
    if from < 0 || from >= end {
        true
    } else {
        tables.has_glyph(code_point_at(units, from)) && all_mapped(
            units,
            tables,
            next_char(units, from),
            end,
        )
    }
}

/// Every glyph of the sequence is one that the font has.
pub open spec fn glyphs_in_font(glyphs: Seq<ClusterGlyph>, count: int) -> bool {
    forall|k: int| 0 <= k < glyphs.len() ==> (#[trigger] glyphs[k]).glyph < count
}

/// Maps the characters of `[start, end)` to glyphs. Says besides whether
/// the font had a glyph for each of them.
pub fn map_to_glyphs(units: &[u16], face: &FontFace, start: usize, end: usize) -> (mapped: (
    Vec<ClusterGlyph>,
    bool,
))
    requires
        start <= end <= units@.len(),
    ensures
        mapped.0@ == nominal_glyphs(units@, face@.tables, start as int, end as int),
        mapped.1 == all_mapped(units@, face@.tables, start as int, end as int),
        glyphs_in_font(mapped.0@, face@.tables.advances.len() as int),
{
    let mut glyphs: Vec<ClusterGlyph> = Vec::new();
    let mut complete = true;
    let mut i: usize = start;
    let count = face.glyph_count();
    let n = units.len();
    while i < end
        invariant
            start <= i,
            end <= units@.len(),
            n == units@.len(),
            count == face@.tables.advances.len(),
            glyphs@ + nominal_glyphs(units@, face@.tables, i as int, end as int)
                == nominal_glyphs(units@, face@.tables, start as int, end as int),
            (complete && all_mapped(units@, face@.tables, i as int, end as int)) == all_mapped(
                units@,
                face@.tables,
                start as int,
                end as int,
            ),
            glyphs_in_font(glyphs@, count as int),
        decreases units@.len() + 1 - i,
    {
        let (cp, width) = decode_at(units, i);
        assert(i + width <= units@.len());
        let glyph = match face.glyph_for(cp) {
            Some(g) => g,
            None => {
                complete = false;
                NOTDEF_GLYPH
            },
        };
        let item = ClusterGlyph { glyph, cluster: i };
        proof {
            let rest = nominal_glyphs(units@, face@.tables, next_char(units@, i as int), end as int);
            assert(nominal_glyphs(units@, face@.tables, i as int, end as int) == seq![item] + rest);
            assert(glyphs@.push(item) + rest =~= glyphs@ + (seq![item] + rest));
        }
        glyphs.push(item);
        i = i + width;
    }
    proof {
        assert(nominal_glyphs(units@, face@.tables, i as int, end as int) =~= Seq::empty());
        assert(glyphs@ + Seq::<ClusterGlyph>::empty() =~= glyphs@);
    }
    (glyphs, complete)
}

/// What a glyph becomes when the font's decompositions are applied to it:
/// the two glyphs of its decomposition, both with its cluster, or itself.
pub open spec fn decomposed_glyph(tables: FaceTables, item: ClusterGlyph) -> Seq<ClusterGlyph> {
    match tables.decomposition_for(item.glyph) {
        Some(parts) => seq![
            ClusterGlyph { glyph: parts.0, cluster: item.cluster },
            ClusterGlyph { glyph: parts.1, cluster: item.cluster },
        ],
        None => seq![item],
    }
}

/// The glyphs with every glyph that the font decomposes replaced by its
/// two parts.
pub open spec fn decomposed(tables: FaceTables, glyphs: Seq<ClusterGlyph>) -> Seq<ClusterGlyph>
    decreases glyphs.len(),
{
    if glyphs.len() == 0 {
        Seq::empty()
    } else {
        decomposed(tables, glyphs.drop_last()) + decomposed_glyph(tables, glyphs.last())
    }
}

/// Replaces each glyph that the font decomposes by its two parts.
pub fn decompose(face: &FontFace, glyphs: &Vec<ClusterGlyph>) -> (out: Vec<ClusterGlyph>)
    requires
        glyphs_in_font(glyphs@, face@.tables.advances.len() as int),
    ensures
        out@ == decomposed(face@.tables, glyphs@),
        glyphs_in_font(out@, face@.tables.advances.len() as int),
{
    let mut out: Vec<ClusterGlyph> = Vec::new();
    let n = glyphs.len();
    let mut i: usize = 0;
    while i < n
        invariant
            n == glyphs@.len(),
            i <= n,
            glyphs_in_font(glyphs@, face@.tables.advances.len() as int),
            glyphs_in_font(out@, face@.tables.advances.len() as int),
            out@ == decomposed(face@.tables, glyphs@.take(i as int)),
        decreases n - i,
    {
        let item = glyphs[i];
        proof {
            let upto = glyphs@.take(i + 1);
            assert(upto.drop_last() =~= glyphs@.take(i as int));
            assert(upto.last() == item);
        }
        let ghost before = out@;
        match face.decomposition_for(item.glyph) {
            Some(parts) => {
                let first = ClusterGlyph { glyph: parts.0, cluster: item.cluster };
                let second = ClusterGlyph { glyph: parts.1, cluster: item.cluster };
                out.push(first);
                out.push(second);
                assert(out@ =~= before + seq![first, second]);
            },
            None => {
                out.push(item);
                assert(out@ =~= before + seq![item]);
            },
        }
        i = i + 1;
    }
    assert(glyphs@.take(n as int) =~= glyphs@);
    out
}

/// The glyphs after substitution, given the glyph `pending` that is not yet
/// put out and the glyphs from `i` on that are not yet read. Where the font
/// replaces the pending glyph and the next one by a single glyph, that glyph
/// is pending next, and it keeps the cluster of the first of the two.
pub open spec fn substitute_from(
    tables: FaceTables,
    glyphs: Seq<ClusterGlyph>,
    i: int,
    pending: ClusterGlyph,
) -> Seq<ClusterGlyph>
    decreases glyphs.len() - i,
{
    if i < 0 || i >= glyphs.len() {
        seq![pending]
    } else {
        match tables.ligature_for(pending.glyph, glyphs[i].glyph) {
            Some(glyph) => substitute_from(
                tables,
                glyphs,
                i + 1,
                ClusterGlyph { glyph, cluster: pending.cluster },
            ),
            None => seq![pending] + substitute_from(tables, glyphs, i + 1, glyphs[i]),
        }
    }
}

/// The glyphs after every substitution that the font has for two glyphs in
/// a row was made, from the start of the text on.
pub open spec fn substituted(tables: FaceTables, glyphs: Seq<ClusterGlyph>) -> Seq<ClusterGlyph> {
    if glyphs.len() == 0 {
        Seq::empty()
    } else {
        substitute_from(tables, glyphs, 1, glyphs[0])
    }
}

/// Replaces glyphs in a row by the ligatures that the font has for them.
pub fn substitute(face: &FontFace, glyphs: &Vec<ClusterGlyph>) -> (out: Vec<ClusterGlyph>)
    requires
        glyphs_in_font(glyphs@, face@.tables.advances.len() as int),
    ensures
        out@ == substituted(face@.tables, glyphs@),
        glyphs_in_font(out@, face@.tables.advances.len() as int),
{
    let mut out: Vec<ClusterGlyph> = Vec::new();
    let n = glyphs.len();
    if n == 0 {
        return out;
    }
    let mut pending = glyphs[0];
    let mut i: usize = 1;
    while i < n
        invariant
            n == glyphs@.len(),
            1 <= i <= n,
            glyphs_in_font(glyphs@, face@.tables.advances.len() as int),
            glyphs_in_font(out@, face@.tables.advances.len() as int),
            pending.glyph < face@.tables.advances.len(),
            out@ + substitute_from(face@.tables, glyphs@, i as int, pending) == substituted(
                face@.tables,
                glyphs@,
            ),
        decreases n - i,
    {
        let next = glyphs[i];
        match face.ligature_for(pending.glyph, next.glyph) {
            Some(glyph) => {
                pending = ClusterGlyph { glyph, cluster: pending.cluster };
            },
            None => {
                proof {
                    let rest = substitute_from(face@.tables, glyphs@, i + 1, next);
                    assert(out@.push(pending) + rest =~= out@ + (seq![pending] + rest));
                }
                out.push(pending);
                pending = next;
            },
        }
        i = i + 1;
    }
    proof {
        assert(out@.push(pending) =~= out@ + seq![pending]);
    }
    out.push(pending);
    out
}

/// The glyph at place `k` with its position, scaled to the pixel size: it
/// advances by its own width and the kerning against the glyph after it,
/// and it is drawn where the font's offset for it says. Text is set on a
/// horizontal line, so the pen does not move up or down.
pub open spec fn positioned_glyph(
    tables: FaceTables,
    px: u16,
    glyphs: Seq<ClusterGlyph>,
    k: int,
) -> Glyph {
    let kerning = if k + 1 < glyphs.len() {
        tables.kerning_for(glyphs[k].glyph, glyphs[k + 1].glyph)
    } else {
        0
    };
    Glyph {
        glyph_id: glyphs[k].glyph,
        x_advance: scaled(
            tables.advance_of(glyphs[k].glyph) + kerning,
            px as int,
            tables.units_per_em as int,
        ) as i32,
        y_advance: 0,
        x_offset: scaled(
            tables.offset_for(glyphs[k].glyph).0,
            px as int,
            tables.units_per_em as int,
        ) as i32,
        y_offset: scaled(
            tables.offset_for(glyphs[k].glyph).1,
            px as int,
            tables.units_per_em as int,
        ) as i32,
        cluster_index: glyphs[k].cluster,
    }
}

/// The glyphs with their positions, in logical order.
pub open spec fn positioned(tables: FaceTables, px: u16, glyphs: Seq<ClusterGlyph>) -> Seq<Glyph> {
    Seq::new(glyphs.len(), |k: int| positioned_glyph(tables, px, glyphs, k))
}

/// Gives each glyph its advance at the pixel size.
pub fn position(face: &FontFace, px: u16, glyphs: &Vec<ClusterGlyph>) -> (out: Vec<Glyph>)
    requires
        glyphs_in_font(glyphs@, face@.tables.advances.len() as int),
    ensures
        out@ == positioned(face@.tables, px, glyphs@),
{
    let mut out: Vec<Glyph> = Vec::new();
    let n = glyphs.len();
    let em = face.units_per_em();
    let mut k: usize = 0;
    while k < n
        invariant
            n == glyphs@.len(),
            k <= n,
            em == face@.tables.units_per_em,
            em >= crate::font::MIN_UNITS_PER_EM,
            glyphs_in_font(glyphs@, face@.tables.advances.len() as int),
            out@.len() == k,
            forall|j: int| 0 <= j < k ==> out@[j] == positioned_glyph(face@.tables, px, glyphs@, j),
        decreases n - k,
    {
        let item = glyphs[k];
        let kerning: i16 = if k + 1 < n {
            face.kerning_for(item.glyph, glyphs[k + 1].glyph)
        } else {
            0
        };
        let units: i32 = face.advance_of(item.glyph) as i32 + kerning as i32;
        let offset = face.offset_for(item.glyph);
        out.push(
            Glyph {
                glyph_id: item.glyph,
                x_advance: scale(units, px, em),
                y_advance: 0,
                x_offset: scale(offset.0 as i32, px, em),
                y_offset: scale(offset.1 as i32, px, em),
                cluster_index: item.cluster,
            },
        );
        k = k + 1;
    }
    out
}

/// The glyphs in the order in which they come out: logical order for a
/// left-to-right segment, the reverse of it for a right-to-left one.
pub open spec fn in_output_order(glyphs: Seq<Glyph>, direction: Direction) -> Seq<Glyph> {
    match direction {
        Direction::LeftToRight => glyphs,
        Direction::RightToLeft => glyphs.reverse(),
    }
}

/// Puts the glyphs in output order.
pub fn order_for_output(glyphs: Vec<Glyph>, direction: Direction) -> (out: Vec<Glyph>)
    ensures
        out@ == in_output_order(glyphs@, direction),
{
    match direction {
        Direction::LeftToRight => glyphs,
        Direction::RightToLeft => {
            let n = glyphs.len();
            let mut out: Vec<Glyph> = Vec::new();
            let mut k: usize = 0;
            while k < n
                invariant
                    n == glyphs@.len(),
                    k <= n,
                    out@.len() == k,
                    forall|j: int| 0 <= j < k ==> out@[j] == glyphs@[n - 1 - j],
                decreases n - k,
            {
                out.push(glyphs[n - 1 - k]);
                k = k + 1;
            }
            assert(out@ =~= glyphs@.reverse());
            out
        },
    }
}

/// The glyphs of a segment before positioning: its characters mapped to
/// glyphs, then decomposed, then joined into ligatures.
pub open spec fn segment_glyphs(units: Seq<u16>, tables: FaceTables, segment: Segment) -> Seq<
    ClusterGlyph,
> {
    substituted(
        tables,
        decomposed(
            tables,
            nominal_glyphs(units, tables, segment.start as int, segment.end as int),
        ),
    )
}

/// The glyphs of a segment: mapped, substituted, positioned at the pixel
/// size, and put in output order.
pub open spec fn shaped_segment(
    units: Seq<u16>,
    tables: FaceTables,
    px: u16,
    segment: Segment,
) -> Seq<Glyph> {
    in_output_order(
        positioned(tables, px, segment_glyphs(units, tables, segment)),
        segment.direction,
    )
}

/// Shapes one segment of a run. Says besides whether the font had a glyph
/// for every character of the segment.
pub fn shape_segment(units: &[u16], face: &FontFace, px: u16, segment: &Segment) -> (shaped: (
    Vec<Glyph>,
    bool,
))
    requires
        segment.start <= segment.end <= units@.len(),
    ensures
        shaped.0@ == shaped_segment(units@, face@.tables, px, *segment),
        shaped.1 == all_mapped(units@, face@.tables, segment.start as int, segment.end as int),
{
    let (nominal, complete) = map_to_glyphs(units, face, segment.start, segment.end);
    let parts = decompose(face, &nominal);
    let merged = substitute(face, &parts);
    let placed = position(face, px, &merged);
    (order_for_output(placed, segment.direction), complete)
}

/// If the font has a glyph for every character from `from` on, it has one
/// for every character from a later start of a character on.
pub proof fn lemma_mapped_from_later(
    units: Seq<u16>,
    tables: FaceTables,
    from: int,
    later: int,
    end: int,
)
    requires
        0 <= from <= later <= end <= units.len(),
        char_starts_at(units, later),
        all_mapped(units, tables, from, end),
    ensures
        all_mapped(units, tables, later, end),
    decreases later - from,
{
    if from < later {
        lemma_mapped_from_later(units, tables, next_char(units, from), later, end);
    }
}

/// If the font has a glyph for every character of a range, it has one for
/// every character of a range that ends earlier.
pub proof fn lemma_mapped_up_to_earlier(
    units: Seq<u16>,
    tables: FaceTables,
    from: int,
    earlier: int,
    end: int,
)
    requires
        0 <= from,
        earlier <= end,
        all_mapped(units, tables, from, end),
    ensures
        all_mapped(units, tables, from, earlier),
    decreases end - from + 1,
{
    if from < earlier {
        lemma_mapped_up_to_earlier(units, tables, next_char(units, from), earlier, end);
    }
}

/// The clusters begin at `from`, stay below `end`, and never fall along
/// the glyphs.
pub open spec fn clusters_rise(glyphs: Seq<ClusterGlyph>, from: int, end: int) -> bool {
    &&& glyphs.len() > 0 ==> glyphs[0].cluster == from
    &&& forall|k: int| 0 <= k < glyphs.len() ==> from <= (#[trigger] glyphs[k]).cluster < end
    &&& forall|k: int, l: int|
        0 <= k < l < glyphs.len() ==> (#[trigger] glyphs[k]).cluster <= (
        #[trigger] glyphs[l]).cluster
}

/// The glyphs of the characters in `[from, end)` carry the places of their
/// characters, and there is one for the character at `from`.
proof fn lemma_nominal_clusters(units: Seq<u16>, tables: FaceTables, from: int, end: int)
    requires
        0 <= from < end <= usize::MAX,
    ensures
        nominal_glyphs(units, tables, from, end).len() > 0,
        clusters_rise(nominal_glyphs(units, tables, from, end), from, end),
    decreases end - from,
{
    let all = nominal_glyphs(units, tables, from, end);
    let next = next_char(units, from);
    let rest = nominal_glyphs(units, tables, next, end);
    let head = ClusterGlyph {
        glyph: tables.glyph_for(code_point_at(units, from)),
        cluster: from as usize,
    };
    assert(all == seq![head] + rest);
    if next < end {
        lemma_nominal_clusters(units, tables, next, end);
    } else {
        assert(rest.len() == 0);
    }
    assert forall|k: int| 0 <= k < all.len() implies from <= (#[trigger] all[k]).cluster < end by {
        if k > 0 {
            assert(all[k] == rest[k - 1]);
        }
    }
    assert forall|k: int, l: int| 0 <= k < l < all.len() implies (#[trigger] all[k]).cluster <= (
    #[trigger] all[l]).cluster by {
        assert(all[l] == rest[l - 1]);
        if k > 0 {
            assert(all[k] == rest[k - 1]);
        }
    }
}

/// Decomposition keeps the clusters in order, and ends on the cluster on
/// which the glyphs ended.
proof fn lemma_decomposed_clusters(
    tables: FaceTables,
    glyphs: Seq<ClusterGlyph>,
    from: int,
    end: int,
)
    requires
        glyphs.len() > 0,
        clusters_rise(glyphs, from, end),
    ensures
        decomposed(tables, glyphs).len() > 0,
        clusters_rise(decomposed(tables, glyphs), from, end),
        decomposed(tables, glyphs).last().cluster == glyphs.last().cluster,
    decreases glyphs.len(),
{
    let front = glyphs.drop_last();
    let last = glyphs.last();
    let head = decomposed(tables, front);
    let tail = decomposed_glyph(tables, last);
    let all = decomposed(tables, glyphs);
    assert(all == head + tail);
    assert(forall|k: int| 0 <= k < tail.len() ==> (#[trigger] tail[k]).cluster == last.cluster);
    if front.len() > 0 {
        assert(front[0] == glyphs[0]);
        assert(front.last() == glyphs[front.len() - 1]);
        assert(clusters_rise(front, from, end)) by {
            assert forall|k: int| 0 <= k < front.len() implies from <= (#[trigger] front[k]).cluster
                < end by {
                assert(front[k] == glyphs[k]);
            }
            assert forall|k: int, l: int| 0 <= k < l < front.len() implies (
            #[trigger] front[k]).cluster <= (#[trigger] front[l]).cluster by {
                assert(front[k] == glyphs[k]);
                assert(front[l] == glyphs[l]);
            }
        }
        lemma_decomposed_clusters(tables, front, from, end);
        assert(head.last().cluster <= last.cluster);
        assert forall|k: int, l: int| 0 <= k < l < all.len() implies (#[trigger] all[k]).cluster <= (
        #[trigger] all[l]).cluster by {
            if l < head.len() {
                assert(all[k] == head[k] && all[l] == head[l]);
            } else if k < head.len() {
                assert(all[k] == head[k]);
                assert(all[l] == tail[l - head.len()]);
                if k < head.len() - 1 {
                    assert(head[k].cluster <= head[head.len() - 1].cluster);
                }
            } else {
                assert(all[k] == tail[k - head.len()]);
                assert(all[l] == tail[l - head.len()]);
            }
        }
        assert forall|k: int| 0 <= k < all.len() implies from <= (#[trigger] all[k]).cluster
            < end by {
            if k < head.len() {
                assert(all[k] == head[k]);
            } else {
                assert(all[k] == tail[k - head.len()]);
            }
        }
        assert(all[0] == head[0]);
    } else {
        assert(head.len() == 0);
        assert(all =~= tail);
        assert(last == glyphs[0]);
    }
    assert(all.last() == tail.last());
}

/// Substitution keeps the clusters in order: with a pending glyph whose
/// cluster does not lie after those of the glyphs not yet read, what comes
/// out begins at the pending glyph's cluster and never falls.
proof fn lemma_substitute_clusters(
    tables: FaceTables,
    glyphs: Seq<ClusterGlyph>,
    i: int,
    pending: ClusterGlyph,
    from: int,
    end: int,
)
    requires
        0 <= i <= glyphs.len(),
        from <= pending.cluster < end,
        forall|k: int| i <= k < glyphs.len() ==> pending.cluster <= (#[trigger] glyphs[k]).cluster < end,
        forall|k: int, l: int|
            i <= k < l < glyphs.len() ==> (#[trigger] glyphs[k]).cluster <= (
            #[trigger] glyphs[l]).cluster,
    ensures
        substitute_from(tables, glyphs, i, pending).len() > 0,
        clusters_rise(
            substitute_from(tables, glyphs, i, pending),
            pending.cluster as int,
            end,
        ),
    decreases glyphs.len() - i,
{
    let out = substitute_from(tables, glyphs, i, pending);
    if i < glyphs.len() {
        match tables.ligature_for(pending.glyph, glyphs[i].glyph) {
            Some(glyph) => {
                let merged = ClusterGlyph { glyph, cluster: pending.cluster };
                lemma_substitute_clusters(tables, glyphs, i + 1, merged, from, end);
            },
            None => {
                let rest = substitute_from(tables, glyphs, i + 1, glyphs[i]);
                lemma_substitute_clusters(tables, glyphs, i + 1, glyphs[i], from, end);
                assert(out == seq![pending] + rest);
                assert forall|k: int| 0 <= k < out.len() implies pending.cluster <= (
                #[trigger] out[k]).cluster < end by {
                    if k > 0 {
                        assert(out[k] == rest[k - 1]);
                    }
                }
                assert forall|k: int, l: int| 0 <= k < l < out.len() implies (
                #[trigger] out[k]).cluster <= (#[trigger] out[l]).cluster by {
                    assert(out[l] == rest[l - 1]);
                    if k > 0 {
                        assert(out[k] == rest[k - 1]);
                    }
                }
            },
        }
    }
}

/// A segment that is not empty has glyphs; their clusters begin at the
/// segment's start, stay within the segment, and never fall in logical
/// order.
pub proof fn lemma_segment_clusters(units: Seq<u16>, tables: FaceTables, segment: Segment)
    requires
        segment.start < segment.end,
    ensures
        segment_glyphs(units, tables, segment).len() > 0,
        clusters_rise(
            segment_glyphs(units, tables, segment),
            segment.start as int,
            segment.end as int,
        ),
{
    let from = segment.start as int;
    let end = segment.end as int;
    let nominal = nominal_glyphs(units, tables, from, end);
    lemma_nominal_clusters(units, tables, from, end);
    lemma_decomposed_clusters(tables, nominal, from, end);
    let parts = decomposed(tables, nominal);
    lemma_substitute_clusters(tables, parts, 1, parts[0], from, end);
}

/// In output order the clusters of a left-to-right segment never fall and
/// those of a right-to-left segment never rise.
pub open spec fn clusters_in_order(glyphs: Seq<Glyph>, direction: Direction) -> bool {
    forall|k: int, l: int|
        0 <= k < l < glyphs.len() ==> match direction {
            Direction::LeftToRight => (#[trigger] glyphs[k]).cluster_index <= (
            #[trigger] glyphs[l]).cluster_index,
            Direction::RightToLeft => glyphs[k].cluster_index >= glyphs[l].cluster_index,
        }
}

/// The code unit at `index` belongs to the cluster of the glyph at `k`: the
/// cluster begins at or before it, and no other cluster begins in between.
pub open spec fn in_cluster_of(glyphs: Seq<Glyph>, k: int, index: int) -> bool {
    &&& glyphs[k].cluster_index <= index
    &&& forall|j: int|
        0 <= j < glyphs.len() ==> !(glyphs[k].cluster_index < (#[trigger] glyphs[j]).cluster_index
            <= index)
}

/// The code unit at `index` belongs to the cluster of some glyph.
pub open spec fn covered(glyphs: Seq<Glyph>, index: int) -> bool {
    exists|k: int| 0 <= k < glyphs.len() && in_cluster_of(glyphs, k, index)
}

/// The place in output order of the glyph that is at place `k` in logical
/// order.
pub open spec fn output_place(count: int, direction: Direction, k: int) -> int {
    match direction {
        Direction::LeftToRight => k,
        Direction::RightToLeft => count - 1 - k,
    }
}

/// Positioning and ordering keep each glyph's cluster: the glyph at logical
/// place `k` comes out with the cluster it had.
proof fn lemma_output_clusters(
    tables: FaceTables,
    px: u16,
    glyphs: Seq<ClusterGlyph>,
    direction: Direction,
    k: int,
)
    requires
        0 <= k < glyphs.len(),
    ensures
        in_output_order(positioned(tables, px, glyphs), direction).len() == glyphs.len(),
        in_output_order(positioned(tables, px, glyphs), direction)[output_place(
            glyphs.len() as int,
            direction,
            k,
        )].cluster_index == glyphs[k].cluster,
        in_output_order(positioned(tables, px, glyphs), direction)[output_place(
            glyphs.len() as int,
            direction,
            k,
        )].glyph_id == glyphs[k].glyph,
{
}

/// Among glyphs whose clusters never fall from `from` on, the last one
/// whose cluster begins at or before `index` is found at or below place `k`.
proof fn lemma_last_cluster_before(
    glyphs: Seq<ClusterGlyph>,
    from: int,
    end: int,
    index: int,
    k: int,
) -> (found: int)
    requires
        clusters_rise(glyphs, from, end),
        0 <= k < glyphs.len(),
        from <= index < end,
        forall|j: int| k < j < glyphs.len() ==> (#[trigger] glyphs[j]).cluster > index,
    ensures
        0 <= found <= k,
        glyphs[found].cluster <= index,
        forall|j: int| found < j < glyphs.len() ==> (#[trigger] glyphs[j]).cluster > index,
    decreases k,
{
    if glyphs[k].cluster <= index {
        k
    } else {
        assert(glyphs[0].cluster == from);
        lemma_last_cluster_before(glyphs, from, end, index, k - 1)
    }
}

/// What holds of the glyphs of a segment that is not empty: there is at
/// least one, the clusters lie within the segment and keep their order, and
/// the glyph that is first in logical order begins the segment.
pub proof fn lemma_shaped_segment_order(
    units: Seq<u16>,
    tables: FaceTables,
    px: u16,
    segment: Segment,
)
    requires
        segment.start < segment.end,
    ensures
        shaped_segment(units, tables, px, segment).len() > 0,
        clusters_in_order(shaped_segment(units, tables, px, segment), segment.direction),
        forall|k: int|
            0 <= k < shaped_segment(units, tables, px, segment).len() ==> segment.start <= (
            #[trigger] shaped_segment(units, tables, px, segment)[k]).cluster_index < segment.end,
        shaped_segment(units, tables, px, segment)[output_place(
            shaped_segment(units, tables, px, segment).len() as int,
            segment.direction,
            0,
        )].cluster_index == segment.start,
{
    let logical = segment_glyphs(units, tables, segment);
    let out = shaped_segment(units, tables, px, segment);
    let n = logical.len() as int;
    lemma_segment_clusters(units, tables, segment);
    lemma_output_clusters(tables, px, logical, segment.direction, 0);
    assert forall|k: int| 0 <= k < out.len() implies segment.start <= (#[trigger] out[k]).cluster_index
        < segment.end by {
        let p = output_place(n, segment.direction, k);
        lemma_output_clusters(tables, px, logical, segment.direction, p);
        assert(output_place(n, segment.direction, p) == k);
        assert(out[k].cluster_index == logical[p].cluster);
    }
    assert forall|k: int, l: int| 0 <= k < l < out.len() implies match segment.direction {
        Direction::LeftToRight => (#[trigger] out[k]).cluster_index <= (
        #[trigger] out[l]).cluster_index,
        Direction::RightToLeft => out[k].cluster_index >= out[l].cluster_index,
    } by {
        let pk = output_place(n, segment.direction, k);
        let pl = output_place(n, segment.direction, l);
        lemma_output_clusters(tables, px, logical, segment.direction, pk);
        lemma_output_clusters(tables, px, logical, segment.direction, pl);
        assert(output_place(n, segment.direction, pk) == k);
        assert(output_place(n, segment.direction, pl) == l);
        assert(out[k].cluster_index == logical[pk].cluster);
        assert(out[l].cluster_index == logical[pl].cluster);
    }
}

/// Every code unit of a segment belongs to the cluster of one of the
/// segment's glyphs: no text is dropped.
pub proof fn lemma_segment_covered(
    units: Seq<u16>,
    tables: FaceTables,
    px: u16,
    segment: Segment,
    index: int,
)
    requires
        segment.start <= index < segment.end,
    ensures
        covered(shaped_segment(units, tables, px, segment), index),
{
    let logical = segment_glyphs(units, tables, segment);
    let out = shaped_segment(units, tables, px, segment);
    let n = logical.len() as int;
    lemma_segment_clusters(units, tables, segment);
    let found = lemma_last_cluster_before(
        logical,
        segment.start as int,
        segment.end as int,
        index,
        n - 1,
    );
    let place = output_place(n, segment.direction, found);
    lemma_output_clusters(tables, px, logical, segment.direction, found);
    assert forall|j: int| 0 <= j < out.len() implies !(out[place].cluster_index < (
    #[trigger] out[j]).cluster_index <= index) by {
        let pj = output_place(n, segment.direction, j);
        lemma_output_clusters(tables, px, logical, segment.direction, pj);
        assert(output_place(n, segment.direction, pj) == j);
        assert(out[j].cluster_index == logical[pj].cluster);
        if pj > found {
            assert(logical[pj].cluster > index);
        } else if pj < found {
            assert(logical[pj].cluster <= logical[found].cluster);
        }
    }
    assert(in_cluster_of(out, place, index));
}

} // verus!
