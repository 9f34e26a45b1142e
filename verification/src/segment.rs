//! Segmentation: the base direction of a run, the script of each of its
//! code units, and the maximal stretches of one script.

use vstd::prelude::*;
use crate::text::{
    char_starts_at, code_point_at, decode_at, is_low_surrogate, low_surrogate, script_of,
    Direction, DirectionHint, Script,
};

verus! {

/// The script of the code unit at `i` by itself. A trailing surrogate has
/// none of its own: it goes with the leading one before it.
#[verifier::opaque]
pub open spec fn unit_script(units: Seq<u16>, i: int) -> Script {
    if is_low_surrogate(units[i]) {
        Script::Common
    } else {
        script_of(code_point_at(units, i))
    }
}

/// The nearest script at or before `i` that is not `Common`; `Common` if
/// there is none.
pub open spec fn script_before(units: Seq<u16>, i: int) -> Script
    decreases i + 1,
{
    if i < 0 {
        Script::Common
    } else if unit_script(units, i) != Script::Common {
        unit_script(units, i)
    } else {
        script_before(units, i - 1)
    }
}

/// The first script at or after `i` that is not `Common`; `Common` if there
/// is none.
pub open spec fn script_after(units: Seq<u16>, i: int) -> Script
    decreases units.len() - i,
{
    if i < 0 || i >= units.len() {
        Script::Common
    } else if unit_script(units, i) != Script::Common {
        unit_script(units, i)
    } else {
        script_after(units, i + 1)
    }
}

/// The script that the code unit at `i` is shaped in. A unit without a
/// script of its own takes that of the text before it, and at the start of
/// the run that of the first text that has one.
#[verifier::opaque]
pub open spec fn resolved_script(units: Seq<u16>, i: int) -> Script {
    let before = script_before(units, i);
    if before != Script::Common {
        before
    } else {
        script_after(units, 0)
    }
}

/// How many of the first `upto` code units begin a character of a script
/// that is written in `direction`.
pub open spec fn strong_count(units: Seq<u16>, direction: Direction, upto: int) -> nat
    decreases upto,
{
    if upto <= 0 {
        0
    } else {
        strong_count(units, direction, upto - 1) + if unit_script(units, upto - 1).direction()
            == Some(direction) {
            1nat
        } else {
            0nat
        }
    }
}

/// The base direction of a run. A hint other than `Auto` decides. Without
/// one, the run is right-to-left when more of its characters belong to
/// right-to-left scripts than to left-to-right ones, and left-to-right
/// otherwise.
pub open spec fn resolved_direction(units: Seq<u16>, hint: DirectionHint) -> Direction {
    match hint {
        DirectionHint::LeftToRight => Direction::LeftToRight,
        DirectionHint::RightToLeft => Direction::RightToLeft,
        DirectionHint::Auto => if strong_count(units, Direction::RightToLeft, units.len() as int)
            > strong_count(units, Direction::LeftToRight, units.len() as int) {
            Direction::RightToLeft
        } else {
            Direction::LeftToRight
        },
    }
}

/// A stretch `[start, end)` of the code units of a run, all of one script.
#[derive(Clone, Copy, Debug, PartialEq, Eq, Structural)]
pub struct Segment {
    pub start: usize,
    pub end: usize,
    pub script: Script,
    pub direction: Direction,
}

/// The segment is not empty, lies within the run, and every code unit in it
/// is shaped in the segment's script.
pub open spec fn uniform_segment(units: Seq<u16>, direction: Direction, segment: Segment) -> bool {
    &&& segment.start < segment.end <= units.len()
    &&& segment.direction == direction
    &&& forall|k: int|
        segment.start <= k < segment.end ==> #[trigger] resolved_script(units, k) == segment.script
}

/// The segments follow one another without a gap from the start of the run
/// up to `upto`, each is uniform, and no two neighbours share a script, so
/// that none could be longer.
pub open spec fn segments_cover(
    units: Seq<u16>,
    direction: Direction,
    segments: Seq<Segment>,
    upto: int,
) -> bool {
    &&& forall|j: int| 0 <= j < segments.len() ==> uniform_segment(units, direction, #[trigger] segments[j])
    &&& forall|j: int, k: int|
        0 <= j && k == j + 1 && k < segments.len() ==> (#[trigger] segments[j]).end == (
        #[trigger] segments[k]).start && segments[j].script != segments[k].script
    &&& segments.len() > 0 ==> segments[0].start == 0 && segments.last().end == upto
    &&& segments.len() == 0 ==> upto == 0
}

/// The segmentation of a run: its maximal stretches of one script.
pub open spec fn is_segmentation(
    units: Seq<u16>,
    direction: Direction,
    segments: Seq<Segment>,
) -> bool {
    segments_cover(units, direction, segments, units.len() as int)
}

/// The segmentation of a run.
pub open spec fn segmentation(units: Seq<u16>, direction: Direction) -> Seq<Segment> {
    choose|segments: Seq<Segment>| is_segmentation(units, direction, segments)
}

/// The script of the code unit at `i` by itself.
pub fn script_of_unit(units: &[u16], i: usize) -> (script: Script)
    requires
        i < units@.len(),
    ensures
        script == unit_script(units@, i as int),
{
    reveal(unit_script);
    if low_surrogate(units[i]) {
        Script::Common
    } else {
        let (cp, _) = decode_at(units, i);
        Script::of(cp)
    }
}

/// The first script in the run that is not `Common`.
pub fn first_script(units: &[u16]) -> (script: Script)
    ensures
        script == script_after(units@, 0),
{
    let n = units.len();
    let mut i: usize = 0;
    while i < n
        invariant
            n == units@.len(),
            i <= n,
            script_after(units@, 0) == script_after(units@, i as int),
        decreases n - i,
    {
        let s = script_of_unit(units, i);
        if s != Script::Common {
            return s;
        }
        i = i + 1;
    }
    Script::Common
}

/// The base direction of a run.
pub fn resolve_direction(units: &[u16], hint: DirectionHint) -> (direction: Direction)
    ensures
        direction == resolved_direction(units@, hint),
{
    match hint {
        DirectionHint::LeftToRight => Direction::LeftToRight,
        DirectionHint::RightToLeft => Direction::RightToLeft,
        DirectionHint::Auto => {
            let n = units.len();
            let mut ltr: usize = 0;
            let mut rtl: usize = 0;
            let mut i: usize = 0;
            while i < n
                invariant
                    n == units@.len(),
                    i <= n,
                    ltr <= i,
                    rtl <= i,
                    ltr == strong_count(units@, Direction::LeftToRight, i as int),
                    rtl == strong_count(units@, Direction::RightToLeft, i as int),
                decreases n - i,
            {
                match script_of_unit(units, i).horizontal_direction() {
                    Some(Direction::LeftToRight) => {
                        ltr = ltr + 1;
                    },
                    Some(Direction::RightToLeft) => {
                        rtl = rtl + 1;
                    },
                    None => {},
                }
                i = i + 1;
            }
            if rtl > ltr {
                Direction::RightToLeft
            } else {
                Direction::LeftToRight
            }
        },
    }
}

/// Splits a run into its maximal stretches of one script.
pub fn segment_run(units: &[u16], direction: Direction) -> (segments: Vec<Segment>)
    ensures
        is_segmentation(units@, direction, segments@),
        segments@ == segmentation(units@, direction),
{
    let n = units.len();
    let mut segments: Vec<Segment> = Vec::new();
    if n == 0 {
        proof {
            lemma_segmentation_unique(
                units@,
                direction,
                segments@,
                segmentation(units@, direction),
            );
        }
        return segments;
    }
    let first = first_script(units);
    let mut before = script_of_unit(units, 0);
    let mut current = if before != Script::Common {
        before
    } else {
        first
    };
    let mut start: usize = 0;
    let mut i: usize = 1;
    proof {
        lemma_resolved_step(units@, 0);
    }
    while i < n
        invariant
            n == units@.len(),
            first == script_after(units@, 0),
            0 <= start < i <= n,
            before == script_before(units@, i - 1),
            segments_cover(units@, direction, segments@, start as int),
            forall|k: int| start <= k < i ==> #[trigger] resolved_script(units@, k) == current,
            segments@.len() > 0 ==> segments@.last().script != current,
        decreases n - i,
    {
        let own = script_of_unit(units, i);
        if own != Script::Common {
            before = own;
        }
        let resolved = if before != Script::Common {
            before
        } else {
            first
        };
        proof {
            lemma_resolved_step(units@, i as int);
        }
        if resolved != current {
            let segment = Segment { start, end: i, script: current, direction };
            proof {
                lemma_push_segment(units@, direction, segments@, segment);
            }
            segments.push(segment);
            start = i;
            current = resolved;
        }
        i = i + 1;
    }
    let segment = Segment { start, end: n, script: current, direction };
    proof {
        assert(uniform_segment(units@, direction, segment));
        lemma_push_segment(units@, direction, segments@, segment);
    }
    segments.push(segment);
    proof {
        lemma_segmentation_unique(units@, direction, segments@, segmentation(units@, direction));
    }
    segments
}

/// How the script that a code unit is shaped in follows from its own
/// script and from what comes before it.
proof fn lemma_resolved_step(units: Seq<u16>, i: int)
    requires
        0 <= i < units.len(),
    ensures
        script_before(units, i) == if unit_script(units, i) != Script::Common {
            unit_script(units, i)
        } else {
            script_before(units, i - 1)
        },
        script_before(units, -1) == Script::Common,
        resolved_script(units, i) == if script_before(units, i) != Script::Common {
            script_before(units, i)
        } else {
            script_after(units, 0)
        },
{
    reveal(resolved_script);
}

/// A uniform segment that starts where the covered part ends, in another
/// script than the last one, extends the cover to its own end.
proof fn lemma_push_segment(
    units: Seq<u16>,
    direction: Direction,
    prior: Seq<Segment>,
    segment: Segment,
)
    requires
        segments_cover(units, direction, prior, segment.start as int),
        uniform_segment(units, direction, segment),
        prior.len() > 0 ==> prior.last().script != segment.script,
    ensures
        segments_cover(units, direction, prior.push(segment), segment.end as int),
{
    let next = prior.push(segment);
    assert forall|j: int| 0 <= j < next.len() implies uniform_segment(
        units,
        direction,
        #[trigger] next[j],
    ) by {
        if j < prior.len() {
            assert(next[j] == prior[j]);
        }
    }
    assert forall|j: int, k: int| 0 <= j && k == j + 1 && k < next.len() implies (
    #[trigger] next[j]).end == (#[trigger] next[k]).start && next[j].script
        != next[k].script by {
        if k < prior.len() {
            assert(next[j] == prior[j]);
            assert(next[k] == prior[k]);
        } else {
            assert(next[j] == prior.last());
        }
    }
    if prior.len() > 0 {
        assert(next[0] == prior[0]);
    }
}

/// A segment of a segmentation cannot end inside a stretch of its own script.
proof fn lemma_no_early_end(
    units: Seq<u16>,
    direction: Direction,
    a: Seq<Segment>,
    j: int,
    other: Segment,
)
    requires
        is_segmentation(units, direction, a),
        0 <= j < a.len(),
        uniform_segment(units, direction, other),
        other.start == a[j].start,
        other.script == a[j].script,
    ensures
        other.end <= a[j].end,
{
    let e = a[j].end as int;
    assert(uniform_segment(units, direction, a[j]));
    if a[j].end < other.end {
        if j == a.len() - 1 {
            assert(a.last().end == units.len());
        } else {
            let k = j + 1;
            assert(a[j].end == a[k].start && a[j].script != a[k].script);
            assert(uniform_segment(units, direction, a[k]));
            assert(resolved_script(units, e) == a[k].script);
            assert(resolved_script(units, e) == other.script);
        }
    }
}

/// Two segmentations of one run agree on every segment that both have.
proof fn lemma_segments_agree(
    units: Seq<u16>,
    direction: Direction,
    a: Seq<Segment>,
    b: Seq<Segment>,
    j: int,
)
    requires
        is_segmentation(units, direction, a),
        is_segmentation(units, direction, b),
        0 <= j < a.len(),
        j < b.len(),
    ensures
        a[j] == b[j],
    decreases j,
{
    if j > 0 {
        lemma_segments_agree(units, direction, a, b, j - 1);
        assert(a[j - 1].end == a[j].start);
        assert(b[j - 1].end == b[j].start);
    }
    let start = a[j].start as int;
    assert(uniform_segment(units, direction, a[j]));
    assert(uniform_segment(units, direction, b[j]));
    assert(resolved_script(units, start) == a[j].script);
    assert(resolved_script(units, start) == b[j].script);
    lemma_no_early_end(units, direction, a, j, b[j]);
    lemma_no_early_end(units, direction, b, j, a[j]);
}

/// Of two segmentations of one run neither has more segments than the other.
proof fn lemma_same_count(
    units: Seq<u16>,
    direction: Direction,
    a: Seq<Segment>,
    b: Seq<Segment>,
)
    requires
        is_segmentation(units, direction, a),
        is_segmentation(units, direction, b),
    ensures
        b.len() <= a.len(),
{
    if a.len() < b.len() {
        let m = a.len() as int;
        assert(uniform_segment(units, direction, b[m]));
        if m == 0 {
            assert(units.len() == 0);
        } else {
            lemma_segments_agree(units, direction, a, b, m - 1);
            assert(a.last().end == units.len());
            assert(b[m - 1].end == b[m].start);
        }
    }
}

/// A run has one segmentation only.
pub proof fn lemma_segmentation_unique(
    units: Seq<u16>,
    direction: Direction,
    a: Seq<Segment>,
    b: Seq<Segment>,
)
    requires
        is_segmentation(units, direction, a),
        is_segmentation(units, direction, b),
    ensures
        a == b,
{
    lemma_same_count(units, direction, a, b);
    lemma_same_count(units, direction, b, a);
    assert forall|j: int| 0 <= j < a.len() implies a[j] == b[j] by {
        lemma_segments_agree(units, direction, a, b, j);
    }
    assert(a =~= b);
}

/// The first `upto` code units of a run can be covered by segments.
proof fn lemma_cover_exists(units: Seq<u16>, direction: Direction, upto: int) -> (segments: Seq<
    Segment,
>)
    requires
        0 <= upto <= units.len(),
        upto <= usize::MAX,
    ensures
        segments_cover(units, direction, segments, upto),
    decreases upto,
{
    if upto == 0 {
        Seq::empty()
    } else {
        let prior = lemma_cover_exists(units, direction, upto - 1);
        let script = resolved_script(units, upto - 1);
        if prior.len() > 0 && prior.last().script == script {
            let last = prior.last();
            let grown = Segment { end: upto as usize, ..last };
            let result = prior.update(prior.len() - 1, grown);
            assert(uniform_segment(units, direction, last));
            assert forall|j: int| 0 <= j < result.len() implies uniform_segment(
                units,
                direction,
                #[trigger] result[j],
            ) by {
                if j < prior.len() - 1 {
                    assert(result[j] == prior[j]);
                    assert(uniform_segment(units, direction, prior[j]));
                }
            }
            assert forall|j: int, k: int| 0 <= j && k == j + 1 && k < result.len() implies (
            #[trigger] result[j]).end == (#[trigger] result[k]).start && result[j].script
                != result[k].script by {
                assert(prior[j].end == prior[k].start && prior[j].script != prior[k].script);
            }
            result
        } else {
            let segment = Segment {
                start: (upto - 1) as usize,
                end: upto as usize,
                script,
                direction,
            };
            lemma_push_segment(units, direction, prior, segment);
            prior.push(segment)
        }
    }
}

/// Every run that is not longer than the machine can address has a
/// segmentation.
pub proof fn lemma_segmentation_exists(units: Seq<u16>, direction: Direction)
    requires
        units.len() <= usize::MAX,
    ensures
        is_segmentation(units, direction, segmentation(units, direction)),
{
    let witness = lemma_cover_exists(units, direction, units.len() as int);
    assert(is_segmentation(units, direction, witness));
}

/// Every code unit of a run lies in one of the run's segments: the one at
/// place `j` or a later one, if it does not lie before that one.
pub proof fn lemma_segment_containing(
    units: Seq<u16>,
    direction: Direction,
    segments: Seq<Segment>,
    index: int,
    j: int,
) -> (found: int)
    requires
        is_segmentation(units, direction, segments),
        0 <= j < segments.len(),
        segments[j].start <= index < units.len(),
    ensures
        j <= found < segments.len(),
        segments[found].start <= index < segments[found].end,
    decreases segments.len() - j,
{
    if index < segments[j].end {
        j
    } else {
        if j == segments.len() - 1 {
            assert(segments.last().end == units.len());
        }
        let k = j + 1;
        assert(segments[j].end == segments[k].start);
        lemma_segment_containing(units, direction, segments, index, k)
    }
}

/// The two halves of a surrogate pair are shaped in one script.
pub proof fn lemma_pair_shares_script(units: Seq<u16>, i: int)
    requires
        0 < i < units.len(),
        !char_starts_at(units, i),
    ensures
        resolved_script(units, i) == resolved_script(units, i - 1),
{
    reveal(unit_script);
    lemma_resolved_step(units, i);
    lemma_resolved_step(units, i - 1);
}

/// No segment begins inside a surrogate pair.
pub proof fn lemma_segments_start_characters(
    units: Seq<u16>,
    direction: Direction,
    segments: Seq<Segment>,
    j: int,
)
    requires
        is_segmentation(units, direction, segments),
        0 <= j < segments.len(),
    ensures
        char_starts_at(units, segments[j].start as int),
{
    if j > 0 {
        let i = j - 1;
        let start = segments[j].start as int;
        assert(segments[i].end == segments[j].start && segments[i].script != segments[j].script);
        assert(uniform_segment(units, direction, segments[i]));
        assert(uniform_segment(units, direction, segments[j]));
        assert(resolved_script(units, start - 1) == segments[i].script);
        assert(resolved_script(units, start) == segments[j].script);
        if !char_starts_at(units, start) {
            lemma_pair_shares_script(units, start);
        }
    }
}

} // verus!
