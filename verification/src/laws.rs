//! What holds of every decode: the rules that the output lists obey, the
//! invariant of the decode state that gives them, and the one way in which a
//! decode fails.

use crate::decoder::{
    decode_from, decode_spec, param_count, underrun_at, within_budget, CommandKind, DecodeModel,
    DecodedView,
};
use crate::error::DecodeError;
use crate::geometry::{
    is_quad, is_semi_transparent, poly_records, FillRectCommand, RenderPolyCommand,
};
use vstd::prelude::*;

verus! {

/// The z-indices of a list of fill rectangles, in list order.
pub open spec fn fill_z_indices(list: Seq<FillRectCommand>) -> Seq<int> {
    Seq::new(list.len(), |i: int| list[i].z_index as int)
}

/// The z-indices of a list of triangles, in list order.
pub open spec fn poly_z_indices(list: Seq<RenderPolyCommand>) -> Seq<int> {
    Seq::new(list.len(), |i: int| list[i].z_index as int)
}

/// Every number of `zs` is at least 1 and less than `bound`.
pub open spec fn below(zs: Seq<int>, bound: int) -> bool {
    forall|i: int| 0 <= i < zs.len() ==> 1 <= #[trigger] zs[i] < bound
}

/// The numbers of `zs` grow strictly from each to the next.
pub open spec fn increasing(zs: Seq<int>) -> bool {
    forall|i: int, j: int| 0 <= i < j < zs.len() ==> #[trigger] zs[i] < #[trigger] zs[j]
}

/// No number is in both `a` and `b`.
pub open spec fn disjoint(a: Seq<int>, b: Seq<int>) -> bool {
    forall|i: int, j: int|
        0 <= i < a.len() && 0 <= j < b.len() ==> #[trigger] a[i] != #[trigger] b[j]
}

/// Every triangle of `list` came from a header with bit 25 equal to `flag`.
pub open spec fn all_transparency(list: Seq<RenderPolyCommand>, flag: bool) -> bool {
    forall|i: int| 0 <= i < list.len() ==> is_semi_transparent(#[trigger] list[i].color) == flag
}

/// Every triangle of `list` names one of the first `count` snapshots, and a
/// later triangle never names an earlier snapshot than a triangle before it.
pub open spec fn attributes_valid(list: Seq<RenderPolyCommand>, count: int) -> bool {
    &&& forall|i: int| 0 <= i < list.len() ==> (#[trigger] list[i]).attribute_index < count
    &&& forall|i: int, j: int|
        0 <= i < j < list.len() ==> (#[trigger] list[i]).attribute_index <= (
        #[trigger] list[j]).attribute_index
}

impl DecodedView {
    /// Number of primitives in the three draw lists.
    pub open spec fn primitive_count(self) -> nat {
        self.fill_rects.len() + self.opaque_polys.len() + self.transparent_polys.len()
    }

    /// The z-indices are the numbers from 1 to the number of primitives, each
    /// used once: all lie in that range, they grow strictly along each list,
    /// and no two lists share one.
    pub open spec fn z_ordered(self) -> bool {
        let f = fill_z_indices(self.fill_rects);
        let o = poly_z_indices(self.opaque_polys);
        let t = poly_z_indices(self.transparent_polys);
        let bound = self.primitive_count() as int + 1;
        &&& below(f, bound) && below(o, bound) && below(t, bound)
        &&& increasing(f) && increasing(o) && increasing(t)
        &&& disjoint(f, o) && disjoint(f, t) && disjoint(o, t)
    }

    /// No semi-transparent triangle is in the opaque list and no opaque one
    /// in the transparent list.
    pub open spec fn partitioned(self) -> bool {
        &&& all_transparency(self.opaque_polys, false)
        &&& all_transparency(self.transparent_polys, true)
    }

    /// Every triangle names a snapshot that is in the list, and where
    /// anything was drawn there is a snapshot.
    pub open spec fn attributed(self) -> bool {
        &&& attributes_valid(self.opaque_polys, self.attributes.len() as int)
        &&& attributes_valid(self.transparent_polys, self.attributes.len() as int)
        &&& self.primitive_count() > 0 ==> self.attributes.len() > 0
    }
}

/// What holds of the decode state between any two commands: the next
/// z-index is one more than the number of primitives drawn, and what was
/// drawn obeys the three output rules.
pub open spec fn consistent(m: DecodeModel) -> bool {
    let v = m.outputs();
    &&& m.z_index == v.primitive_count() + 1
    &&& v.z_ordered()
    &&& v.partitioned()
    &&& v.attributed()
}

/// A fill-rectangle command keeps the state consistent.
proof fn lemma_fill_rect_keeps_consistent(m: DecodeModel, word: u32, params: Seq<u32>)
    requires
        consistent(m),
        m.z_index <= u32::MAX,
    ensures
        consistent(m.fill_rect(word, params)),
{
    let n = m.fill_rect(word, params);
    let f = fill_z_indices(m.fill_rects);
    let f2 = fill_z_indices(n.fill_rects);
    assert forall|i: int| 0 <= i < f.len() implies f2[i] == f[i] by {}
}

/// A polygon command keeps the state consistent.
proof fn lemma_polygon_keeps_consistent(m: DecodeModel, word: u32, params: Seq<u32>)
    requires
        consistent(m),
        m.z_index < u32::MAX,
        m.tracker.committed.len() < u32::MAX,
    ensures
        consistent(m.polygon(word, params)),
{
    let n = m.polygon(word, params);
    let tracker = m.tracker.draw();
    let index = tracker.current_index();
    let records = poly_records(word, params, m.z_index as u32, index as u32);
    let rz = poly_z_indices(records);
    let o = poly_z_indices(m.opaque_polys);
    let t = poly_z_indices(m.transparent_polys);
    assert(records.len() == if is_quad(word) {
        2nat
    } else {
        1nat
    });
    assert forall|i: int| 0 <= i < records.len() implies {
        &&& m.z_index <= #[trigger] rz[i] < n.z_index
        &&& records[i].color == word
        &&& records[i].attribute_index == index
    } by {}
    if is_semi_transparent(word) {
        let t2 = poly_z_indices(n.transparent_polys);
        assert(t2 =~= t + rz);
    } else {
        let o2 = poly_z_indices(n.opaque_polys);
        assert(o2 =~= o + rz);
    }
}

/// Before the first command the state is consistent, and nothing of the
/// budget is used.
pub proof fn lemma_initial_is_consistent()
    ensures
        consistent(DecodeModel::initial()),
        within_budget(DecodeModel::initial(), 0),
{
}

/// In a consistent state a primitive is numbered by its place among all
/// primitives drawn so far, counted from 1: a fill rectangle gets that
/// number, and the triangles of a polygon get it and, for a quad, the next.
pub proof fn lemma_next_z_index(m: DecodeModel, word: u32, params: Seq<u32>)
    requires
        consistent(m),
        m.z_index < u32::MAX,
    ensures
        ({
            let drawn = m.outputs().primitive_count();
            let triangles = m.polygon_records(word, params);
            &&& m.fill_rect(word, params).fill_rects.last().z_index == drawn + 1
            &&& forall|k: int|
                0 <= k < triangles.len() ==> (#[trigger] triangles[k]).z_index == drawn + 1 + k
        }),
{
}

/// Every command keeps the state consistent and within budget, as long as
/// the stream is short enough for the counters.
pub proof fn lemma_apply_keeps_consistent(
    m: DecodeModel,
    word: u32,
    params: Seq<u32>,
    consumed: int,
)
    requires
        consistent(m),
        within_budget(m, consumed),
        0 <= consumed,
        consumed + 1 + param_count(word) <= u32::MAX,
    ensures
        consistent(m.apply(word, params)),
        within_budget(m.apply(word, params), consumed + 1 + param_count(word)),
{
    match CommandKind::of(word) {
        CommandKind::FillRect => {
            lemma_fill_rect_keeps_consistent(m, word, params);
        },
        CommandKind::Polygon => {
            lemma_polygon_keeps_consistent(m, word, params);
        },
        CommandKind::Attribute => {},
        CommandKind::Unsupported => {},
    }
}

/// Decoding on from a consistent state ends, if it ends well, in a
/// consistent state, within the budget of the whole stream.
pub proof fn lemma_decode_keeps_consistent(m: DecodeModel, words: Seq<u32>, pos: int)
    requires
        consistent(m),
        within_budget(m, pos),
        0 <= pos <= words.len() <= u32::MAX,
    ensures
        decode_from(m, words, pos) matches Ok(end) ==> consistent(end) && within_budget(
            end,
            words.len() as int,
        ),
    decreases words.len() - pos,
{
    if pos < words.len() {
        let word = words[pos];
        let next = pos + 1 + param_count(word);
        if next <= words.len() {
            let params = words.subrange(pos + 1, next);
            lemma_apply_keeps_consistent(m, word, params, pos);
            lemma_decode_keeps_consistent(m.apply(word, params), words, next);
        }
    }
}

/// Whatever a decode gives obeys the three output rules: the z-indices are
/// the numbers from 1 up, one per primitive, in draw order along each list;
/// the two triangle lists are split by header bit 25; and every triangle
/// names a snapshot that is there.
pub proof fn lemma_decode_well_formed(words: Seq<u32>)
    requires
        words.len() <= u32::MAX,
    ensures
        decode_spec(words) matches Ok(v) ==> v.z_ordered() && v.partitioned() && v.attributed(),
{
    lemma_decode_keeps_consistent(DecodeModel::initial(), words, 0);
}

/// A triangle whose header has bit 25 set is never in the opaque list, and
/// one whose header has it clear is never in the transparent list. The
/// header word of a triangle is its `color`.
pub proof fn lemma_transparency_partitions(words: Seq<u32>)
    requires
        words.len() <= u32::MAX,
    ensures
        decode_spec(words) matches Ok(v) ==> {
            &&& forall|i: int|
                0 <= i < v.opaque_polys.len() ==> !is_semi_transparent(
                    #[trigger] v.opaque_polys[i].color,
                )
            &&& forall|i: int|
                0 <= i < v.transparent_polys.len() ==> is_semi_transparent(
                    #[trigger] v.transparent_polys[i].color,
                )
        },
{
    lemma_decode_well_formed(words);
}

/// The empty stream decodes to four empty lists.
pub proof fn lemma_decode_empty()
    ensures
        decode_spec(Seq::empty()) == Ok::<DecodedView, DecodeError>(
            DecodedView {
                fill_rects: Seq::empty(),
                opaque_polys: Seq::empty(),
                transparent_polys: Seq::empty(),
                attributes: Seq::empty(),
            },
        ),
{
}

/// A command that asks for more parameter words than are left ends the
/// decode with a buffer underrun at its header, whatever came before.
pub proof fn lemma_underrun(m: DecodeModel, words: Seq<u32>, pos: int)
    requires
        0 <= pos < words.len(),
        words.len() - (pos + 1) < param_count(words[pos]),
    ensures
        decode_from(m, words, pos) == Err::<DecodeModel, DecodeError>(
            underrun_at(pos, words[pos]),
        ),
{
}

/// A fill-rectangle header with fewer than two words after it fails with a
/// buffer underrun, and nothing is given out.
pub proof fn lemma_fill_rect_underrun(words: Seq<u32>)
    requires
        1 <= words.len() <= 2,
        CommandKind::of(words[0]) == CommandKind::FillRect,
    ensures
        decode_spec(words) == Err::<DecodedView, DecodeError>(underrun_at(0, words[0])),
{
    lemma_underrun(DecodeModel::initial(), words, 0);
}

/// A decode fails in one way only: at the header of a command that asks for
/// more parameter words than are left.
pub proof fn lemma_errors_are_underruns(m: DecodeModel, words: Seq<u32>, pos: int)
    requires
        0 <= pos,
        words.len() <= usize::MAX,
    ensures
        decode_from(m, words, pos) matches Err(e) ==> {
            &&& pos <= e.word_index < words.len()
            &&& e == underrun_at(e.word_index as int, words[e.word_index as int])
            &&& words.len() - (e.word_index + 1) < param_count(words[e.word_index as int])
        },
    decreases words.len() - pos,
{
    if pos < words.len() {
        let word = words[pos];
        let next = pos + 1 + param_count(word);
        if next <= words.len() {
            lemma_errors_are_underruns(m.apply(word, words.subrange(pos + 1, next)), words, next);
        }
    }
}

} // verus!
