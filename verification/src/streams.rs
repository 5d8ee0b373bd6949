//! What holds of streams put together from commands: decoding only appends,
//! decoding a stream in two parts gives what decoding it in one gives, and a
//! command gives the same records wherever in a stream it stands.

use crate::attributes::{lemma_attributes_between_draws, RenderingAttributes, TrackerModel};
use crate::decoder::{
    decode_from, decode_spec, param_count, underrun_at, CommandKind, DecodeModel, DecodedView,
};
use crate::error::DecodeError;
use crate::geometry::{is_quad, is_semi_transparent, FillRectCommand, RenderPolyCommand};
use crate::laws::{
    lemma_decode_keeps_consistent, lemma_errors_are_underruns, lemma_next_z_index, lemma_underrun,
};
use vstd::prelude::*;

verus! {

/// The header word of command `k` in a stream of three-word commands.
pub open spec fn fill_rect_header(words: Seq<u32>, k: int) -> u32 {
    words[3 * k]
}

/// Whether `words` is `count` fill-rectangle commands and nothing else.
pub open spec fn is_fill_rect_stream(words: Seq<u32>, count: nat) -> bool {
    &&& words.len() == 3 * count
    &&& forall|k: int|
        0 <= k < count ==> CommandKind::of(#[trigger] fill_rect_header(words, k))
            == CommandKind::FillRect
}

/// The record that command `k` of a fill-rectangle stream gives: its three
/// words, and as z-index its place in the stream, counted from 1.
pub open spec fn fill_rect_at(words: Seq<u32>, k: int) -> FillRectCommand {
    FillRectCommand {
        z_index: (k + 1) as u32,
        color: words[3 * k],
        position: words[3 * k + 1],
        size: words[3 * k + 2],
    }
}

/// The decode state after the first `k` commands of a fill-rectangle stream.
spec fn fill_rect_state(words: Seq<u32>, k: int) -> DecodeModel {
    DecodeModel {
        tracker: if k == 0 {
            TrackerModel::initial()
        } else {
            TrackerModel::initial().draw()
        },
        z_index: k + 1,
        fill_rects: Seq::new(k as nat, |i: int| fill_rect_at(words, i)),
        opaque_polys: Seq::empty(),
        transparent_polys: Seq::empty(),
    }
}

proof fn lemma_fill_rect_stream_from(words: Seq<u32>, count: nat, k: int)
    requires
        is_fill_rect_stream(words, count),
        0 <= k <= count,
    ensures
        decode_from(fill_rect_state(words, k), words, 3 * k) == Ok::<DecodeModel, DecodeError>(
            fill_rect_state(words, count as int),
        ),
    decreases count - k,
{
    if k < count {
        let m = fill_rect_state(words, k);
        let word = words[3 * k];
        assert(word == fill_rect_header(words, k));
        let params = words.subrange(3 * k + 1, 3 * k + 3);
        let n = m.apply(word, params);
        assert(n.fill_rects =~= fill_rect_state(words, k + 1).fill_rects);
        lemma_fill_rect_stream_from(words, count, k + 1);
    }
}

/// A stream of `count` fill-rectangle commands gives exactly `count`
/// fill-rectangle records, in stream order, the record of each command made
/// of its three words and numbered by its place in the stream, counted from
/// 1. It gives no triangles, and one snapshot, the initial one, unless it is
/// empty.
pub proof fn lemma_fill_rect_stream(words: Seq<u32>, count: nat)
    requires
        is_fill_rect_stream(words, count),
        words.len() <= u32::MAX,
    ensures
        decode_spec(words) matches Ok(v) && {
            &&& v.fill_rects.len() == count
            &&& forall|k: int|
                0 <= k < count ==> #[trigger] v.fill_rects[k] == fill_rect_at(words, k)
            &&& forall|k: int| 0 <= k < count ==> (#[trigger] v.fill_rects[k]).z_index == k + 1
            &&& v.opaque_polys.len() == 0
            &&& v.transparent_polys.len() == 0
            &&& v.attributes == if count == 0 {
                Seq::<RenderingAttributes>::empty()
            } else {
                seq![RenderingAttributes::initial()]
            }
        },
{
    lemma_fill_rect_stream_from(words, count, 0);
    assert(fill_rect_state(words, 0).fill_rects =~= DecodeModel::initial().fill_rects);
}

/// A polygon command adds its triangles, one for a triangle and two for a
/// quad, to the end of exactly one list: the transparent list where header
/// bit 25 is set, the opaque list where it is clear. The other lists stay as
/// they are, and each added triangle uses up one z-index.
pub proof fn lemma_polygon_lands_in_one_list(m: DecodeModel, word: u32, params: Seq<u32>)
    ensures
        ({
            let after = m.polygon(word, params);
            let added = m.polygon_records(word, params);
            &&& added.len() == if is_quad(word) {
                2nat
            } else {
                1nat
            }
            &&& after.fill_rects == m.fill_rects
            &&& after.z_index == m.z_index + added.len()
            &&& is_semi_transparent(word) ==> after.transparent_polys == m.transparent_polys
                + added && after.opaque_polys == m.opaque_polys
            &&& !is_semi_transparent(word) ==> after.opaque_polys == m.opaque_polys + added
                && after.transparent_polys == m.transparent_polys
        }),
{
}

/// Attribute commands change nothing but the tracker.
pub proof fn lemma_attributes_touch_only_the_tracker(m: DecodeModel, words: Seq<u32>)
    ensures
        m.attributes(words) == (DecodeModel {
            tracker: m.tracker.record_all(words),
            ..m
        }),
    decreases words.len(),
{
    if words.len() > 0 {
        lemma_attributes_touch_only_the_tracker(m, words.drop_last());
    }
}

/// Two polygon commands with attribute commands between them: exactly one
/// snapshot is committed in between, the triangles of the first polygon name
/// the snapshot that was current at its draw, and those of the second name
/// the next one, which is what the attribute commands make of the first.
pub proof fn lemma_attributes_between_polygons(
    m: DecodeModel,
    first_word: u32,
    first_params: Seq<u32>,
    attributes: Seq<u32>,
    second_word: u32,
    second_params: Seq<u32>,
)
    requires
        attributes.len() > 0,
        m.tracker.committed.len() + 2 <= u32::MAX,
    ensures
        ({
            let first = m.polygon(first_word, first_params);
            let between = first.attributes(attributes);
            let second = between.polygon(second_word, second_params);
            let index = first.tracker.current_index();
            let first_added = m.polygon_records(first_word, first_params);
            let second_added = between.polygon_records(second_word, second_params);
            &&& second.tracker.committed.len() == first.tracker.committed.len() + 1
            &&& 0 <= index < first.tracker.committed.len()
            &&& second.tracker.committed[index] == first.tracker.committed[index]
            &&& second.tracker.committed[index + 1] == first.tracker.committed[index].with_words(
                attributes,
            )
            &&& forall|k: int|
                0 <= k < first_added.len() ==> (#[trigger] first_added[k]).attribute_index == index
            &&& forall|k: int|
                0 <= k < second_added.len() ==> (#[trigger] second_added[k]).attribute_index
                    == index + 1
        }),
{
    let first = m.polygon(first_word, first_params);
    let between = first.attributes(attributes);
    lemma_attributes_touch_only_the_tracker(first, attributes);
    lemma_attributes_between_draws(m.tracker, attributes);
    let index = first.tracker.current_index();
    let second = between.polygon(second_word, second_params);
    assert(second.tracker.committed.take(first.tracker.committed.len() as int)[index]
        == second.tracker.committed[index]);
}

/// Whether the state `later` holds everything that `earlier` holds, at the
/// same places: each list of `earlier` starts the same list of `later`.
pub open spec fn extends(later: DecodeModel, earlier: DecodeModel) -> bool {
    &&& earlier.fill_rects.is_prefix_of(later.fill_rects)
    &&& earlier.opaque_polys.is_prefix_of(later.opaque_polys)
    &&& earlier.transparent_polys.is_prefix_of(later.transparent_polys)
    &&& earlier.tracker.committed.is_prefix_of(later.tracker.committed)
    &&& earlier.z_index <= later.z_index
}

/// A command only appends: no record and no snapshot that is there changes
/// or moves.
pub proof fn lemma_apply_only_appends(m: DecodeModel, word: u32, params: Seq<u32>)
    ensures
        extends(m.apply(word, params), m),
{
}

/// A decode only appends to the state it starts from.
pub proof fn lemma_decode_only_appends(m: DecodeModel, words: Seq<u32>, pos: int)
    requires
        0 <= pos,
    ensures
        decode_from(m, words, pos) matches Ok(end) ==> extends(end, m),
    decreases words.len() - pos,
{
    if pos < words.len() {
        let word = words[pos];
        let next = pos + 1 + param_count(word);
        if next <= words.len() {
            let params = words.subrange(pos + 1, next);
            lemma_apply_only_appends(m, word, params);
            lemma_decode_only_appends(m.apply(word, params), words, next);
        }
    }
}

/// The result `r` as it reads where `offset` words stand before the stream:
/// an error names a word that much further on.
pub open spec fn moved_on(r: Result<DecodeModel, DecodeError>, offset: int) -> Result<
    DecodeModel,
    DecodeError,
> {
    match r {
        Ok(end) => Ok(end),
        Err(e) => Err(DecodeError { word_index: (e.word_index + offset) as usize, ..e }),
    }
}

/// Words before the place where a decode starts do not matter to it.
pub proof fn lemma_decode_ignores_what_came_before(
    m: DecodeModel,
    before: Seq<u32>,
    words: Seq<u32>,
    pos: int,
)
    requires
        0 <= pos,
        before.len() + words.len() <= usize::MAX,
    ensures
        decode_from(m, before + words, before.len() + pos) == moved_on(
            decode_from(m, words, pos),
            before.len() as int,
        ),
    decreases words.len() - pos,
{
    if pos < words.len() {
        let all = before + words;
        let word = words[pos];
        let next = pos + 1 + param_count(word);
        if next <= words.len() {
            assert(all.subrange(before.len() + pos + 1, before.len() + next) =~= words.subrange(
                pos + 1,
                next,
            ));
            lemma_decode_ignores_what_came_before(
                m.apply(word, words.subrange(pos + 1, next)),
                before,
                words,
                next,
            );
        }
    }
}

/// Words after the end of a stream that decodes to its end do not matter to
/// the decode of that stream: with them there, the decode is at the same
/// state when it reaches them.
pub proof fn lemma_decode_reaches_what_comes_after(
    m: DecodeModel,
    words: Seq<u32>,
    after: Seq<u32>,
    pos: int,
)
    requires
        0 <= pos <= words.len(),
        decode_from(m, words, pos) is Ok,
    ensures
        decode_from(m, words + after, pos) == decode_from(
            decode_from(m, words, pos).unwrap(),
            words + after,
            words.len() as int,
        ),
    decreases words.len() - pos,
{
    if pos < words.len() {
        let word = words[pos];
        let next = pos + 1 + param_count(word);
        lemma_decode_reaches_what_comes_after(
            m.apply(word, words.subrange(pos + 1, next)),
            words,
            after,
            next,
        );
    }
}

/// Decoding is compositional: where a first stream decodes to its end, the
/// decode of it followed by a second stream is the decode of the second
/// stream from the state that the first one ends in.
pub proof fn lemma_decode_concatenation(m: DecodeModel, first: Seq<u32>, second: Seq<u32>)
    requires
        decode_from(m, first, 0) is Ok,
        first.len() + second.len() <= usize::MAX,
    ensures
        decode_from(m, first + second, 0) == moved_on(
            decode_from(decode_from(m, first, 0).unwrap(), second, 0),
            first.len() as int,
        ),
{
    lemma_decode_reaches_what_comes_after(m, first, second, 0);
    lemma_decode_ignores_what_came_before(decode_from(m, first, 0).unwrap(), first, second, 0);
}

/// A fill-rectangle command anywhere in a stream: whatever stands before it
/// and after it, its record is made of its three words, stands in the
/// fill-rectangle list behind the records of the commands before it, and is
/// numbered by its place among all primitives of the stream, counted from 1.
pub proof fn lemma_fill_rect_anywhere(
    before: Seq<u32>,
    header: u32,
    position: u32,
    size: u32,
    after: Seq<u32>,
)
    requires
        CommandKind::of(header) == CommandKind::FillRect,
        decode_spec(before) is Ok,
        before.len() + 3 + after.len() <= u32::MAX,
    ensures
        ({
            let earlier = decode_spec(before).unwrap();
            let place = earlier.fill_rects.len() as int;
            decode_spec(before + seq![header, position, size] + after) matches Ok(v) ==> {
                &&& place < v.fill_rects.len()
                &&& v.fill_rects.take(place) == earlier.fill_rects
                &&& v.fill_rects[place].z_index == earlier.primitive_count() + 1
                &&& v.fill_rects[place].color == header
                &&& v.fill_rects[place].position == position
                &&& v.fill_rects[place].size == size
            }
        }),
{
    let start = DecodeModel::initial();
    let command = seq![header, position, size];
    let rest = command + after;
    let mid = decode_from(start, before, 0).unwrap();
    assert(before + command + after =~= before + rest);
    lemma_decode_keeps_consistent(start, before, 0);
    lemma_decode_concatenation(start, before, rest);
    let params = rest.subrange(1, 3);
    let stepped = mid.fill_rect(header, params);
    lemma_decode_only_appends(stepped, rest, 3);
    if let Ok(end) = decode_from(stepped, rest, 3) {
        let place = mid.fill_rects.len() as int;
        assert(decode_spec(before + command + after) == Ok::<DecodedView, DecodeError>(
            end.outputs(),
        ));
        assert(end.fill_rects.subrange(0, place + 1)[place] == stepped.fill_rects[place]);
    }
}

/// Whether `records` stand in `list` from index `place` on.
pub open spec fn holds_at(
    list: Seq<RenderPolyCommand>,
    place: int,
    records: Seq<RenderPolyCommand>,
) -> bool {
    &&& 0 <= place
    &&& place + records.len() <= list.len()
    &&& list.subrange(place, place + records.len()) == records
}

/// The words of one polygon command: its header, then its parameter words.
pub open spec fn polygon_command(header: u32, params: Seq<u32>) -> Seq<u32> {
    seq![header] + params
}

/// Whether `header` and `params` make a whole polygon command.
pub open spec fn is_polygon_command(header: u32, params: Seq<u32>) -> bool {
    &&& CommandKind::of(header) == CommandKind::Polygon
    &&& params.len() == param_count(header)
}

/// Decoding one whole polygon command is one step of the state.
pub proof fn lemma_polygon_command(m: DecodeModel, header: u32, params: Seq<u32>)
    requires
        is_polygon_command(header, params),
    ensures
        decode_from(m, polygon_command(header, params), 0) == Ok::<DecodeModel, DecodeError>(
            m.polygon(header, params),
        ),
{
    let command = polygon_command(header, params);
    assert(decode_from(m.polygon(header, params), command, command.len() as int) == Ok::<
        DecodeModel,
        DecodeError,
    >(m.polygon(header, params)));
}

/// Whether every word of `words` is an attribute command.
pub open spec fn is_attribute_stream(words: Seq<u32>) -> bool {
    forall|k: int| 0 <= k < words.len() ==> CommandKind::of(#[trigger] words[k])
        == CommandKind::Attribute
}

/// Decoding a stream of attribute commands records them one by one.
pub proof fn lemma_attribute_stream(m: DecodeModel, words: Seq<u32>)
    requires
        is_attribute_stream(words),
        words.len() <= usize::MAX,
    ensures
        decode_from(m, words, 0) == Ok::<DecodeModel, DecodeError>(m.attributes(words)),
    decreases words.len(),
{
    if words.len() > 0 {
        let front = words.drop_last();
        let last = seq![words.last()];
        let mid = m.attributes(front);
        lemma_attribute_stream(m, front);
        assert(front + last =~= words);
        lemma_decode_concatenation(m, front, last);
        assert(decode_from(mid.attribute(words.last()), last, 1) == Ok::<
            DecodeModel,
            DecodeError,
        >(mid.attribute(words.last())));
    }
}

/// A polygon command anywhere in a stream: whatever stands before it and
/// after it, its triangles, one for a triangle and two for a quad, stand in
/// the list that its header selects, behind the triangles of the commands
/// before it, numbered by their place among all primitives of the stream and
/// stamped with the snapshot that is current at their draw.
pub proof fn lemma_polygon_anywhere(
    before: Seq<u32>,
    header: u32,
    params: Seq<u32>,
    after: Seq<u32>,
)
    requires
        is_polygon_command(header, params),
        decode_from(DecodeModel::initial(), before, 0) is Ok,
        before.len() + 1 + params.len() + after.len() <= u32::MAX,
    ensures
        ({
            let earlier = decode_from(DecodeModel::initial(), before, 0).unwrap();
            let added = earlier.polygon_records(header, params);
            let whole = before + polygon_command(header, params) + after;
            decode_spec(whole) matches Ok(v) ==> {
                &&& added.len() == if is_quad(header) {
                    2nat
                } else {
                    1nat
                }
                &&& holds_at(v.list_for(header), earlier.list_for(header).len() as int, added)
                &&& forall|k: int|
                    0 <= k < added.len() ==> (#[trigger] added[k]).z_index
                        == earlier.outputs().primitive_count() + 1 + k
                &&& forall|k: int|
                    0 <= k < added.len() ==> (#[trigger] added[k]).attribute_index
                        == earlier.tracker.draw().current_index()
                &&& earlier.tracker.draw().current_index() < v.attributes.len()
            }
        }),
{
    let start = DecodeModel::initial();
    let command = polygon_command(header, params);
    let earlier = decode_from(start, before, 0).unwrap();
    let stepped = earlier.polygon(header, params);
    let added = earlier.polygon_records(header, params);
    lemma_decode_keeps_consistent(start, before, 0);
    lemma_next_z_index(earlier, header, params);
    lemma_polygon_command(earlier, header, params);
    lemma_decode_concatenation(start, before, command);
    lemma_decode_concatenation(start, before + command, after);
    lemma_decode_only_appends(stepped, after, 0);
    if let Ok(end) = decode_from(stepped, after, 0) {
        let place = earlier.list_for(header).len() as int;
        assert(end.list_for(header).subrange(place, place + added.len()) =~= added) by {
            assert forall|k: int| 0 <= k < added.len() implies end.list_for(header)[place + k]
                == added[k] by {
                assert(end.list_for(header).subrange(0, stepped.list_for(header).len() as int)[place
                    + k] == stepped.list_for(header)[place + k]);
            }
        }
    }
}

/// Two polygon commands with attribute commands between them, anywhere in a
/// stream. Exactly one snapshot is committed between the two draws. The
/// triangles of the first polygon name the snapshot that is current at its
/// draw; those of the second name the next one, which is what the attribute
/// commands make of the first. Both snapshots are in the output at those
/// indices, and the triangles are in the lists that their headers select.
pub proof fn lemma_attributes_between_polygons_anywhere(
    before: Seq<u32>,
    first_header: u32,
    first_params: Seq<u32>,
    attributes: Seq<u32>,
    second_header: u32,
    second_params: Seq<u32>,
    after: Seq<u32>,
)
    requires
        is_polygon_command(first_header, first_params),
        is_polygon_command(second_header, second_params),
        is_attribute_stream(attributes),
        attributes.len() > 0,
        decode_from(DecodeModel::initial(), before, 0) is Ok,
        before.len() + first_params.len() + attributes.len() + second_params.len() + after.len()
            + 2 <= u32::MAX,
    ensures
        ({
            let earlier = decode_from(DecodeModel::initial(), before, 0).unwrap();
            let first = earlier.polygon(first_header, first_params);
            let between = first.attributes(attributes);
            let second = between.polygon(second_header, second_params);
            let first_added = earlier.polygon_records(first_header, first_params);
            let second_added = between.polygon_records(second_header, second_params);
            let index = first.tracker.current_index();
            let whole = before + polygon_command(first_header, first_params) + attributes
                + polygon_command(second_header, second_params) + after;
            decode_spec(whole) matches Ok(v) ==> {
                &&& second.tracker.committed.len() == first.tracker.committed.len() + 1
                &&& holds_at(
                    v.list_for(first_header),
                    earlier.list_for(first_header).len() as int,
                    first_added,
                )
                &&& holds_at(
                    v.list_for(second_header),
                    first.list_for(second_header).len() as int,
                    second_added,
                )
                &&& forall|k: int|
                    0 <= k < first_added.len() ==> (#[trigger] first_added[k]).attribute_index
                        == index
                &&& forall|k: int|
                    0 <= k < second_added.len() ==> (#[trigger] second_added[k]).attribute_index
                        == index + 1
                &&& 0 <= index && index + 1 < v.attributes.len()
                &&& v.attributes[index + 1] == v.attributes[index].with_words(attributes)
            }
        }),
{
    let start = DecodeModel::initial();
    let first_command = polygon_command(first_header, first_params);
    let second_command = polygon_command(second_header, second_params);
    let earlier = decode_from(start, before, 0).unwrap();
    let first = earlier.polygon(first_header, first_params);
    let between = first.attributes(attributes);
    let second = between.polygon(second_header, second_params);
    let index = first.tracker.current_index();
    let whole = before + first_command + attributes + second_command + after;

    // The first polygon, with everything after it as the rest of the stream.
    let rest = attributes + second_command + after;
    assert(before + first_command + rest =~= whole);
    lemma_polygon_anywhere(before, first_header, first_params, rest);

    // The second polygon, with everything before it as the start of the
    // stream, which decodes to the state `between`.
    let lead = before + first_command + attributes;
    lemma_polygon_command(earlier, first_header, first_params);
    lemma_decode_concatenation(start, before, first_command);
    lemma_attribute_stream(first, attributes);
    lemma_decode_concatenation(start, before + first_command, attributes);
    lemma_polygon_anywhere(lead, second_header, second_params, after);

    // The snapshots of the two draws, and where the output keeps them.
    lemma_attributes_touch_only_the_tracker(first, attributes);
    lemma_decode_keeps_consistent(start, before, 0);
    lemma_attributes_between_polygons(
        earlier,
        first_header,
        first_params,
        attributes,
        second_header,
        second_params,
    );
    lemma_polygon_command(between, second_header, second_params);
    lemma_decode_concatenation(start, lead, second_command);
    lemma_decode_concatenation(start, lead + second_command, after);
    lemma_decode_only_appends(second, after, 0);
    if let Ok(end) = decode_from(second, after, 0) {
        let kept = second.tracker.committed.len() as int;
        assert(end.tracker.committed.subrange(0, kept)[index + 1]
            == second.tracker.committed[index + 1]);
    }
}

/// A command cut short anywhere in a stream: where the words before it
/// decode to their end and fewer words follow its header than the header
/// calls for, the decode fails with a buffer underrun at that header.
pub proof fn lemma_underrun_anywhere(before: Seq<u32>, header: u32, params: Seq<u32>)
    requires
        decode_from(DecodeModel::initial(), before, 0) is Ok,
        params.len() < param_count(header),
        before.len() + 1 + params.len() <= usize::MAX,
    ensures
        decode_spec(before + seq![header] + params) == Err::<DecodedView, DecodeError>(
            underrun_at(before.len() as int, header),
        ),
{
    let start = DecodeModel::initial();
    let cut = seq![header] + params;
    assert(before + seq![header] + params =~= before + cut);
    lemma_decode_concatenation(start, before, cut);
    lemma_underrun(decode_from(start, before, 0).unwrap(), cut, 0);
}

/// An unsupported command is passed over: with it in the stream, the decode
/// gives what it gives without it, except that an error behind it names a
/// word one further on.
pub proof fn lemma_unsupported_is_passed_over(before: Seq<u32>, word: u32, after: Seq<u32>)
    requires
        CommandKind::of(word) == CommandKind::Unsupported,
        decode_from(DecodeModel::initial(), before, 0) is Ok,
        before.len() + 1 + after.len() <= usize::MAX,
    ensures
        decode_from(DecodeModel::initial(), before + seq![word] + after, 0) == moved_on(
            decode_from(DecodeModel::initial(), before + after, 0),
            1,
        ),
{
    let start = DecodeModel::initial();
    let mid = decode_from(start, before, 0).unwrap();
    let lead = before + seq![word];
    lemma_decode_concatenation(start, before, seq![word]);
    assert(decode_from(mid, seq![word], 1) == Ok::<DecodeModel, DecodeError>(mid));
    assert(decode_from(start, lead, 0) == Ok::<DecodeModel, DecodeError>(mid));
    lemma_decode_concatenation(start, lead, after);
    lemma_decode_concatenation(start, before, after);
    lemma_errors_are_underruns(mid, after, 0);
}

} // verus!
