//! The byte layout of the output records: every field a 32-bit word, least
//! significant byte first, fields and records one after the other.

use crate::attributes::RenderingAttributes;
use crate::geometry::{FillRectCommand, RenderPolyCommand, Vertex};
use vstd::arithmetic::div_mod::lemma_fundamental_div_mod_converse;
use vstd::prelude::*;
use vstd::slice::slice_subrange;

verus! {

/// The four bytes of a word, least significant first.
pub open spec fn word_bytes(word: u32) -> Seq<u8> {
    seq![
        (word % 0x100) as u8,
        (word / 0x100 % 0x100) as u8,
        (word / 0x1_0000 % 0x100) as u8,
        (word / 0x100_0000) as u8,
    ]
}

/// The word whose four bytes, least significant first, start `bytes`.
pub open spec fn word_from(bytes: Seq<u8>) -> u32 {
    (bytes[0] + bytes[1] * 0x100 + bytes[2] * 0x1_0000 + bytes[3] * 0x100_0000) as u32
}

/// Reading back the four bytes of a word gives the word.
pub proof fn lemma_word_from_bytes(word: u32)
    ensures
        word_bytes(word).len() == 4,
        word_from(word_bytes(word)) == word,
{
    assert(word % 0x100 + (word / 0x100 % 0x100) * 0x100 + (word / 0x1_0000 % 0x100) * 0x1_0000
        + (word / 0x100_0000) * 0x100_0000 == word) by (bit_vector);
}

/// Writing out the word read from four bytes gives the four bytes.
pub proof fn lemma_bytes_from_word(bytes: Seq<u8>)
    requires
        bytes.len() == 4,
    ensures
        word_bytes(word_from(bytes)) == bytes,
{
    let b0 = bytes[0];
    let b1 = bytes[1];
    let b2 = bytes[2];
    let b3 = bytes[3];
    let word = word_from(bytes);
    assert(word % 0x100 == b0 && word / 0x100 % 0x100 == b1 && word / 0x1_0000 % 0x100 == b2
        && word / 0x100_0000 == b3) by (bit_vector)
        requires
            word == b0 + b1 * 0x100 + b2 * 0x1_0000 + b3 * 0x100_0000,
    ;
}

/// Appends the four bytes of `word`.
pub fn push_word(out: &mut Vec<u8>, word: u32)
    ensures
        final(out)@ == old(out)@ + word_bytes(word),
{
    out.push((word % 0x100) as u8);
    out.push((word / 0x100 % 0x100) as u8);
    out.push((word / 0x1_0000 % 0x100) as u8);
    out.push((word / 0x100_0000) as u8);
}

/// Reads the word whose four bytes start at index `at`.
pub fn read_word(bytes: &[u8], at: usize) -> (word: u32)
    requires
        at + 4 <= bytes@.len(),
    ensures
        word == word_from(bytes@.subrange(at as int, at + 4)),
{
    let b0: u32 = bytes[at] as u32;
    let b1: u32 = bytes[at + 1] as u32;
    let b2: u32 = bytes[at + 2] as u32;
    let b3: u32 = bytes[at + 3] as u32;
    b0 + b1 * 0x100 + b2 * 0x1_0000 + b3 * 0x100_0000
}

/// The bytes of a sequence of words: each word's four bytes, word after word.
pub open spec fn words_to_bytes(words: Seq<u32>) -> Seq<u8> {
    Seq::new(4 * words.len(), |i: int| word_bytes(words[i / 4])[i % 4])
}

/// The words that a sequence of bytes holds, four bytes each. Bytes beyond
/// the last whole word are left out.
pub open spec fn bytes_to_words(bytes: Seq<u8>) -> Seq<u32> {
    Seq::new((bytes.len() / 4) as nat, |j: int| word_from(bytes.subrange(4 * j, 4 * j + 4)))
}

/// Byte `k` of word `j` stands at index `4 * j + k`.
pub proof fn lemma_byte_in_place(words: Seq<u32>, j: int, k: int)
    requires
        0 <= j < words.len(),
        0 <= k < 4,
    ensures
        4 * j + k < words_to_bytes(words).len(),
        words_to_bytes(words)[4 * j + k] == word_bytes(words[j])[k],
{
}

/// The bytes of one more word come after the bytes of the words before it.
pub proof fn lemma_words_to_bytes_push(words: Seq<u32>, word: u32)
    ensures
        words_to_bytes(words.push(word)) == words_to_bytes(words) + word_bytes(word),
{
    let all = words_to_bytes(words.push(word));
    let joined = words_to_bytes(words) + word_bytes(word);
    assert forall|i: int| 0 <= i < all.len() implies all[i] == joined[i] by {
        let j = i / 4;
        let k = i % 4;
        lemma_byte_in_place(words.push(word), j, k);
        if j < words.len() {
            lemma_byte_in_place(words, j, k);
        }
    }
}

/// Reading back the bytes of a sequence of words gives the words.
pub proof fn lemma_bytes_to_words_inverts(words: Seq<u32>)
    ensures
        words_to_bytes(words).len() == 4 * words.len(),
        bytes_to_words(words_to_bytes(words)) == words,
{
    let bytes = words_to_bytes(words);
    assert forall|j: int| 0 <= j < words.len() implies bytes_to_words(bytes)[j] == words[j] by {
        let chunk = bytes.subrange(4 * j, 4 * j + 4);
        let expected = word_bytes(words[j]);
        assert forall|k: int| 0 <= k < 4 implies chunk[k] == expected[k] by {
            lemma_byte_in_place(words, j, k);
        }
        lemma_word_from_bytes(words[j]);
    }
}

/// Writing out the words read from a whole number of words' bytes gives the
/// bytes.
pub proof fn lemma_words_to_bytes_inverts(bytes: Seq<u8>)
    requires
        bytes.len() % 4 == 0,
    ensures
        bytes_to_words(bytes).len() * 4 == bytes.len(),
        words_to_bytes(bytes_to_words(bytes)) == bytes,
{
    let words = bytes_to_words(bytes);
    let back = words_to_bytes(words);
    assert forall|i: int| 0 <= i < bytes.len() implies back[i] == bytes[i] by {
        let j = i / 4;
        let k = i % 4;
        let chunk = bytes.subrange(4 * j, 4 * j + 4);
        lemma_bytes_from_word(chunk);
        lemma_byte_in_place(words, j, k);
    }
}

/// A record with a fixed layout: a fixed number of 32-bit fields in a fixed
/// order, with no padding. Its packed form is the bytes of those words, each
/// word least significant byte first.
pub trait Record: Sized {
    /// Number of words in a record.
    spec fn word_len() -> nat;

    /// The fields of a record, in layout order.
    spec fn to_words(&self) -> Seq<u32>;

    /// The record whose fields, in layout order, start `words`.
    spec fn from_words(words: Seq<u32>) -> Self;

    /// A record has `word_len()` words, at least one, and is what its words
    /// read back as.
    proof fn lemma_layout(&self)
        ensures
            Self::word_len() > 0,
            self.to_words().len() == Self::word_len(),
            Self::from_words(self.to_words()) == *self,
    ;

    /// Any `word_len()` words are the words of the record they read as.
    proof fn lemma_layout_onto(words: Seq<u32>)
        requires
            words.len() == Self::word_len(),
        ensures
            Self::from_words(words).to_words() == words,
    ;

    /// Number of bytes in a packed record.
    fn stride() -> (n: usize)
        ensures
            n == 4 * Self::word_len(),
            n > 0,
    ;

    /// Appends the packed record to `out`.
    fn pack(&self, out: &mut Vec<u8>)
        ensures
            final(out)@ == old(out)@ + words_to_bytes(self.to_words()),
    ;

    /// Reads a record from its packed form.
    fn unpack(bytes: &[u8]) -> (r: Self)
        requires
            bytes@.len() == 4 * Self::word_len(),
        ensures
            r == Self::from_words(bytes_to_words(bytes@)),
    ;
}

/// Number of bytes in a packed record of type `T`.
pub open spec fn stride_of<T: Record>() -> nat {
    4 * T::word_len()
}

/// The packed form of one record.
pub open spec fn packed<T: Record>(record: T) -> Seq<u8> {
    words_to_bytes(record.to_words())
}

/// The record that `bytes` is the packed form of.
pub open spec fn unpacked<T: Record>(bytes: Seq<u8>) -> T {
    T::from_words(bytes_to_words(bytes))
}

/// The packed form of a list of records: one packed record after the other.
pub open spec fn packed_seq<T: Record>(records: Seq<T>) -> Seq<u8>
    decreases records.len(),
{
    if records.len() == 0 {
        Seq::empty()
    } else {
        packed_seq(records.drop_last()) + packed(records.last())
    }
}

/// The list of records that `bytes`, a whole number of strides long, is the
/// packed form of.
pub open spec fn unpacked_seq<T: Record>(bytes: Seq<u8>) -> Seq<T>
    decreases bytes.len(),
{
    let stride = stride_of::<T>();
    if stride == 0 || bytes.len() < stride {
        Seq::empty()
    } else {
        unpacked_seq::<T>(bytes.take(bytes.len() - stride)).push(
            unpacked::<T>(bytes.skip(bytes.len() - stride)),
        )
    }
}

/// A packed record is one stride long and unpacks to the record.
pub proof fn lemma_unpack_inverts_pack<T: Record>(record: T)
    ensures
        stride_of::<T>() > 0,
        packed(record).len() == stride_of::<T>(),
        unpacked::<T>(packed(record)) == record,
{
    record.lemma_layout();
    lemma_bytes_to_words_inverts(record.to_words());
}

/// One stride of bytes is the packed form of the record it unpacks to.
pub proof fn lemma_pack_inverts_unpack<T: Record>(bytes: Seq<u8>)
    requires
        bytes.len() == stride_of::<T>(),
    ensures
        packed(unpacked::<T>(bytes)) == bytes,
{
    lemma_words_to_bytes_inverts(bytes);
    T::lemma_layout_onto(bytes_to_words(bytes));
}

/// A packed list takes one stride per record and unpacks to the list.
pub proof fn lemma_unpack_seq_inverts_pack<T: Record>(records: Seq<T>)
    ensures
        packed_seq(records).len() == records.len() * stride_of::<T>(),
        unpacked_seq::<T>(packed_seq(records)) == records,
    decreases records.len(),
{
    let stride = stride_of::<T>();
    if records.len() > 0 {
        let front = records.drop_last();
        let bytes = packed_seq(records);
        lemma_unpack_seq_inverts_pack(front);
        lemma_unpack_inverts_pack(records.last());
        assert(records.len() * stride == front.len() * stride + stride) by (nonlinear_arith)
            requires
                records.len() == front.len() + 1,
        ;
        assert(bytes.take(bytes.len() - stride) =~= packed_seq(front));
        assert(bytes.skip(bytes.len() - stride) =~= packed(records.last()));
    } else {
        assert(records.len() * stride == 0) by (nonlinear_arith)
            requires
                records.len() == 0,
        ;
    }
}

/// A whole number of strides of bytes is the packed form of the list it
/// unpacks to, which has one record per stride.
pub proof fn lemma_pack_seq_inverts_unpack<T: Record>(bytes: Seq<u8>, count: nat)
    requires
        bytes.len() == count * stride_of::<T>(),
        stride_of::<T>() > 0,
    ensures
        unpacked_seq::<T>(bytes).len() == count,
        packed_seq(unpacked_seq::<T>(bytes)) == bytes,
    decreases count,
{
    let stride = stride_of::<T>();
    if count > 0 {
        let rest = (count - 1) as nat;
        assert(count * stride == rest * stride + stride) by (nonlinear_arith)
            requires
                count == rest + 1,
        ;
        let front = bytes.take(bytes.len() - stride);
        let back = bytes.skip(bytes.len() - stride);
        lemma_pack_seq_inverts_unpack::<T>(front, rest);
        lemma_pack_inverts_unpack::<T>(back);
        let records = unpacked_seq::<T>(bytes);
        assert(records.drop_last() =~= unpacked_seq::<T>(front));
    } else {
        assert(count * stride == 0) by (nonlinear_arith)
            requires
                count == 0,
        ;
    }
}

/// Packs a list of records into one byte buffer, record after record.
pub fn u8_vec<T: Record>(v: &Vec<T>) -> (bytes: Vec<u8>)
    ensures
        bytes@ == packed_seq(v@),
        bytes@.len() == v@.len() * stride_of::<T>(),
        unpacked_seq::<T>(bytes@) == v@,
{
    let mut bytes: Vec<u8> = Vec::new();
    let mut i: usize = 0;
    while i < v.len()
        invariant
            i <= v.len(),
            bytes@ == packed_seq(v@.take(i as int)),
        decreases v.len() - i,
    {
        v[i].pack(&mut bytes);
        proof {
            assert(v@.take(i + 1).drop_last() =~= v@.take(i as int));
        }
        i = i + 1;
    }
    proof {
        assert(v@.take(v.len() as int) =~= v@);
        lemma_unpack_seq_inverts_pack(v@);
    }
    bytes
}

/// Unpacks a byte buffer into the list of records it holds. A buffer that is
/// not a whole number of strides long holds no list.
pub fn unpack_records<T: Record>(bytes: &[u8]) -> (r: Option<Vec<T>>)
    ensures
        match r {
            Some(records) => {
                &&& bytes@.len() % stride_of::<T>() == 0
                &&& records@ == unpacked_seq::<T>(bytes@)
                &&& packed_seq(records@) == bytes@
            },
            None => bytes@.len() % stride_of::<T>() != 0,
        },
{
    let stride = T::stride();
    let mut records: Vec<T> = Vec::new();
    let mut at: usize = 0;
    assert(0 * stride == 0) by (nonlinear_arith);
    while bytes.len() - at >= stride
        invariant
            stride == stride_of::<T>(),
            stride > 0,
            at <= bytes@.len(),
            at == records@.len() * stride,
            records@ == unpacked_seq::<T>(bytes@.take(at as int)),
        decreases bytes@.len() - at,
    {
        let record = T::unpack(slice_subrange(bytes, at, at + stride));
        proof {
            let upto = bytes@.take(at + stride);
            assert(upto.take(upto.len() - stride) =~= bytes@.take(at as int));
            assert(upto.skip(upto.len() - stride) =~= bytes@.subrange(at as int, at + stride));
            assert((records@.len() + 1) * stride == records@.len() * stride + stride)
                by (nonlinear_arith);
        }
        records.push(record);
        at = at + stride;
    }
    proof {
        lemma_fundamental_div_mod_converse(
            bytes@.len() as int,
            stride as int,
            records@.len() as int,
            bytes@.len() - at,
        );
    }
    if at == bytes.len() {
        proof {
            assert(bytes@.take(at as int) =~= bytes@);
            lemma_pack_seq_inverts_unpack::<T>(bytes@, records@.len());
        }
        Some(records)
    } else {
        None
    }
}

/// Appends one more field of a record that is being packed behind `start`.
fn push_field(
    out: &mut Vec<u8>,
    word: u32,
    Ghost(start): Ghost<Seq<u8>>,
    Ghost(words): Ghost<Seq<u32>>,
)
    requires
        old(out)@ == start + words_to_bytes(words),
    ensures
        final(out)@ == start + words_to_bytes(words.push(word)),
{
    push_word(out, word);
    proof {
        lemma_words_to_bytes_push(words, word);
    }
}

impl Record for FillRectCommand {
    open spec fn word_len() -> nat {
        4
    }

    open spec fn to_words(&self) -> Seq<u32> {
        seq![self.z_index, self.color, self.position, self.size]
    }

    open spec fn from_words(words: Seq<u32>) -> FillRectCommand {
        FillRectCommand {
            z_index: words[0],
            color: words[1],
            position: words[2],
            size: words[3],
        }
    }

    proof fn lemma_layout(&self) {
    }

    proof fn lemma_layout_onto(words: Seq<u32>) {
    }

    fn stride() -> (n: usize) {
        16
    }

    fn pack(&self, out: &mut Vec<u8>) {
        let ghost start = out@;
        let ghost w0 = Seq::<u32>::empty();
        let ghost w1 = w0.push(self.z_index);
        let ghost w2 = w1.push(self.color);
        let ghost w3 = w2.push(self.position);
        push_field(out, self.z_index, Ghost(start), Ghost(w0));
        push_field(out, self.color, Ghost(start), Ghost(w1));
        push_field(out, self.position, Ghost(start), Ghost(w2));
        push_field(out, self.size, Ghost(start), Ghost(w3));
    }

    fn unpack(bytes: &[u8]) -> (r: FillRectCommand) {
        FillRectCommand {
            z_index: read_word(bytes, 0),
            color: read_word(bytes, 4),
            position: read_word(bytes, 8),
            size: read_word(bytes, 12),
        }
    }
}

impl Record for RenderingAttributes {
    open spec fn word_len() -> nat {
        6
    }

    open spec fn to_words(&self) -> Seq<u32> {
        seq![
            self.texpage,
            self.texture_window,
            self.draw_area_top_left,
            self.draw_area_bottom_right,
            self.drawing_offset,
            self.mask_setting,
        ]
    }

    open spec fn from_words(words: Seq<u32>) -> RenderingAttributes {
        RenderingAttributes {
            texpage: words[0],
            texture_window: words[1],
            draw_area_top_left: words[2],
            draw_area_bottom_right: words[3],
            drawing_offset: words[4],
            mask_setting: words[5],
        }
    }

    proof fn lemma_layout(&self) {
    }

    proof fn lemma_layout_onto(words: Seq<u32>) {
    }

    fn stride() -> (n: usize) {
        24
    }

    fn pack(&self, out: &mut Vec<u8>) {
        let ghost start = out@;
        let ghost w0 = Seq::<u32>::empty();
        let ghost w1 = w0.push(self.texpage);
        let ghost w2 = w1.push(self.texture_window);
        let ghost w3 = w2.push(self.draw_area_top_left);
        let ghost w4 = w3.push(self.draw_area_bottom_right);
        let ghost w5 = w4.push(self.drawing_offset);
        push_field(out, self.texpage, Ghost(start), Ghost(w0));
        push_field(out, self.texture_window, Ghost(start), Ghost(w1));
        push_field(out, self.draw_area_top_left, Ghost(start), Ghost(w2));
        push_field(out, self.draw_area_bottom_right, Ghost(start), Ghost(w3));
        push_field(out, self.drawing_offset, Ghost(start), Ghost(w4));
        push_field(out, self.mask_setting, Ghost(start), Ghost(w5));
    }

    fn unpack(bytes: &[u8]) -> (r: RenderingAttributes) {
        RenderingAttributes {
            texpage: read_word(bytes, 0),
            texture_window: read_word(bytes, 4),
            draw_area_top_left: read_word(bytes, 8),
            draw_area_bottom_right: read_word(bytes, 12),
            drawing_offset: read_word(bytes, 16),
            mask_setting: read_word(bytes, 20),
        }
    }
}

/// The vertex whose three words start at index `at` of `words`.
pub open spec fn vertex_from_words(words: Seq<u32>, at: int) -> Vertex {
    Vertex { position: words[at], uv: words[at + 1], color: words[at + 2] }
}

impl Record for RenderPolyCommand {
    open spec fn word_len() -> nat {
        13
    }

    open spec fn to_words(&self) -> Seq<u32> {
        seq![
            self.z_index,
            self.attribute_index,
            self.color,
            self.tex_info,
            self.vertices[0].position,
            self.vertices[0].uv,
            self.vertices[0].color,
            self.vertices[1].position,
            self.vertices[1].uv,
            self.vertices[1].color,
            self.vertices[2].position,
            self.vertices[2].uv,
            self.vertices[2].color,
        ]
    }

    open spec fn from_words(words: Seq<u32>) -> RenderPolyCommand {
        RenderPolyCommand {
            z_index: words[0],
            attribute_index: words[1],
            color: words[2],
            tex_info: words[3],
            vertices: [
                vertex_from_words(words, 4),
                vertex_from_words(words, 7),
                vertex_from_words(words, 10),
            ],
        }
    }

    proof fn lemma_layout(&self) {
        let back = RenderPolyCommand::from_words(self.to_words());
        assert(back.vertices =~= self.vertices);
    }

    proof fn lemma_layout_onto(words: Seq<u32>) {
    }

    fn stride() -> (n: usize) {
        52
    }

    fn pack(&self, out: &mut Vec<u8>) {
        let ghost start = out@;
        let ghost w0 = Seq::<u32>::empty();
        let ghost w1 = w0.push(self.z_index);
        let ghost w2 = w1.push(self.attribute_index);
        let ghost w3 = w2.push(self.color);
        let ghost mut words = w3.push(self.tex_info);
        push_field(out, self.z_index, Ghost(start), Ghost(w0));
        push_field(out, self.attribute_index, Ghost(start), Ghost(w1));
        push_field(out, self.color, Ghost(start), Ghost(w2));
        push_field(out, self.tex_info, Ghost(start), Ghost(w3));
        let mut i: usize = 0;
        while i < 3
            invariant
                i <= 3,
                out@ == start + words_to_bytes(words),
                words == self.to_words().take(4 + 3 * i),
            decreases 3 - i,
        {
            let vertex = self.vertices[i];
            let ghost before = words;
            let ghost with_position = before.push(vertex.position);
            let ghost with_uv = with_position.push(vertex.uv);
            push_field(out, vertex.position, Ghost(start), Ghost(before));
            push_field(out, vertex.uv, Ghost(start), Ghost(with_position));
            push_field(out, vertex.color, Ghost(start), Ghost(with_uv));
            proof {
                words = with_uv.push(vertex.color);
            }
            i = i + 1;
        }
    }

    fn unpack(bytes: &[u8]) -> (r: RenderPolyCommand) {
        let v0 = Vertex {
            position: read_word(bytes, 16),
            uv: read_word(bytes, 20),
            color: read_word(bytes, 24),
        };
        let v1 = Vertex {
            position: read_word(bytes, 28),
            uv: read_word(bytes, 32),
            color: read_word(bytes, 36),
        };
        let v2 = Vertex {
            position: read_word(bytes, 40),
            uv: read_word(bytes, 44),
            color: read_word(bytes, 48),
        };
        RenderPolyCommand {
            z_index: read_word(bytes, 0),
            attribute_index: read_word(bytes, 4),
            color: read_word(bytes, 8),
            tex_info: read_word(bytes, 12),
            vertices: [v0, v1, v2],
        }
    }
}

} // verus!
