//! The decode pass: what a stream of command words means, as a state that
//! each command takes one step further, and the loop that computes it.

use crate::attributes::{AttributeTracker, RenderingAttributes, TrackerModel};
use crate::error::{DecodeError, DecodeErrorKind};
use crate::geometry::{
    build_fill_rect_command, build_render_poly_command, fill_rect_of, is_semi_transparent,
    poly_param_count, poly_records, FillRectCommand, RenderPolyCommand, FILL_RECT_PARAMS,
    SEMI_TRANSPARENT_BIT,
};
use crate::header::{
    category_bits, decode_header, header_of, lemma_header_fields_bounded, subopcode_bits,
    GP0CommandType,
};
use crate::laws::{lemma_decode_well_formed, lemma_errors_are_underruns};
use crate::reader::CommandReader;
use vstd::prelude::*;

verus! {

/// Sub-opcode, within the transfer category, of the fill-rectangle command.
pub const TRANSFER_FILL_RECT: u8 = 0x02;

/// What the decoder does with a command.
#[derive(Clone, Copy, Debug, PartialEq, Eq, Structural)]
pub enum CommandKind {
    /// Fill a rectangle: two parameter words.
    FillRect,
    /// Draw a triangle or a quad: three to eleven parameter words.
    Polygon,
    /// Change one rendering attribute: the header word is the whole command.
    Attribute,
    /// Known but not decoded, or unknown within its category: the header
    /// word is passed over and nothing else happens.
    Unsupported,
}

impl CommandKind {
    pub open spec fn of(word: u32) -> CommandKind {
        let header = header_of(word);
        match header.category {
            GP0CommandType::Transfer => if header.subopcode == TRANSFER_FILL_RECT {
                CommandKind::FillRect
            } else {
                CommandKind::Unsupported
            },
            GP0CommandType::RenderPoly => CommandKind::Polygon,
            GP0CommandType::RenderingAttribute => CommandKind::Attribute,
            _ => CommandKind::Unsupported,
        }
    }

    /// Classifies a command by its header word.
    pub fn classify(word: u32) -> (kind: CommandKind)
        ensures
            kind == CommandKind::of(word),
    {
        let header = decode_header(word);
        match header.category {
            GP0CommandType::Transfer => if header.subopcode == TRANSFER_FILL_RECT {
                CommandKind::FillRect
            } else {
                CommandKind::Unsupported
            },
            GP0CommandType::RenderPoly => CommandKind::Polygon,
            GP0CommandType::RenderingAttribute => CommandKind::Attribute,
            _ => CommandKind::Unsupported,
        }
    }
}

/// Number of parameter words that follow the header `word`.
pub open spec fn param_count(word: u32) -> int {
    match CommandKind::of(word) {
        CommandKind::FillRect => FILL_RECT_PARAMS as int,
        CommandKind::Polygon => poly_param_count(word),
        _ => 0,
    }
}

/// The error of a command that starts at `index` with header `word` and asks
/// for more parameter words than are left.
pub open spec fn underrun_at(index: int, word: u32) -> DecodeError {
    DecodeError {
        kind: DecodeErrorKind::BufferUnderrun,
        word_index: index as usize,
        category: category_bits(word) as u8,
        subopcode: subopcode_bits(word) as u8,
    }
}

/// The four output lists, as sequences.
pub struct DecodedView {
    pub fill_rects: Seq<FillRectCommand>,
    pub opaque_polys: Seq<RenderPolyCommand>,
    pub transparent_polys: Seq<RenderPolyCommand>,
    pub attributes: Seq<RenderingAttributes>,
}

impl DecodedView {
    /// The list that takes the triangles of a polygon with header `word`:
    /// the transparent one where bit 25 is set, else the opaque one.
    pub open spec fn list_for(self, word: u32) -> Seq<RenderPolyCommand> {
        if is_semi_transparent(word) {
            self.transparent_polys
        } else {
            self.opaque_polys
        }
    }
}

/// Everything a decode carries from one command to the next.
pub struct DecodeModel {
    pub tracker: TrackerModel,
    /// The z-index that the next primitive gets.
    pub z_index: int,
    pub fill_rects: Seq<FillRectCommand>,
    pub opaque_polys: Seq<RenderPolyCommand>,
    pub transparent_polys: Seq<RenderPolyCommand>,
}

impl DecodeModel {
    /// Before the first command: nothing drawn, nothing committed, and the
    /// first primitive will get z-index 1.
    pub open spec fn initial() -> DecodeModel {
        DecodeModel {
            tracker: TrackerModel::initial(),
            z_index: 1,
            fill_rects: Seq::empty(),
            opaque_polys: Seq::empty(),
            transparent_polys: Seq::empty(),
        }
    }

    /// After a fill-rectangle command: a draw for the tracker, one more
    /// record, one z-index used.
    pub open spec fn fill_rect(self, word: u32, params: Seq<u32>) -> DecodeModel {
        DecodeModel {
            tracker: self.tracker.draw(),
            z_index: self.z_index + 1,
            fill_rects: self.fill_rects.push(fill_rect_of(word, params, self.z_index as u32)),
            ..self
        }
    }

    /// The triangles that a polygon command adds in this state: numbered
    /// from the next z-index on and stamped with the snapshot that is current
    /// once the tracker has taken in the draw.
    pub open spec fn polygon_records(self, word: u32, params: Seq<u32>) -> Seq<
        RenderPolyCommand,
    > {
        poly_records(
            word,
            params,
            self.z_index as u32,
            self.tracker.draw().current_index() as u32,
        )
    }

    /// The list that takes the triangles of a polygon with header `word`:
    /// the transparent one where bit 25 is set, else the opaque one.
    pub open spec fn list_for(self, word: u32) -> Seq<RenderPolyCommand> {
        if is_semi_transparent(word) {
            self.transparent_polys
        } else {
            self.opaque_polys
        }
    }

    /// After a polygon command: a draw for the tracker, and its one or two
    /// triangles, each with a z-index of its own, at the end of the list
    /// that header bit 25 selects.
    pub open spec fn polygon(self, word: u32, params: Seq<u32>) -> DecodeModel {
        let records = self.polygon_records(word, params);
        DecodeModel {
            tracker: self.tracker.draw(),
            z_index: self.z_index + records.len(),
            fill_rects: self.fill_rects,
            opaque_polys: if is_semi_transparent(word) {
                self.opaque_polys
            } else {
                self.opaque_polys + records
            },
            transparent_polys: if is_semi_transparent(word) {
                self.transparent_polys + records
            } else {
                self.transparent_polys
            },
        }
    }

    /// After an attribute command: only the tracker changes.
    pub open spec fn attribute(self, word: u32) -> DecodeModel {
        DecodeModel { tracker: self.tracker.record(word), ..self }
    }

    /// After the attribute commands `words`, first to last.
    pub open spec fn attributes(self, words: Seq<u32>) -> DecodeModel
        decreases words.len(),
    {
        if words.len() == 0 {
            self
        } else {
            self.attributes(words.drop_last()).attribute(words.last())
        }
    }

    /// After the command with header `word` and parameter words `params`.
    pub open spec fn apply(self, word: u32, params: Seq<u32>) -> DecodeModel {
        match CommandKind::of(word) {
            CommandKind::FillRect => self.fill_rect(word, params),
            CommandKind::Polygon => self.polygon(word, params),
            CommandKind::Attribute => self.attribute(word),
            CommandKind::Unsupported => self,
        }
    }

    /// What the caller gets at the end of the stream.
    pub open spec fn outputs(self) -> DecodedView {
        DecodedView {
            fill_rects: self.fill_rects,
            opaque_polys: self.opaque_polys,
            transparent_polys: self.transparent_polys,
            attributes: self.tracker.committed,
        }
    }
}

/// Decodes `words` from index `pos` on, starting in state `m`: command by
/// command, each one its header word and the parameter words the header
/// calls for. A command that calls for more words than are left ends the
/// decode with an error.
pub open spec fn decode_from(m: DecodeModel, words: Seq<u32>, pos: int) -> Result<
    DecodeModel,
    DecodeError,
>
    decreases words.len() - pos,
{
    if pos < 0 || pos >= words.len() {
        Ok(m)
    } else {
        let word = words[pos];
        let count = param_count(word);
        let next = pos + 1 + count;
        if next > words.len() {
            Err(underrun_at(pos, word))
        } else {
            decode_from(m.apply(word, words.subrange(pos + 1, next)), words, next)
        }
    }
}

/// What decoding the whole of `words` gives.
pub open spec fn decode_spec(words: Seq<u32>) -> Result<DecodedView, DecodeError> {
    match decode_from(DecodeModel::initial(), words, 0) {
        Ok(m) => Ok(m.outputs()),
        Err(e) => Err(e),
    }
}

/// The four lists that a decode gives, each in stream order.
#[derive(Debug, PartialEq, Eq)]
pub struct DecodedCommands {
    pub fill_rects: Vec<FillRectCommand>,
    pub opaque_polys: Vec<RenderPolyCommand>,
    pub transparent_polys: Vec<RenderPolyCommand>,
    pub attributes: Vec<RenderingAttributes>,
}

impl View for DecodedCommands {
    type V = DecodedView;

    open spec fn view(&self) -> DecodedView {
        DecodedView {
            fill_rects: self.fill_rects@,
            opaque_polys: self.opaque_polys@,
            transparent_polys: self.transparent_polys@,
            attributes: self.attributes@,
        }
    }
}

/// Every primitive takes at least two words of the stream and every snapshot
/// at least one, so a stream whose length fits 32 bits cannot run the
/// counters over.
pub open spec fn within_budget(m: DecodeModel, consumed: int) -> bool {
    &&& 1 <= m.z_index
    &&& 2 * (m.z_index - 1) <= consumed
    &&& m.tracker.committed.len() <= consumed
}

/// The state of one decode pass. Made anew for every stream.
struct Decoder {
    tracker: AttributeTracker,
    z_index: u32,
    fill_rects: Vec<FillRectCommand>,
    opaque_polys: Vec<RenderPolyCommand>,
    transparent_polys: Vec<RenderPolyCommand>,
}

impl View for Decoder {
    type V = DecodeModel;

    closed spec fn view(&self) -> DecodeModel {
        DecodeModel {
            tracker: self.tracker@,
            z_index: self.z_index as int,
            fill_rects: self.fill_rects@,
            opaque_polys: self.opaque_polys@,
            transparent_polys: self.transparent_polys@,
        }
    }
}

impl Decoder {
    fn new() -> (d: Decoder)
        ensures
            d@ == DecodeModel::initial(),
    {
        Decoder {
            tracker: AttributeTracker::new(),
            z_index: 1,
            fill_rects: Vec::new(),
            opaque_polys: Vec::new(),
            transparent_polys: Vec::new(),
        }
    }

    /// Carries out the command whose header `word` was just read from
    /// `fifo`: reads its parameter words and updates the state.
    fn execute(&mut self, word: u32, fifo: &mut CommandReader) -> (r: Result<
        (),
        DecodeErrorKind,
    >)
        requires
            1 <= old(fifo).position() <= old(fifo).words().len() <= u32::MAX,
            within_budget(old(self)@, old(fifo).position() - 1),
        ensures
            final(fifo).words() == old(fifo).words(),
            final(fifo).position() <= final(fifo).words().len(),
            match r {
                Ok(()) => {
                    &&& param_count(word) <= old(fifo).pending().len()
                    &&& final(fifo).position() == old(fifo).position() + param_count(word)
                    &&& final(self)@ == old(self)@.apply(
                        word,
                        old(fifo).pending().take(param_count(word)),
                    )
                    &&& within_budget(final(self)@, final(fifo).position() as int)
                },
                Err(kind) => {
                    &&& param_count(word) > old(fifo).pending().len()
                    &&& kind == DecodeErrorKind::BufferUnderrun
                },
            },
    {
        match CommandKind::classify(word) {
            CommandKind::FillRect => {
                self.tracker.begin_draw();
                let record = match build_fill_rect_command(fifo, word, self.z_index) {
                    Ok(record) => record,
                    Err(kind) => {
                        return Err(kind);
                    },
                };
                self.fill_rects.push(record);
                self.z_index = self.z_index + 1;
            },
            CommandKind::Polygon => {
                let index = self.tracker.begin_draw();
                let mut records = match build_render_poly_command(
                    fifo,
                    word,
                    self.z_index,
                    index as u32,
                ) {
                    Ok(records) => records,
                    Err(kind) => {
                        return Err(kind);
                    },
                };
                let count = records.len();
                if (word & SEMI_TRANSPARENT_BIT) == 0 {
                    self.opaque_polys.append(&mut records);
                } else {
                    self.transparent_polys.append(&mut records);
                }
                self.z_index = self.z_index + count as u32;
            },
            CommandKind::Attribute => {
                self.tracker.record(word);
            },
            CommandKind::Unsupported => {},
        }
        Ok(())
    }

    fn finish(self) -> (out: DecodedCommands)
        ensures
            out@ == self@.outputs(),
    {
        DecodedCommands {
            fill_rects: self.fill_rects,
            opaque_polys: self.opaque_polys,
            transparent_polys: self.transparent_polys,
            attributes: self.tracker.into_snapshots(),
        }
    }
}

/// Decodes a whole command stream in one pass. Either every command could be
/// read and the four lists come back, or the first command that asks for
/// more words than are left ends the decode, and its error comes back with
/// nothing else.
pub fn decode_commands(commands: &[u32]) -> (r: Result<DecodedCommands, DecodeError>)
    requires
        commands@.len() <= u32::MAX,
    ensures
        match r {
            Ok(decoded) => {
                &&& decode_spec(commands@) == Ok::<DecodedView, DecodeError>(decoded@)
                &&& decoded@.z_ordered()
                &&& decoded@.partitioned()
                &&& decoded@.attributed()
            },
            Err(e) => {
                &&& decode_spec(commands@) == Err::<DecodedView, DecodeError>(e)
                &&& e.kind == DecodeErrorKind::BufferUnderrun
                &&& e.word_index < commands@.len()
                &&& e == underrun_at(e.word_index as int, commands@[e.word_index as int])
                &&& commands@.len() - (e.word_index + 1) < param_count(
                    commands@[e.word_index as int],
                )
            },
        },
{
    proof {
        lemma_decode_well_formed(commands@);
        lemma_errors_are_underruns(DecodeModel::initial(), commands@, 0);
    }
    let mut fifo = CommandReader::new(commands);
    let mut decoder = Decoder::new();
    loop
        invariant
            fifo.words() == commands@,
            fifo.position() <= commands@.len() <= u32::MAX,
            within_budget(decoder@, fifo.position() as int),
            decode_from(decoder@, commands@, fifo.position() as int) == decode_from(
                DecodeModel::initial(),
                commands@,
                0,
            ),
        ensures
            fifo.position() == commands@.len(),
        decreases commands@.len() - fifo.position(),
    {
        let index = fifo.word_index();
        let word = match fifo.pop_word() {
            Ok(word) => word,
            Err(_) => {
                break;
            },
        };
        let ghost before = decoder@;
        let ghost params = commands@.subrange(index + 1, index + 1 + param_count(word));
        match decoder.execute(word, &mut fifo) {
            Ok(()) => {
                assert(commands@.skip(index + 1).take(param_count(word)) =~= params);
                assert(decode_from(before, commands@, index as int) == decode_from(
                    before.apply(word, params),
                    commands@,
                    index + 1 + param_count(word),
                ));
            },
            Err(kind) => {
                let header = decode_header(word);
                proof {
                    lemma_header_fields_bounded(word);
                }
                return Err(
                    DecodeError {
                        kind,
                        word_index: index,
                        category: header.category.to_bits(),
                        subopcode: header.subopcode,
                    },
                );
            },
        }
    }
    Ok(decoder.finish())
}

} // verus!
