//! Rendering attributes: the six draw settings that outlive a command, and
//! the tracker that turns runs of attribute commands into a list of
//! snapshots for draws to refer to.

use crate::header::subopcode_bits;
use vstd::prelude::*;

verus! {

/// Sub-opcode of the draw-mode ("texture page") setting.
pub const ATTR_TEXPAGE: u32 = 0x01;

/// Sub-opcode of the texture-window setting.
pub const ATTR_TEXTURE_WINDOW: u32 = 0x02;

/// Sub-opcode that sets the top-left corner of the drawing area.
pub const ATTR_DRAW_AREA_TOP_LEFT: u32 = 0x03;

/// Sub-opcode that sets the bottom-right corner of the drawing area.
pub const ATTR_DRAW_AREA_BOTTOM_RIGHT: u32 = 0x04;

/// Sub-opcode of the drawing offset.
pub const ATTR_DRAWING_OFFSET: u32 = 0x05;

/// Sub-opcode of the mask-bit setting.
pub const ATTR_MASK_SETTING: u32 = 0x06;

/// The draw state that outlives a single command: six raw setting words.
#[derive(Clone, Copy, Debug, PartialEq, Eq, Structural)]
pub struct RenderingAttributes {
    pub texpage: u32,
    pub texture_window: u32,
    pub draw_area_top_left: u32,
    pub draw_area_bottom_right: u32,
    pub drawing_offset: u32,
    pub mask_setting: u32,
}

impl RenderingAttributes {
    /// The state before any setting was made: all zero.
    pub open spec fn initial() -> RenderingAttributes {
        RenderingAttributes {
            texpage: 0,
            texture_window: 0,
            draw_area_top_left: 0,
            draw_area_bottom_right: 0,
            drawing_offset: 0,
            mask_setting: 0,
        }
    }

    /// This state after the attribute command `word`: the field that the
    /// sub-opcode names holds `word`, the others are as before. A sub-opcode
    /// that names no field changes nothing.
    pub open spec fn with_word(self, word: u32) -> RenderingAttributes {
        let subopcode = subopcode_bits(word);
        if subopcode == ATTR_TEXPAGE {
            RenderingAttributes { texpage: word, ..self }
        } else if subopcode == ATTR_TEXTURE_WINDOW {
            RenderingAttributes { texture_window: word, ..self }
        } else if subopcode == ATTR_DRAW_AREA_TOP_LEFT {
            RenderingAttributes { draw_area_top_left: word, ..self }
        } else if subopcode == ATTR_DRAW_AREA_BOTTOM_RIGHT {
            RenderingAttributes { draw_area_bottom_right: word, ..self }
        } else if subopcode == ATTR_DRAWING_OFFSET {
            RenderingAttributes { drawing_offset: word, ..self }
        } else if subopcode == ATTR_MASK_SETTING {
            RenderingAttributes { mask_setting: word, ..self }
        } else {
            self
        }
    }

    /// This state after the attribute commands `words`, first to last.
    pub open spec fn with_words(self, words: Seq<u32>) -> RenderingAttributes
        decreases words.len(),
    {
        if words.len() == 0 {
            self
        } else {
            self.with_words(words.drop_last()).with_word(words.last())
        }
    }

    /// Applies one attribute command.
    pub fn apply(&mut self, word: u32)
        ensures
            *final(self) == old(self).with_word(word),
    {
        let subopcode: u32 = (word >> 24) & 0b11111;
        if subopcode == ATTR_TEXPAGE {
            self.texpage = word;
        } else if subopcode == ATTR_TEXTURE_WINDOW {
            self.texture_window = word;
        } else if subopcode == ATTR_DRAW_AREA_TOP_LEFT {
            self.draw_area_top_left = word;
        } else if subopcode == ATTR_DRAW_AREA_BOTTOM_RIGHT {
            self.draw_area_bottom_right = word;
        } else if subopcode == ATTR_DRAWING_OFFSET {
            self.drawing_offset = word;
        } else if subopcode == ATTR_MASK_SETTING {
            self.mask_setting = word;
        }
    }
}

impl Default for RenderingAttributes {
    fn default() -> (r: RenderingAttributes)
        ensures
            r == RenderingAttributes::initial(),
    {
        RenderingAttributes {
            texpage: 0,
            texture_window: 0,
            draw_area_top_left: 0,
            draw_area_bottom_right: 0,
            drawing_offset: 0,
            mask_setting: 0,
        }
    }
}

/// Whether attribute commands are being collected or draws are going on.
#[derive(Clone, Copy, Debug, PartialEq, Eq, Structural)]
pub enum TrackerState {
    Drawing,
    RecordingAttributes,
}

/// What an attribute tracker stands for: its state, the snapshot it is
/// working on, and the snapshots committed so far, oldest first.
pub struct TrackerModel {
    pub state: TrackerState,
    pub working: RenderingAttributes,
    pub committed: Seq<RenderingAttributes>,
}

impl TrackerModel {
    /// Drawing, nothing committed, every setting zero.
    pub open spec fn initial() -> TrackerModel {
        TrackerModel {
            state: TrackerState::Drawing,
            working: RenderingAttributes::initial(),
            committed: Seq::empty(),
        }
    }

    /// What a run of attribute commands starts from: the snapshot committed
    /// last, or the initial one while none is committed.
    pub open spec fn seed(self) -> RenderingAttributes {
        if self.committed.len() > 0 {
            self.committed.last()
        } else {
            self.working
        }
    }

    /// The tracker after the attribute command `word`. The first one after a
    /// draw starts recording, from the seed; every one sets its field in the
    /// working snapshot.
    pub open spec fn record(self, word: u32) -> TrackerModel {
        let base = if self.state == TrackerState::Drawing {
            self.seed()
        } else {
            self.working
        };
        TrackerModel {
            state: TrackerState::RecordingAttributes,
            working: base.with_word(word),
            committed: self.committed,
        }
    }

    /// The tracker after the attribute commands `words`, first to last.
    pub open spec fn record_all(self, words: Seq<u32>) -> TrackerModel
        decreases words.len(),
    {
        if words.len() == 0 {
            self
        } else {
            self.record_all(words.drop_last()).record(words.last())
        }
    }

    /// Whether the next draw command commits the working snapshot: after
    /// attribute commands, and before the first commit.
    pub open spec fn commits_on_draw(self) -> bool {
        self.state == TrackerState::RecordingAttributes || self.committed.len() == 0
    }

    /// The tracker after a draw command.
    pub open spec fn draw(self) -> TrackerModel {
        if self.commits_on_draw() {
            TrackerModel {
                state: TrackerState::Drawing,
                working: self.working,
                committed: self.committed.push(self.working),
            }
        } else {
            self
        }
    }

    /// Index of the snapshot committed last.
    pub open spec fn current_index(self) -> int {
        self.committed.len() - 1
    }
}

/// Follows the attribute commands between draws and keeps the list of
/// snapshots that draws refer to.
pub struct AttributeTracker {
    state: TrackerState,
    working: RenderingAttributes,
    committed: Vec<RenderingAttributes>,
}

impl View for AttributeTracker {
    type V = TrackerModel;

    closed spec fn view(&self) -> TrackerModel {
        TrackerModel { state: self.state, working: self.working, committed: self.committed@ }
    }
}

impl AttributeTracker {
    /// A tracker at the start of a stream.
    pub fn new() -> (t: AttributeTracker)
        ensures
            t@ == TrackerModel::initial(),
    {
        AttributeTracker {
            state: TrackerState::Drawing,
            working: RenderingAttributes::default(),
            committed: Vec::new(),
        }
    }

    /// Whether draws are going on or attribute commands are being collected.
    pub fn state(&self) -> (s: TrackerState)
        ensures
            s == self@.state,
    {
        self.state
    }

    /// The snapshot that attribute commands currently write to.
    pub fn working(&self) -> (w: RenderingAttributes)
        ensures
            w == self@.working,
    {
        self.working
    }

    /// Number of snapshots committed so far.
    pub fn committed_count(&self) -> (n: usize)
        ensures
            n == self@.committed.len(),
    {
        self.committed.len()
    }

    /// Takes in one attribute command.
    pub fn record(&mut self, word: u32)
        ensures
            final(self)@ == old(self)@.record(word),
    {
        if self.state == TrackerState::Drawing {
            let count = self.committed.len();
            if count > 0 {
                self.working = self.committed[count - 1];
            }
            self.state = TrackerState::RecordingAttributes;
        }
        self.working.apply(word);
    }

    /// Takes in one draw command and returns the index of the snapshot that
    /// the draw is to be stamped with: a snapshot committed right now if
    /// attribute commands came since the last draw or none was committed yet,
    /// else the one committed last.
    pub fn begin_draw(&mut self) -> (index: usize)
        ensures
            final(self)@ == old(self)@.draw(),
            index == final(self)@.current_index(),
            final(self)@.committed.len() > 0,
    {
        if self.state == TrackerState::RecordingAttributes || self.committed.len() == 0 {
            self.state = TrackerState::Drawing;
            self.committed.push(self.working);
        }
        self.committed.len() - 1
    }

    /// Ends the stream and hands out the committed snapshots, oldest first.
    pub fn into_snapshots(self) -> (snapshots: Vec<RenderingAttributes>)
        ensures
            snapshots@ == self@.committed,
    {
        self.committed
    }
}

/// A run of attribute commands leaves the committed snapshots alone. After at
/// least one command the tracker is recording, and its working snapshot is
/// what the run makes of the snapshot it started from.
pub proof fn lemma_record_all(t: TrackerModel, words: Seq<u32>)
    ensures
        t.record_all(words).committed == t.committed,
        words.len() > 0 ==> t.record_all(words).state == TrackerState::RecordingAttributes,
        words.len() > 0 && t.state == TrackerState::Drawing ==> t.record_all(words).working
            == t.seed().with_words(words),
        words.len() > 0 && t.state == TrackerState::RecordingAttributes ==> t.record_all(
            words,
        ).working == t.working.with_words(words),
    decreases words.len(),
{
    if words.len() > 0 {
        lemma_record_all(t, words.drop_last());
        if words.len() == 1 {
            assert(t.seed().with_words(words.drop_last()) == t.seed());
            assert(t.working.with_words(words.drop_last()) == t.working);
        }
    }
}

/// Attribute commands between two draws commit exactly one new snapshot. The
/// earlier snapshots stay where they were, so the first draw's index still
/// names what it named; the second draw's index is one higher and names the
/// snapshot that the commands make of the first draw's.
pub proof fn lemma_attributes_between_draws(t: TrackerModel, words: Seq<u32>)
    requires
        words.len() > 0,
    ensures
        ({
            let first = t.draw();
            let second = first.record_all(words).draw();
            let index = first.current_index();
            &&& 0 <= index < first.committed.len()
            &&& second.committed.len() == first.committed.len() + 1
            &&& second.committed.take(first.committed.len() as int) == first.committed
            &&& second.current_index() == index + 1
            &&& second.committed[index + 1] == first.committed[index].with_words(words)
            &&& second.state == TrackerState::Drawing
        }),
{
    lemma_record_all(t.draw(), words);
}

/// Draws that follow one another without attribute commands in between share
/// one snapshot: the second draw commits nothing.
pub proof fn lemma_draws_share_snapshot(t: TrackerModel)
    ensures
        t.draw().draw() == t.draw(),
        t.draw().current_index() >= 0,
{
}

} // verus!
