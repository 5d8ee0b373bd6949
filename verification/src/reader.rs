//! The cursor that the decode reads its words through.

use crate::error::DecodeErrorKind;
use crate::header::{decode_header, header_of, CommandHeader};
use vstd::prelude::*;
use vstd::slice::slice_subrange;

verus! {

/// A cursor over the command words: first in, first out. It never reads past
/// the words it was given.
pub struct CommandReader<'a> {
    words: &'a [u32],
    pos: usize,
}

impl<'a> CommandReader<'a> {
    #[verifier::type_invariant]
    spec fn in_bounds(self) -> bool {
        self.pos <= self.words@.len()
    }

    /// The whole input, read or not.
    pub closed spec fn words(self) -> Seq<u32> {
        self.words@
    }

    /// How many words have been read.
    pub closed spec fn position(self) -> nat {
        self.pos as nat
    }

    /// The words not read yet, next first.
    pub open spec fn pending(self) -> Seq<u32> {
        self.words().skip(self.position() as int)
    }

    /// A reader at the start of `words`.
    pub fn new(words: &'a [u32]) -> (r: Self)
        ensures
            r.words() == words@,
            r.position() == 0,
    {
        CommandReader { words, pos: 0 }
    }

    /// Number of words not read yet.
    pub fn remaining(&self) -> (n: usize)
        ensures
            n == self.words().len() - self.position(),
            n == self.pending().len(),
            self.position() <= self.words().len(),
    {
        proof {
            use_type_invariant(self);
        }
        self.words.len() - self.pos
    }

    /// Index of the next word in the input.
    pub fn word_index(&self) -> (i: usize)
        ensures
            i == self.position(),
            i <= self.words().len(),
    {
        proof {
            use_type_invariant(self);
        }
        self.pos
    }

    /// The header that the next word encodes, without reading it; `None` at
    /// the end of the input.
    pub fn peek_header(&self) -> (h: Option<CommandHeader>)
        ensures
            h == if self.pending().len() > 0 {
                Some(header_of(self.pending()[0]))
            } else {
                None
            },
    {
        proof {
            use_type_invariant(self);
        }
        if self.pos < self.words.len() {
            Some(decode_header(self.words[self.pos]))
        } else {
            None
        }
    }

    /// Reads one word. At the end of the input it fails with `BufferUnderrun`
    /// and the reader stays as it was.
    pub fn pop_word(&mut self) -> (r: Result<u32, DecodeErrorKind>)
        ensures
            final(self).words() == old(self).words(),
            final(self).position() <= final(self).words().len(),
            r == if old(self).pending().len() > 0 {
                Ok::<u32, DecodeErrorKind>(old(self).pending()[0])
            } else {
                Err(DecodeErrorKind::BufferUnderrun)
            },
            final(self).position() == old(self).position() + (if r.is_ok() {
                1nat
            } else {
                0nat
            }),
    {
        proof {
            use_type_invariant(&*self);
        }
        if self.pos < self.words.len() {
            let word = self.words[self.pos];
            self.pos = self.pos + 1;
            Ok(word)
        } else {
            Err(DecodeErrorKind::BufferUnderrun)
        }
    }

    /// Reads the next `count` words at once. Where fewer remain it fails with
    /// `BufferUnderrun` and the reader stays as it was.
    pub fn take_params(&mut self, count: usize) -> (r: Result<&'a [u32], DecodeErrorKind>)
        ensures
            final(self).words() == old(self).words(),
            final(self).position() <= final(self).words().len(),
            match r {
                Ok(params) => {
                    &&& count <= old(self).pending().len()
                    &&& params@ == old(self).pending().take(count as int)
                    &&& final(self).position() == old(self).position() + count
                },
                Err(kind) => {
                    &&& count > old(self).pending().len()
                    &&& kind == DecodeErrorKind::BufferUnderrun
                    &&& final(self).position() == old(self).position()
                },
            },
    {
        proof {
            use_type_invariant(&*self);
        }
        if count <= self.words.len() - self.pos {
            let start = self.pos;
            let params = slice_subrange(self.words, start, start + count);
            self.pos = start + count;
            Ok(params)
        } else {
            Err(DecodeErrorKind::BufferUnderrun)
        }
    }
}

} // verus!
