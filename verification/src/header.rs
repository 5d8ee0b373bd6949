//! The header of a command: category and sub-opcode, taken from the top
//! eight bits of its first word.

use crate::error::DecodeErrorKind;
use vstd::prelude::*;

verus! {

/// The category field of a command word: bits 29..=31.
pub open spec fn category_bits(word: u32) -> u32 {
    (word >> 29) & 0b111
}

/// The sub-opcode field of a command word: bits 24..=28.
pub open spec fn subopcode_bits(word: u32) -> u32 {
    (word >> 24) & 0b11111
}

/// Both header fields fit their widths.
pub proof fn lemma_header_fields_bounded(word: u32)
    ensures
        category_bits(word) <= 7,
        subopcode_bits(word) <= 31,
{
    assert((word >> 29) & 0b111 <= 7 && (word >> 24) & 0b11111 <= 31) by (bit_vector);
}

/// Both header fields, in plain arithmetic: the category is the quotient by
/// 2^29, the sub-opcode the quotient by 2^24 taken modulo 32.
pub proof fn lemma_header_fields_as_quotients(word: u32)
    ensures
        category_bits(word) == word / 0x2000_0000,
        subopcode_bits(word) == word / 0x0100_0000 % 32,
{
    assert((word >> 29) & 0b111 == word / 0x2000_0000 && (word >> 24) & 0b11111 == word
        / 0x0100_0000 % 32) by (bit_vector);
}

/// The eight command categories, in the order of their field values.
#[derive(Clone, Copy, Debug, PartialEq, Eq, Structural)]
pub enum GP0CommandType {
    Transfer,
    RenderPoly,
    RenderLine,
    RenderRect,
    CopyVramToVram,
    CopyCpuToVram,
    CopyVramToCpu,
    RenderingAttribute,
}

impl GP0CommandType {
    /// The category with field value `v`, if there is one.
    pub open spec fn of_bits(v: int) -> Option<GP0CommandType> {
        if v == 0 {
            Some(GP0CommandType::Transfer)
        } else if v == 1 {
            Some(GP0CommandType::RenderPoly)
        } else if v == 2 {
            Some(GP0CommandType::RenderLine)
        } else if v == 3 {
            Some(GP0CommandType::RenderRect)
        } else if v == 4 {
            Some(GP0CommandType::CopyVramToVram)
        } else if v == 5 {
            Some(GP0CommandType::CopyCpuToVram)
        } else if v == 6 {
            Some(GP0CommandType::CopyVramToCpu)
        } else if v == 7 {
            Some(GP0CommandType::RenderingAttribute)
        } else {
            None
        }
    }

    /// The field value of a category.
    pub open spec fn bits(self) -> int {
        match self {
            GP0CommandType::Transfer => 0,
            GP0CommandType::RenderPoly => 1,
            GP0CommandType::RenderLine => 2,
            GP0CommandType::RenderRect => 3,
            GP0CommandType::CopyVramToVram => 4,
            GP0CommandType::CopyCpuToVram => 5,
            GP0CommandType::CopyVramToCpu => 6,
            GP0CommandType::RenderingAttribute => 7,
        }
    }

    /// The category of a value that came out of the three-bit field.
    pub fn from_field(v: u32) -> (c: GP0CommandType)
        requires
            v <= 7,
        ensures
            GP0CommandType::of_bits(v as int) == Some(c),
    {
        match v {
            0 => GP0CommandType::Transfer,
            1 => GP0CommandType::RenderPoly,
            2 => GP0CommandType::RenderLine,
            3 => GP0CommandType::RenderRect,
            4 => GP0CommandType::CopyVramToVram,
            5 => GP0CommandType::CopyCpuToVram,
            6 => GP0CommandType::CopyVramToCpu,
            _ => GP0CommandType::RenderingAttribute,
        }
    }

    /// Maps any value to its category. A value above 7 cannot come out of a
    /// three-bit field and is reported as a malformed stream.
    pub fn from_bits(v: u32) -> (r: Result<GP0CommandType, DecodeErrorKind>)
        ensures
            r == match GP0CommandType::of_bits(v as int) {
                Some(c) => Ok::<GP0CommandType, DecodeErrorKind>(c),
                None => Err(DecodeErrorKind::MalformedStream),
            },
    {
        if v <= 7 {
            Ok(GP0CommandType::from_field(v))
        } else {
            Err(DecodeErrorKind::MalformedStream)
        }
    }

    /// The field value of this category.
    pub fn to_bits(self) -> (v: u8)
        ensures
            v == self.bits(),
            GP0CommandType::of_bits(v as int) == Some(self),
    {
        match self {
            GP0CommandType::Transfer => 0,
            GP0CommandType::RenderPoly => 1,
            GP0CommandType::RenderLine => 2,
            GP0CommandType::RenderRect => 3,
            GP0CommandType::CopyVramToVram => 4,
            GP0CommandType::CopyCpuToVram => 5,
            GP0CommandType::CopyVramToCpu => 6,
            GP0CommandType::RenderingAttribute => 7,
        }
    }
}

/// What the leading word of a command says about it.
#[derive(Clone, Copy, Debug, PartialEq, Eq, Structural)]
pub struct CommandHeader {
    pub category: GP0CommandType,
    pub subopcode: u8,
}

/// The header that `word` encodes.
pub open spec fn header_of(word: u32) -> CommandHeader {
    CommandHeader {
        category: GP0CommandType::of_bits(category_bits(word) as int).unwrap(),
        subopcode: subopcode_bits(word) as u8,
    }
}

/// Splits a command word into category and sub-opcode. Every word has a
/// header: the category field is three bits wide and all eight values are
/// categories.
pub fn decode_header(word: u32) -> (h: CommandHeader)
    ensures
        h == header_of(word),
        h.category.bits() == category_bits(word),
        h.subopcode == subopcode_bits(word),
{
    proof {
        lemma_header_fields_bounded(word);
    }
    let subopcode: u32 = (word >> 24) & 0b11111;
    let category = GP0CommandType::from_field((word >> 29) & 0b111);
    CommandHeader { category, subopcode: subopcode as u8 }
}

} // verus!
