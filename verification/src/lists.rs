//! The output in packed form: four byte buffers, each with a record count
//! and a stride.

use crate::attributes::RenderingAttributes;
use crate::decoder::{decode_commands, decode_spec, DecodedCommands, DecodedView};
use crate::error::{DecodeError, DecodeErrorKind};
use crate::geometry::{FillRectCommand, RenderPolyCommand};
use crate::packing::{
    lemma_pack_seq_inverts_unpack, packed_seq, stride_of, u8_vec, unpacked_seq, Record,
};
use vstd::arithmetic::div_mod::lemma_fundamental_div_mod_converse;
use vstd::prelude::*;

verus! {

/// The four output lists in packed form: each a byte buffer that holds its
/// records one after the other, every record one stride long, every field a
/// little-endian word.
#[derive(Debug)]
pub struct GP0CommandLists {
    fill_rect_cmds: Vec<u8>,
    render_poly_cmds: Vec<u8>,
    render_transparent_poly_cmds: Vec<u8>,
    rendering_attributes: Vec<u8>,
}

impl View for GP0CommandLists {
    type V = DecodedView;

    /// The records that the four buffers hold.
    closed spec fn view(&self) -> DecodedView {
        DecodedView {
            fill_rects: unpacked_seq::<FillRectCommand>(self.fill_rect_cmds@),
            opaque_polys: unpacked_seq::<RenderPolyCommand>(self.render_poly_cmds@),
            transparent_polys: unpacked_seq::<RenderPolyCommand>(
                self.render_transparent_poly_cmds@,
            ),
            attributes: unpacked_seq::<RenderingAttributes>(self.rendering_attributes@),
        }
    }
}

impl GP0CommandLists {
    /// Every buffer holds a whole number of records.
    #[verifier::type_invariant]
    spec fn whole_records(self) -> bool {
        &&& self.fill_rect_cmds@.len() % 16 == 0
        &&& self.render_poly_cmds@.len() % 52 == 0
        &&& self.render_transparent_poly_cmds@.len() % 52 == 0
        &&& self.rendering_attributes@.len() % 24 == 0
    }

    /// Packs the four lists of a decode.
    pub fn assemble(decoded: &DecodedCommands) -> (lists: GP0CommandLists)
        ensures
            lists@ == decoded@,
    {
        let fill_rect_cmds = u8_vec(&decoded.fill_rects);
        let render_poly_cmds = u8_vec(&decoded.opaque_polys);
        let render_transparent_poly_cmds = u8_vec(&decoded.transparent_polys);
        let rendering_attributes = u8_vec(&decoded.attributes);
        proof {
            lemma_whole_records(
                fill_rect_cmds@.len(),
                decoded.fill_rects@.len(),
                stride_of::<FillRectCommand>(),
                16,
            );
            lemma_whole_records(
                render_poly_cmds@.len(),
                decoded.opaque_polys@.len(),
                stride_of::<RenderPolyCommand>(),
                52,
            );
            lemma_whole_records(
                render_transparent_poly_cmds@.len(),
                decoded.transparent_polys@.len(),
                stride_of::<RenderPolyCommand>(),
                52,
            );
            lemma_whole_records(
                rendering_attributes@.len(),
                decoded.attributes@.len(),
                stride_of::<RenderingAttributes>(),
                24,
            );
        }
        GP0CommandLists {
            fill_rect_cmds,
            render_poly_cmds,
            render_transparent_poly_cmds,
            rendering_attributes,
        }
    }

    /// Number of fill-rectangle records.
    pub fn fill_rect_cmd_count(&self) -> (n: usize)
        ensures
            n == self@.fill_rects.len(),
    {
        proof {
            use_type_invariant(self);
            let bytes = self.fill_rect_cmds@;
            lemma_pack_seq_inverts_unpack::<FillRectCommand>(bytes, (bytes.len() / 16) as nat);
        }
        self.fill_rect_cmds.len() / 16
    }

    /// Bytes in one fill-rectangle record: four words.
    pub fn fill_rect_cmd_size(&self) -> (n: usize)
        ensures
            n == stride_of::<FillRectCommand>(),
            n == 16,
    {
        FillRectCommand::stride()
    }

    /// The packed fill-rectangle records.
    pub fn fill_rect_cmds(&self) -> (bytes: &[u8])
        ensures
            bytes@ == packed_seq(self@.fill_rects),
            bytes@.len() == self@.fill_rects.len() * 16,
    {
        proof {
            use_type_invariant(self);
            let bytes = self.fill_rect_cmds@;
            lemma_pack_seq_inverts_unpack::<FillRectCommand>(bytes, (bytes.len() / 16) as nat);
        }
        self.fill_rect_cmds.as_slice()
    }

    /// Number of opaque triangles.
    pub fn render_poly_cmd_count(&self) -> (n: usize)
        ensures
            n == self@.opaque_polys.len(),
    {
        proof {
            use_type_invariant(self);
            let bytes = self.render_poly_cmds@;
            lemma_pack_seq_inverts_unpack::<RenderPolyCommand>(bytes, (bytes.len() / 52) as nat);
        }
        self.render_poly_cmds.len() / 52
    }

    /// Bytes in one triangle record: thirteen words.
    pub fn render_poly_cmd_size(&self) -> (n: usize)
        ensures
            n == stride_of::<RenderPolyCommand>(),
            n == 52,
    {
        RenderPolyCommand::stride()
    }

    /// The packed opaque triangles.
    pub fn render_poly_cmds(&self) -> (bytes: &[u8])
        ensures
            bytes@ == packed_seq(self@.opaque_polys),
            bytes@.len() == self@.opaque_polys.len() * 52,
    {
        proof {
            use_type_invariant(self);
            let bytes = self.render_poly_cmds@;
            lemma_pack_seq_inverts_unpack::<RenderPolyCommand>(bytes, (bytes.len() / 52) as nat);
        }
        self.render_poly_cmds.as_slice()
    }

    /// Number of semi-transparent triangles.
    pub fn render_transparent_poly_cmd_count(&self) -> (n: usize)
        ensures
            n == self@.transparent_polys.len(),
    {
        proof {
            use_type_invariant(self);
            let bytes = self.render_transparent_poly_cmds@;
            lemma_pack_seq_inverts_unpack::<RenderPolyCommand>(bytes, (bytes.len() / 52) as nat);
        }
        self.render_transparent_poly_cmds.len() / 52
    }

    /// Bytes in one triangle record: thirteen words.
    pub fn render_transparent_poly_cmd_size(&self) -> (n: usize)
        ensures
            n == stride_of::<RenderPolyCommand>(),
            n == 52,
    {
        RenderPolyCommand::stride()
    }

    /// The packed semi-transparent triangles.
    pub fn render_transparent_poly_cmds(&self) -> (bytes: &[u8])
        ensures
            bytes@ == packed_seq(self@.transparent_polys),
            bytes@.len() == self@.transparent_polys.len() * 52,
    {
        proof {
            use_type_invariant(self);
            let bytes = self.render_transparent_poly_cmds@;
            lemma_pack_seq_inverts_unpack::<RenderPolyCommand>(bytes, (bytes.len() / 52) as nat);
        }
        self.render_transparent_poly_cmds.as_slice()
    }

    /// Number of attribute snapshots.
    pub fn rendering_attributes_count(&self) -> (n: usize)
        ensures
            n == self@.attributes.len(),
    {
        proof {
            use_type_invariant(self);
            let bytes = self.rendering_attributes@;
            lemma_pack_seq_inverts_unpack::<RenderingAttributes>(bytes, (bytes.len() / 24) as nat);
        }
        self.rendering_attributes.len() / 24
    }

    /// Bytes in one attribute snapshot: six words.
    pub fn rendering_attributes_size(&self) -> (n: usize)
        ensures
            n == stride_of::<RenderingAttributes>(),
            n == 24,
    {
        RenderingAttributes::stride()
    }

    /// The packed attribute snapshots.
    pub fn rendering_attributes(&self) -> (bytes: &[u8])
        ensures
            bytes@ == packed_seq(self@.attributes),
            bytes@.len() == self@.attributes.len() * 24,
    {
        proof {
            use_type_invariant(self);
            let bytes = self.rendering_attributes@;
            lemma_pack_seq_inverts_unpack::<RenderingAttributes>(bytes, (bytes.len() / 24) as nat);
        }
        self.rendering_attributes.as_slice()
    }
}

/// A buffer of `count` records of `size` bytes each is a whole number of
/// records long.
proof fn lemma_whole_records(len: nat, count: nat, stride: nat, size: nat)
    requires
        len == count * stride,
        stride == size,
        size > 0,
    ensures
        len % size == 0,
        len / size == count,
{
    lemma_fundamental_div_mod_converse(len as int, size as int, count as int, 0);
}

/// Decodes a command stream and packs what it gives. `gpustat` is the GPU
/// status word at the time of the flush; the attribute state starts out all
/// zero whatever it holds.
pub fn build_gp0_command_lists(gpustat: u32, commands: &[u32]) -> (r: Result<
    GP0CommandLists,
    DecodeError,
>)
    requires
        commands@.len() <= u32::MAX,
    ensures
        match r {
            Ok(lists) => {
                &&& decode_spec(commands@) == Ok::<DecodedView, DecodeError>(lists@)
                &&& lists@.z_ordered()
                &&& lists@.partitioned()
                &&& lists@.attributed()
            },
            Err(e) => {
                &&& decode_spec(commands@) == Err::<DecodedView, DecodeError>(e)
                &&& e.kind == DecodeErrorKind::BufferUnderrun
                &&& e.word_index < commands@.len()
            },
        },
{
    match decode_commands(commands) {
        Ok(decoded) => Ok(GP0CommandLists::assemble(&decoded)),
        Err(e) => Err(e),
    }
}

} // verus!
