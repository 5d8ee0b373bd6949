//! Geometry: fill rectangles and polygons, built from a header word and the
//! parameter words behind it.

use crate::error::DecodeErrorKind;
use crate::reader::CommandReader;
use vstd::prelude::*;

verus! {

/// Header bit 25: the polygon is semi-transparent.
pub const SEMI_TRANSPARENT_BIT: u32 = 0x0200_0000;

/// Header bit 26: a texture-coordinate word follows each position word.
pub const TEXTURED_BIT: u32 = 0x0400_0000;

/// Header bit 27: the polygon has four vertices, not three.
pub const QUAD_BIT: u32 = 0x0800_0000;

/// Header bit 28: every vertex after the first brings its own colour word.
pub const GOURAUD_BIT: u32 = 0x1000_0000;

/// Parameter words of a fill-rectangle command: position, then size.
pub const FILL_RECT_PARAMS: usize = 2;

pub open spec fn is_semi_transparent(word: u32) -> bool {
    word & SEMI_TRANSPARENT_BIT != 0
}

pub open spec fn is_textured(word: u32) -> bool {
    word & TEXTURED_BIT != 0
}

pub open spec fn is_quad(word: u32) -> bool {
    word & QUAD_BIT != 0
}

pub open spec fn is_gouraud(word: u32) -> bool {
    word & GOURAUD_BIT != 0
}

/// Bits 0..=15 of a word.
pub open spec fn low_half(word: u32) -> u32 {
    word & 0xffff
}

/// Bits 16..=31 of a word, moved down.
pub open spec fn high_half(word: u32) -> u32 {
    (word >> 16) & 0xffff
}

/// A 16-bit pattern read as a two's-complement number.
pub open spec fn signed16(half: int) -> int {
    if half >= 0x8000 {
        half - 0x1_0000
    } else {
        half
    }
}

/// Shape and shading of a polygon, as its header word states them.
#[derive(Clone, Copy, Debug, PartialEq, Eq, Structural)]
pub struct PolyFlags {
    pub semi_transparent: bool,
    pub textured: bool,
    pub quad: bool,
    pub gouraud: bool,
}

impl PolyFlags {
    pub open spec fn of(word: u32) -> PolyFlags {
        PolyFlags {
            semi_transparent: is_semi_transparent(word),
            textured: is_textured(word),
            quad: is_quad(word),
            gouraud: is_gouraud(word),
        }
    }

    /// Reads the four flags off a polygon header.
    pub fn decode(word: u32) -> (f: PolyFlags)
        ensures
            f == PolyFlags::of(word),
    {
        PolyFlags {
            semi_transparent: (word & SEMI_TRANSPARENT_BIT) != 0,
            textured: (word & TEXTURED_BIT) != 0,
            quad: (word & QUAD_BIT) != 0,
            gouraud: (word & GOURAUD_BIT) != 0,
        }
    }

    pub open spec fn spec_vertex_count(self) -> int {
        if self.quad {
            4
        } else {
            3
        }
    }

    /// Where, among the parameter words, the words of vertex `i` begin. The
    /// first vertex has a position word and, if textured, a texture word;
    /// each later one has, if gouraud-shaded, a colour word before those.
    pub open spec fn spec_vertex_offset(self, i: int) -> int {
        (if self.textured {
            2 * i
        } else {
            i
        }) + (if self.gouraud && i > 0 {
            i - 1
        } else {
            0
        })
    }

    /// Number of parameter words that follow the header.
    pub open spec fn spec_param_count(self) -> int {
        self.spec_vertex_offset(self.spec_vertex_count())
    }

    /// Three or four.
    pub fn vertex_count(&self) -> (n: usize)
        ensures
            n == self.spec_vertex_count(),
    {
        if self.quad {
            4
        } else {
            3
        }
    }

    /// Offset of the first word of vertex `i` among the parameter words.
    pub fn vertex_offset(&self, i: usize) -> (at: usize)
        requires
            i <= 4,
        ensures
            at == self.spec_vertex_offset(i as int),
    {
        let words: usize = if self.textured {
            2 * i
        } else {
            i
        };
        if self.gouraud && i > 0 {
            words + (i - 1)
        } else {
            words
        }
    }

    /// Number of parameter words that follow the header: between 3 and 11.
    pub fn param_count(&self) -> (n: usize)
        ensures
            n == self.spec_param_count(),
            3 <= n <= 11,
    {
        self.vertex_offset(self.vertex_count())
    }
}

/// Number of parameter words that follow the polygon header `word`.
pub open spec fn poly_param_count(word: u32) -> int {
    PolyFlags::of(word).spec_param_count()
}

/// One corner of a triangle, as the three words that describe it.
#[derive(Clone, Copy, Debug, PartialEq, Eq, Structural)]
pub struct Vertex {
    /// Packed position: x in the low half, y in the high half, each a signed
    /// 16-bit number.
    pub position: u32,
    /// Packed texture coordinate: u in the lowest byte, v in the next. Zero
    /// for an untextured polygon.
    pub uv: u32,
    /// Packed colour: the vertex's own colour word where the polygon is
    /// gouraud-shaded and the vertex is not the first, else the header word.
    pub color: u32,
}

impl Vertex {
    pub open spec fn spec_x(self) -> int {
        signed16(low_half(self.position) as int)
    }

    pub open spec fn spec_y(self) -> int {
        signed16(high_half(self.position) as int)
    }

    pub open spec fn spec_u(self) -> int {
        (self.uv & 0xff) as int
    }

    pub open spec fn spec_v(self) -> int {
        ((self.uv >> 8) & 0xff) as int
    }

    /// Horizontal position.
    pub fn x(&self) -> (r: i16)
        ensures
            r == self.spec_x(),
    {
        proof {
            lemma_fields_bounded(self.position);
        }
        half_to_signed(self.position & 0xffff)
    }

    /// Vertical position.
    pub fn y(&self) -> (r: i16)
        ensures
            r == self.spec_y(),
    {
        proof {
            lemma_fields_bounded(self.position);
        }
        half_to_signed((self.position >> 16) & 0xffff)
    }

    /// Horizontal texture coordinate.
    pub fn u(&self) -> (r: u8)
        ensures
            r == self.spec_u(),
    {
        proof {
            lemma_fields_bounded(self.uv);
        }
        (self.uv & 0xff) as u8
    }

    /// Vertical texture coordinate.
    pub fn v(&self) -> (r: u8)
        ensures
            r == self.spec_v(),
    {
        proof {
            lemma_fields_bounded(self.uv);
        }
        ((self.uv >> 8) & 0xff) as u8
    }
}

/// The halves and the two low bytes of a word fit their widths.
pub proof fn lemma_fields_bounded(word: u32)
    ensures
        low_half(word) <= 0xffff,
        high_half(word) <= 0xffff,
        word & 0xff <= 0xff,
        (word >> 8) & 0xff <= 0xff,
{
    assert(word & 0xffff <= 0xffff && (word >> 16) & 0xffff <= 0xffff && word & 0xff <= 0xff && (
    word >> 8) & 0xff <= 0xff) by (bit_vector);
}

/// The halves and the two low bytes of a word, in plain arithmetic.
pub proof fn lemma_fields_as_quotients(word: u32)
    ensures
        low_half(word) == word % 0x1_0000,
        high_half(word) == word / 0x1_0000,
        word & 0xff == word % 0x100,
        (word >> 8) & 0xff == word / 0x100 % 0x100,
{
    assert(word & 0xffff == word % 0x1_0000 && (word >> 16) & 0xffff == word / 0x1_0000 && word
        & 0xff == word % 0x100 && (word >> 8) & 0xff == word / 0x100 % 0x100) by (bit_vector);
}

/// The four polygon flags, in plain arithmetic: a flag is set where the
/// quotient by its bit's value is odd.
pub proof fn lemma_flags_as_quotients(word: u32)
    ensures
        is_semi_transparent(word) == (word / SEMI_TRANSPARENT_BIT % 2 == 1),
        is_textured(word) == (word / TEXTURED_BIT % 2 == 1),
        is_quad(word) == (word / QUAD_BIT % 2 == 1),
        is_gouraud(word) == (word / GOURAUD_BIT % 2 == 1),
{
    assert((word & 0x0200_0000 != 0) == (word / 0x0200_0000 % 2 == 1) && (word & 0x0400_0000 != 0)
        == (word / 0x0400_0000 % 2 == 1) && (word & 0x0800_0000 != 0) == (word / 0x0800_0000 % 2
        == 1) && (word & 0x1000_0000 != 0) == (word / 0x1000_0000 % 2 == 1)) by (bit_vector);
}

/// Reads a 16-bit pattern as a two's-complement number.
fn half_to_signed(half: u32) -> (r: i16)
    requires
        half <= 0xffff,
    ensures
        r == signed16(half as int),
{
    if half >= 0x8000 {
        let wide: i32 = half as i32 - 0x1_0000;
        wide as i16
    } else {
        half as i16
    }
}

/// A rectangle to fill with one colour.
#[derive(Clone, Copy, Debug, PartialEq, Eq, Structural)]
pub struct FillRectCommand {
    /// Draw order among all primitives of the stream, counted from 1.
    pub z_index: u32,
    /// The header word: packed colour below, command bits above.
    pub color: u32,
    /// Packed top-left corner.
    pub position: u32,
    /// Packed width and height.
    pub size: u32,
}

/// The record that a fill-rectangle header and its parameter words make.
pub open spec fn fill_rect_of(word: u32, params: Seq<u32>, z_index: u32) -> FillRectCommand {
    FillRectCommand { z_index, color: word, position: params[0], size: params[1] }
}

/// Reads the two parameter words of a fill-rectangle command whose header
/// `word` has been read already. With fewer than two words left it fails with
/// `BufferUnderrun` and reads nothing.
pub fn build_fill_rect_command(fifo: &mut CommandReader, word: u32, z_index: u32) -> (r: Result<
    FillRectCommand,
    DecodeErrorKind,
>)
    ensures
        final(fifo).words() == old(fifo).words(),
        final(fifo).position() <= final(fifo).words().len(),
        r == if old(fifo).pending().len() >= FILL_RECT_PARAMS {
            Ok::<FillRectCommand, DecodeErrorKind>(
                fill_rect_of(word, old(fifo).pending(), z_index),
            )
        } else {
            Err(DecodeErrorKind::BufferUnderrun)
        },
        final(fifo).position() == old(fifo).position() + (if r.is_ok() {
            FILL_RECT_PARAMS as nat
        } else {
            0nat
        }),
{
    match fifo.take_params(FILL_RECT_PARAMS) {
        Ok(params) => Ok(
            FillRectCommand { z_index, color: word, position: params[0], size: params[1] },
        ),
        Err(kind) => Err(kind),
    }
}

/// Where a textured polygon finds its palette in video memory.
#[derive(Clone, Copy, Debug, PartialEq, Eq, Structural)]
pub struct ClutPosition {
    pub x: u16,
    pub y: u16,
}

impl ClutPosition {
    /// Bits 0..=5 count steps of 16 across, bits 6..=14 count lines down.
    pub open spec fn of(half: u32) -> ClutPosition {
        ClutPosition { x: (((half & 0x3f) * 16) as u16), y: (((half >> 6) & 0x1ff) as u16) }
    }

    /// Unpacks a palette position from the high half of the first vertex's
    /// texture word.
    pub fn decode(half: u32) -> (c: ClutPosition)
        ensures
            c == ClutPosition::of(half),
            c.x == (half & 0x3f) * 16,
            c.x <= 1008,
            c.y == (half >> 6) & 0x1ff,
            c.y <= 511,
    {
        proof {
            lemma_tex_fields_bounded(half);
        }
        ClutPosition { x: ((half & 0x3f) * 16) as u16, y: ((half >> 6) & 0x1ff) as u16 }
    }
}

/// The texture page of a textured polygon.
#[derive(Clone, Copy, Debug, PartialEq, Eq, Structural)]
pub struct TexPage {
    pub base_x: u16,
    pub base_y: u16,
    pub transparency_mode: u8,
    pub color_mode: u8,
    pub texture_disable: bool,
}

impl TexPage {
    /// Bits 0..=3 count steps of 64 across, bit 4 steps of 256 down; bits
    /// 5..=6 are the transparency mode, bits 7..=8 the colour mode, bit 11
    /// switches texturing off.
    pub open spec fn of(half: u32) -> TexPage {
        TexPage {
            base_x: (((half & 0xf) * 64) as u16),
            base_y: ((((half >> 4) & 1) * 256) as u16),
            transparency_mode: (((half >> 5) & 3) as u8),
            color_mode: (((half >> 7) & 3) as u8),
            texture_disable: (half >> 11) & 1 != 0,
        }
    }

    /// Unpacks a texture page from the high half of the second vertex's
    /// texture word.
    pub fn decode(half: u32) -> (t: TexPage)
        ensures
            t == TexPage::of(half),
            t.base_x == (half & 0xf) * 64,
            t.base_x <= 960,
            t.base_y == ((half >> 4) & 1) * 256,
            t.base_y <= 256,
            t.transparency_mode == (half >> 5) & 3,
            t.color_mode == (half >> 7) & 3,
    {
        proof {
            lemma_tex_fields_bounded(half);
        }
        TexPage {
            base_x: ((half & 0xf) * 64) as u16,
            base_y: (((half >> 4) & 1) * 256) as u16,
            transparency_mode: ((half >> 5) & 3) as u8,
            color_mode: ((half >> 7) & 3) as u8,
            texture_disable: ((half >> 11) & 1) != 0,
        }
    }
}

/// The packed palette and texture-page fields fit their widths.
pub proof fn lemma_tex_fields_bounded(half: u32)
    ensures
        half & 0x3f <= 0x3f,
        (half >> 6) & 0x1ff <= 0x1ff,
        half & 0xf <= 0xf,
        (half >> 4) & 1 <= 1,
        (half >> 5) & 3 <= 3,
        (half >> 7) & 3 <= 3,
{
    assert(half & 0x3f <= 0x3f && (half >> 6) & 0x1ff <= 0x1ff && half & 0xf <= 0xf && (half >> 4)
        & 1 <= 1 && (half >> 5) & 3 <= 3 && (half >> 7) & 3 <= 3) by (bit_vector);
}

/// The palette and texture-page fields, in plain arithmetic.
pub proof fn lemma_tex_fields_as_quotients(half: u32)
    ensures
        ClutPosition::of(half).x == half % 64 * 16,
        ClutPosition::of(half).y == half / 64 % 512,
        TexPage::of(half).base_x == half % 16 * 64,
        TexPage::of(half).base_y == half / 16 % 2 * 256,
        TexPage::of(half).transparency_mode == half / 32 % 4,
        TexPage::of(half).color_mode == half / 128 % 4,
        TexPage::of(half).texture_disable == (half / 2048 % 2 == 1),
{
    assert(half & 0x3f == half % 64 && (half >> 6) & 0x1ff == half / 64 % 512 && half & 0xf == half
        % 16 && (half >> 4) & 1 == half / 16 % 2 && (half >> 5) & 3 == half / 32 % 4 && (half >> 7)
        & 3 == half / 128 % 4 && ((half >> 11) & 1 != 0) == (half / 2048 % 2 == 1))
        by (bit_vector);
}

/// Palette position of the first vertex in the low half, texture page of the
/// second vertex in the high half.
pub open spec fn tex_info_of(uv0: u32, uv1: u32) -> u32 {
    high_half(uv0) | (high_half(uv1) << 16)
}

/// Packing the two halves loses neither.
pub proof fn lemma_tex_info_halves(uv0: u32, uv1: u32)
    ensures
        low_half(tex_info_of(uv0, uv1)) == high_half(uv0),
        high_half(tex_info_of(uv0, uv1)) == high_half(uv1),
{
    assert((((uv0 >> 16) & 0xffff) | (((uv1 >> 16) & 0xffff) << 16)) & 0xffff == (uv0 >> 16)
        & 0xffff && ((((uv0 >> 16) & 0xffff) | (((uv1 >> 16) & 0xffff) << 16)) >> 16) & 0xffff == (
    uv1 >> 16) & 0xffff) by (bit_vector);
}

/// A triangle ready to be drawn. A four-vertex polygon becomes two of these.
#[derive(Clone, Copy, Debug, PartialEq, Eq)]
pub struct RenderPolyCommand {
    /// Draw order among all primitives of the stream, counted from 1.
    pub z_index: u32,
    /// Index of the attribute snapshot that was live when this was drawn.
    pub attribute_index: u32,
    /// The header word: packed colour below, command bits above.
    pub color: u32,
    /// Palette position in the low half, texture page in the high half.
    pub tex_info: u32,
    /// The corners, in the order in which the stream gave them.
    pub vertices: [Vertex; 3],
}

impl RenderPolyCommand {
    /// Whether the header asked for semi-transparency.
    pub fn is_semi_transparent(&self) -> (b: bool)
        ensures
            b == is_semi_transparent(self.color),
    {
        (self.color & SEMI_TRANSPARENT_BIT) != 0
    }

    /// Palette position, from the low half of `tex_info`.
    pub fn clut(&self) -> (c: ClutPosition)
        ensures
            c == ClutPosition::of(low_half(self.tex_info)),
    {
        ClutPosition::decode(self.tex_info & 0xffff)
    }

    /// Texture page, from the high half of `tex_info`.
    pub fn texpage(&self) -> (t: TexPage)
        ensures
            t == TexPage::of(high_half(self.tex_info)),
    {
        TexPage::decode((self.tex_info >> 16) & 0xffff)
    }
}

/// Vertex `i` of the polygon with header `word` and parameter words `params`.
/// Its words come in the order colour, position, texture coordinate, and only
/// the position is always there.
pub open spec fn vertex_at(word: u32, params: Seq<u32>, i: int) -> Vertex {
    let flags = PolyFlags::of(word);
    let base = flags.spec_vertex_offset(i);
    let own_color = flags.gouraud && i > 0;
    let at = if own_color {
        base + 1
    } else {
        base
    };
    Vertex {
        position: params[at],
        uv: if flags.textured {
            params[at + 1]
        } else {
            0
        },
        color: if own_color {
            params[base]
        } else {
            word
        },
    }
}

/// The triangle over vertices `first`, `first + 1`, `first + 2` of a polygon.
pub open spec fn triangle_of(
    word: u32,
    params: Seq<u32>,
    first: int,
    z_index: u32,
    attribute_index: u32,
) -> RenderPolyCommand {
    RenderPolyCommand {
        z_index,
        attribute_index,
        color: word,
        tex_info: tex_info_of(vertex_at(word, params, 0).uv, vertex_at(word, params, 1).uv),
        vertices: [
            vertex_at(word, params, first),
            vertex_at(word, params, first + 1),
            vertex_at(word, params, first + 2),
        ],
    }
}

/// The records of one polygon command: one triangle, or for a quad the
/// triangle over vertices 0, 1, 2 and then the one over 1, 2, 3, which takes
/// the next z-index.
pub open spec fn poly_records(
    word: u32,
    params: Seq<u32>,
    z_index: u32,
    attribute_index: u32,
) -> Seq<RenderPolyCommand> {
    let first = triangle_of(word, params, 0, z_index, attribute_index);
    if is_quad(word) {
        seq![first, triangle_of(word, params, 1, (z_index + 1) as u32, attribute_index)]
    } else {
        seq![first]
    }
}

/// Reads the parameter words of a polygon command whose header `word` has
/// been read already, and builds its one or two triangles. Where fewer words
/// remain than the header calls for it fails with `BufferUnderrun` and reads
/// nothing.
pub fn build_render_poly_command(
    fifo: &mut CommandReader,
    word: u32,
    z_index: u32,
    attribute_index: u32,
) -> (r: Result<Vec<RenderPolyCommand>, DecodeErrorKind>)
    requires
        is_quad(word) ==> z_index < u32::MAX,
    ensures
        final(fifo).words() == old(fifo).words(),
        final(fifo).position() <= final(fifo).words().len(),
        match r {
            Ok(commands) => {
                &&& old(fifo).pending().len() >= poly_param_count(word)
                &&& commands@ == poly_records(
                    word,
                    old(fifo).pending().take(poly_param_count(word)),
                    z_index,
                    attribute_index,
                )
                &&& final(fifo).position() == old(fifo).position() + poly_param_count(word)
            },
            Err(kind) => {
                &&& old(fifo).pending().len() < poly_param_count(word)
                &&& kind == DecodeErrorKind::BufferUnderrun
                &&& final(fifo).position() == old(fifo).position()
            },
        },
{
    let flags = PolyFlags::decode(word);
    let num_vertices = flags.vertex_count();
    let params = match fifo.take_params(flags.param_count()) {
        Ok(params) => params,
        Err(kind) => {
            return Err(kind);
        },
    };
    let mut vertices: [Vertex; 4] = [Vertex { position: 0, uv: 0, color: word }; 4];

    // Walk the parameter words once, vertex by vertex: colour, position,
    // texture coordinate, as far as each is there.
    let mut next: usize = 0;
    let mut i: usize = 0;
    while i < num_vertices
        invariant
            flags == PolyFlags::of(word),
            num_vertices == flags.spec_vertex_count(),
            params@.len() == flags.spec_param_count(),
            i <= num_vertices,
            next == flags.spec_vertex_offset(i as int),
            forall|k: int| 0 <= k < i ==> #[trigger] vertices[k] == vertex_at(word, params@, k),
        decreases num_vertices - i,
    {
        let mut vertex = Vertex { position: 0, uv: 0, color: word };
        if flags.gouraud && i > 0 {
            vertex.color = params[next];
            next = next + 1;
        }
        vertex.position = params[next];
        next = next + 1;
        if flags.textured {
            vertex.uv = params[next];
            next = next + 1;
        }
        vertices[i] = vertex;
        i = i + 1;
    }

    let clut: u32 = (vertices[0].uv >> 16) & 0xffff;
    let tpage: u32 = (vertices[1].uv >> 16) & 0xffff;
    let tex_info: u32 = clut | (tpage << 16);

    let mut commands: Vec<RenderPolyCommand> = Vec::new();
    commands.push(
        RenderPolyCommand {
            z_index,
            attribute_index,
            color: word,
            tex_info,
            vertices: [vertices[0], vertices[1], vertices[2]],
        },
    );
    if num_vertices == 4 {
        commands.push(
            RenderPolyCommand {
                z_index: z_index + 1,
                attribute_index,
                color: word,
                tex_info,
                vertices: [vertices[1], vertices[2], vertices[3]],
            },
        );
    }
    Ok(commands)
}

/// A quad always gives two triangles. The second repeats the first's second
/// and third vertices, in that order, and ends with the quad's fourth; it has
/// the next z-index and the same header word, attribute index and texture
/// information.
pub proof fn lemma_quad_splits_in_two(
    word: u32,
    params: Seq<u32>,
    z_index: u32,
    attribute_index: u32,
)
    requires
        is_quad(word),
        z_index < u32::MAX,
    ensures
        poly_records(word, params, z_index, attribute_index).len() == 2,
        ({
            let records = poly_records(word, params, z_index, attribute_index);
            &&& records[1].vertices[0] == records[0].vertices[1]
            &&& records[1].vertices[1] == records[0].vertices[2]
            &&& records[1].vertices[2] == vertex_at(word, params, 3)
            &&& records[0].z_index == z_index
            &&& records[1].z_index == z_index + 1
            &&& records[1].attribute_index == records[0].attribute_index
            &&& records[1].color == records[0].color
            &&& records[1].tex_info == records[0].tex_info
        }),
{
}

/// A three-vertex polygon gives one triangle, over its vertices in order.
pub proof fn lemma_triangle_stays_whole(
    word: u32,
    params: Seq<u32>,
    z_index: u32,
    attribute_index: u32,
)
    requires
        !is_quad(word),
    ensures
        poly_records(word, params, z_index, attribute_index).len() == 1,
        ({
            let record = poly_records(word, params, z_index, attribute_index)[0];
            &&& record.vertices[0] == vertex_at(word, params, 0)
            &&& record.vertices[1] == vertex_at(word, params, 1)
            &&& record.vertices[2] == vertex_at(word, params, 2)
            &&& record.z_index == z_index
            &&& record.attribute_index == attribute_index
            &&& record.color == word
        }),
{
}

} // verus!
