use gpu_commands::error::DecodeErrorKind;
use gpu_commands::geometry::{
    build_fill_rect_command, build_render_poly_command, ClutPosition, FillRectCommand, PolyFlags,
    RenderPolyCommand, TexPage, Vertex,
};
use gpu_commands::reader::CommandReader;

const FLAT_TRI: u32 = 0x2000_0000;
const SEMI: u32 = 0x0200_0000;
const TEXTURED: u32 = 0x0400_0000;
const QUAD: u32 = 0x0800_0000;
const GOURAUD: u32 = 0x1000_0000;

#[test]
fn fill_rect_takes_position_then_size() {
    let words = [0x0012_0034u32, 0x0056_0078, 0xDEAD_BEEF];
    let mut reader = CommandReader::new(&words);
    let record = build_fill_rect_command(&mut reader, 0x02AB_CDEF, 7);
    assert_eq!(
        record,
        Ok(FillRectCommand {
            z_index: 7,
            color: 0x02AB_CDEF,
            position: 0x0012_0034,
            size: 0x0056_0078,
        })
    );
    assert_eq!(reader.word_index(), 2);
    assert_eq!(reader.remaining(), 1);
}

#[test]
fn fill_rect_with_one_word_left_underruns_and_reads_nothing() {
    let words = [0x0012_0034u32];
    let mut reader = CommandReader::new(&words);
    assert_eq!(
        build_fill_rect_command(&mut reader, 0x0200_0000, 1),
        Err(DecodeErrorKind::BufferUnderrun)
    );
    assert_eq!(reader.remaining(), 1);
}

#[test]
fn fill_rect_with_no_word_left_underruns() {
    let words: [u32; 0] = [];
    let mut reader = CommandReader::new(&words);
    assert_eq!(
        build_fill_rect_command(&mut reader, 0x0200_0000, 1),
        Err(DecodeErrorKind::BufferUnderrun)
    );
}

#[test]
fn flags_read_the_four_header_bits() {
    assert_eq!(
        PolyFlags::decode(FLAT_TRI),
        PolyFlags { semi_transparent: false, textured: false, quad: false, gouraud: false }
    );
    assert_eq!(
        PolyFlags::decode(FLAT_TRI | SEMI),
        PolyFlags { semi_transparent: true, textured: false, quad: false, gouraud: false }
    );
    assert_eq!(
        PolyFlags::decode(FLAT_TRI | TEXTURED),
        PolyFlags { semi_transparent: false, textured: true, quad: false, gouraud: false }
    );
    assert_eq!(
        PolyFlags::decode(FLAT_TRI | QUAD),
        PolyFlags { semi_transparent: false, textured: false, quad: true, gouraud: false }
    );
    assert_eq!(
        PolyFlags::decode(FLAT_TRI | GOURAUD),
        PolyFlags { semi_transparent: false, textured: false, quad: false, gouraud: true }
    );
    assert_eq!(
        PolyFlags::decode(0x3EFF_FFFF),
        PolyFlags { semi_transparent: true, textured: true, quad: true, gouraud: true }
    );
    // The colour bits and bit 24 are no flags.
    assert_eq!(
        PolyFlags::decode(0x21FF_FFFF),
        PolyFlags { semi_transparent: false, textured: false, quad: false, gouraud: false }
    );
}

#[test]
fn parameter_counts_of_the_eight_shapes() {
    let count = |word: u32| PolyFlags::decode(word).param_count();
    assert_eq!(count(FLAT_TRI), 3);
    assert_eq!(count(FLAT_TRI | TEXTURED), 6);
    assert_eq!(count(FLAT_TRI | GOURAUD), 5);
    assert_eq!(count(FLAT_TRI | GOURAUD | TEXTURED), 8);
    assert_eq!(count(FLAT_TRI | QUAD), 4);
    assert_eq!(count(FLAT_TRI | QUAD | TEXTURED), 8);
    assert_eq!(count(FLAT_TRI | QUAD | GOURAUD), 7);
    assert_eq!(count(FLAT_TRI | QUAD | GOURAUD | TEXTURED), 11);
    // Transparency changes no length.
    assert_eq!(count(FLAT_TRI | SEMI), 3);
    assert_eq!(count(FLAT_TRI | SEMI | QUAD | GOURAUD | TEXTURED), 11);
}

#[test]
fn vertex_counts_and_offsets() {
    let flat = PolyFlags::decode(FLAT_TRI);
    assert_eq!(flat.vertex_count(), 3);
    assert_eq!(
        [flat.vertex_offset(0), flat.vertex_offset(1), flat.vertex_offset(2)],
        [0, 1, 2]
    );
    let full = PolyFlags::decode(FLAT_TRI | QUAD | GOURAUD | TEXTURED);
    assert_eq!(full.vertex_count(), 4);
    assert_eq!(
        [
            full.vertex_offset(0),
            full.vertex_offset(1),
            full.vertex_offset(2),
            full.vertex_offset(3),
            full.vertex_offset(4)
        ],
        [0, 2, 5, 8, 11]
    );
    let shaded = PolyFlags::decode(FLAT_TRI | GOURAUD);
    assert_eq!(
        [shaded.vertex_offset(0), shaded.vertex_offset(1), shaded.vertex_offset(2)],
        [0, 1, 3]
    );
    let textured = PolyFlags::decode(FLAT_TRI | TEXTURED);
    assert_eq!(
        [textured.vertex_offset(0), textured.vertex_offset(1), textured.vertex_offset(2)],
        [0, 2, 4]
    );
}

#[test]
fn flat_triangle_colours_every_vertex_with_the_header() {
    let header = 0x20FF_0000u32;
    let words = [0x0010_0010u32, 0x0020_0020, 0x0030_0030];
    let mut reader = CommandReader::new(&words);
    let records = build_render_poly_command(&mut reader, header, 1, 0).unwrap();
    assert_eq!(
        records,
        vec![RenderPolyCommand {
            z_index: 1,
            attribute_index: 0,
            color: header,
            tex_info: 0,
            vertices: [
                Vertex { position: 0x0010_0010, uv: 0, color: header },
                Vertex { position: 0x0020_0020, uv: 0, color: header },
                Vertex { position: 0x0030_0030, uv: 0, color: header },
            ],
        }]
    );
    assert_eq!(reader.remaining(), 0);
}

#[test]
fn gouraud_triangle_reads_a_colour_before_each_later_vertex() {
    let header = FLAT_TRI | GOURAUD | 0x0011_2233;
    let words = [0xAAAA_0001u32, 0x00C1_C1C1, 0xAAAA_0002, 0x00C2_C2C2, 0xAAAA_0003, 0x9999_9999];
    let mut reader = CommandReader::new(&words);
    let records = build_render_poly_command(&mut reader, header, 4, 2).unwrap();
    assert_eq!(
        records,
        vec![RenderPolyCommand {
            z_index: 4,
            attribute_index: 2,
            color: header,
            tex_info: 0,
            vertices: [
                Vertex { position: 0xAAAA_0001, uv: 0, color: header },
                Vertex { position: 0xAAAA_0002, uv: 0, color: 0x00C1_C1C1 },
                Vertex { position: 0xAAAA_0003, uv: 0, color: 0x00C2_C2C2 },
            ],
        }]
    );
    assert_eq!(reader.remaining(), 1);
}

#[test]
fn textured_triangle_reads_a_texture_word_after_each_position() {
    let header = FLAT_TRI | TEXTURED;
    let words = [0x0001_0001u32, 0x7FFF_1122, 0x0002_0002, 0x8A5B_3344, 0x0003_0003, 0xFFFF_5566];
    let mut reader = CommandReader::new(&words);
    let records = build_render_poly_command(&mut reader, header, 1, 0).unwrap();
    assert_eq!(records.len(), 1);
    let record = records[0];
    assert_eq!(
        record.vertices,
        [
            Vertex { position: 0x0001_0001, uv: 0x7FFF_1122, color: header },
            Vertex { position: 0x0002_0002, uv: 0x8A5B_3344, color: header },
            Vertex { position: 0x0003_0003, uv: 0xFFFF_5566, color: header },
        ]
    );
    // Palette from the first vertex below, texture page from the second above.
    assert_eq!(record.tex_info, 0x8A5B_7FFF);
    assert_eq!(record.vertices[0].u(), 0x22);
    assert_eq!(record.vertices[0].v(), 0x11);
    assert_eq!(record.vertices[2].u(), 0x66);
    assert_eq!(record.vertices[2].v(), 0x55);
}

#[test]
fn gouraud_textured_quad_splits_into_two_triangles() {
    let header = FLAT_TRI | QUAD | GOURAUD | TEXTURED | SEMI | 0x0000_00FF;
    let words = [
        0x0000_0000u32, // position 0
        0x0040_0000,    // texture 0
        0x0000_FF00,    // colour 1
        0x0000_0010,    // position 1
        0x0007_0010,    // texture 1
        0x00FF_0000,    // colour 2
        0x0010_0000,    // position 2
        0x0000_1000,    // texture 2
        0x00FF_FFFF,    // colour 3
        0x0010_0010,    // position 3
        0x0000_1010,    // texture 3
    ];
    let mut reader = CommandReader::new(&words);
    let records = build_render_poly_command(&mut reader, header, 10, 3).unwrap();
    let v0 = Vertex { position: 0x0000_0000, uv: 0x0040_0000, color: header };
    let v1 = Vertex { position: 0x0000_0010, uv: 0x0007_0010, color: 0x0000_FF00 };
    let v2 = Vertex { position: 0x0010_0000, uv: 0x0000_1000, color: 0x00FF_0000 };
    let v3 = Vertex { position: 0x0010_0010, uv: 0x0000_1010, color: 0x00FF_FFFF };
    assert_eq!(
        records,
        vec![
            RenderPolyCommand {
                z_index: 10,
                attribute_index: 3,
                color: header,
                tex_info: 0x0007_0040,
                vertices: [v0, v1, v2],
            },
            RenderPolyCommand {
                z_index: 11,
                attribute_index: 3,
                color: header,
                tex_info: 0x0007_0040,
                vertices: [v1, v2, v3],
            },
        ]
    );
    assert_eq!(reader.remaining(), 0);
}

#[test]
fn second_triangle_of_a_quad_repeats_two_vertices_and_adds_the_fourth() {
    let header = FLAT_TRI | QUAD;
    let words = [0x0000_0000u32, 0x0000_0064, 0x0064_0000, 0x0064_0064];
    let mut reader = CommandReader::new(&words);
    let records = build_render_poly_command(&mut reader, header, 1, 0).unwrap();
    assert_eq!(records.len(), 2);
    assert_eq!(records[1].vertices[0], records[0].vertices[1]);
    assert_eq!(records[1].vertices[1], records[0].vertices[2]);
    assert_eq!(
        records[1].vertices[2],
        Vertex { position: 0x0064_0064, uv: 0, color: header }
    );
    assert_eq!(records[0].z_index, 1);
    assert_eq!(records[1].z_index, 2);
    assert_eq!(records[1].attribute_index, records[0].attribute_index);
    assert_eq!(records[1].color, records[0].color);
    assert_eq!(records[1].tex_info, records[0].tex_info);
}

#[test]
fn polygon_short_of_words_underruns_and_reads_nothing() {
    let words = [1u32, 2];
    let mut reader = CommandReader::new(&words);
    assert_eq!(
        build_render_poly_command(&mut reader, FLAT_TRI, 1, 0),
        Err(DecodeErrorKind::BufferUnderrun)
    );
    assert_eq!(reader.remaining(), 2);
    // One word short of a full gouraud textured quad.
    let ten = [0u32; 10];
    let mut reader = CommandReader::new(&ten);
    assert_eq!(
        build_render_poly_command(&mut reader, FLAT_TRI | QUAD | GOURAUD | TEXTURED, 1, 0),
        Err(DecodeErrorKind::BufferUnderrun)
    );
    assert_eq!(reader.remaining(), 10);
}

#[test]
fn positions_are_signed_halves() {
    let at = |position: u32| {
        let vertex = Vertex { position, uv: 0, color: 0 };
        (vertex.x(), vertex.y())
    };
    assert_eq!(at(0x0010_0010), (16, 16));
    assert_eq!(at(0x0020_0030), (48, 32));
    assert_eq!(at(0xFFFF_FFFE), (-2, -1));
    assert_eq!(at(0x8000_7FFF), (32767, -32768));
    assert_eq!(at(0x0000_8000), (-32768, 0));
    assert_eq!(at(0), (0, 0));
}

#[test]
fn texture_coordinates_are_the_two_low_bytes() {
    let vertex = Vertex { position: 0, uv: 0xABCD_12FE, color: 0 };
    assert_eq!(vertex.u(), 0xFE);
    assert_eq!(vertex.v(), 0x12);
}

#[test]
fn clut_position_unpacks_six_and_nine_bits() {
    assert_eq!(ClutPosition::decode(0), ClutPosition { x: 0, y: 0 });
    assert_eq!(ClutPosition::decode(0x0001), ClutPosition { x: 16, y: 0 });
    assert_eq!(ClutPosition::decode(0x003F), ClutPosition { x: 1008, y: 0 });
    assert_eq!(ClutPosition::decode(0x0040), ClutPosition { x: 0, y: 1 });
    assert_eq!(ClutPosition::decode(0x7FFF), ClutPosition { x: 1008, y: 511 });
    // Bit 15 belongs to neither field.
    assert_eq!(ClutPosition::decode(0x8000), ClutPosition { x: 0, y: 0 });
    assert_eq!(ClutPosition::decode(0x7810), ClutPosition { x: 256, y: 480 });
}

#[test]
fn texpage_unpacks_its_five_fields() {
    let zero = TexPage {
        base_x: 0,
        base_y: 0,
        transparency_mode: 0,
        color_mode: 0,
        texture_disable: false,
    };
    assert_eq!(TexPage::decode(0), zero);
    assert_eq!(TexPage::decode(0x000F), TexPage { base_x: 960, ..zero });
    assert_eq!(TexPage::decode(0x0005), TexPage { base_x: 320, ..zero });
    assert_eq!(TexPage::decode(0x0010), TexPage { base_y: 256, ..zero });
    assert_eq!(TexPage::decode(0x0060), TexPage { transparency_mode: 3, ..zero });
    assert_eq!(TexPage::decode(0x0020), TexPage { transparency_mode: 1, ..zero });
    assert_eq!(TexPage::decode(0x0180), TexPage { color_mode: 3, ..zero });
    assert_eq!(TexPage::decode(0x0100), TexPage { color_mode: 2, ..zero });
    assert_eq!(TexPage::decode(0x0800), TexPage { texture_disable: true, ..zero });
    // Bits 9, 10 and 12..=15 belong to no field.
    assert_eq!(TexPage::decode(0xF600), zero);
    assert_eq!(
        TexPage::decode(0xFFFF),
        TexPage {
            base_x: 960,
            base_y: 256,
            transparency_mode: 3,
            color_mode: 3,
            texture_disable: true,
        }
    );
}

#[test]
fn record_accessors_read_both_halves_of_tex_info() {
    let record = RenderPolyCommand {
        z_index: 1,
        attribute_index: 0,
        color: FLAT_TRI | TEXTURED | SEMI,
        tex_info: 0x0925_7810,
        vertices: [Vertex { position: 0, uv: 0, color: 0 }; 3],
    };
    assert!(record.is_semi_transparent());
    assert_eq!(record.clut(), ClutPosition { x: 256, y: 480 });
    assert_eq!(
        record.texpage(),
        TexPage {
            base_x: 320,
            base_y: 0,
            transparency_mode: 1,
            color_mode: 2,
            texture_disable: true,
        }
    );
    let opaque = RenderPolyCommand { color: FLAT_TRI, ..record };
    assert!(!opaque.is_semi_transparent());
}
