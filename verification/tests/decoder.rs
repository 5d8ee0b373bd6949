use gpu_commands::attributes::RenderingAttributes;
use gpu_commands::decoder::{decode_commands, CommandKind, DecodedCommands};
use gpu_commands::error::{DecodeError, DecodeErrorKind};
use gpu_commands::geometry::{FillRectCommand, RenderPolyCommand, Vertex};

const FILL: u32 = 0x0200_0000;
const TRI: u32 = 0x2000_0000;
const SEMI: u32 = 0x0200_0000;
const QUAD: u32 = 0x0800_0000;

fn zero() -> RenderingAttributes {
    RenderingAttributes {
        texpage: 0,
        texture_window: 0,
        draw_area_top_left: 0,
        draw_area_bottom_right: 0,
        drawing_offset: 0,
        mask_setting: 0,
    }
}

fn underrun(word_index: usize, category: u8, subopcode: u8) -> DecodeError {
    DecodeError { kind: DecodeErrorKind::BufferUnderrun, word_index, category, subopcode }
}

fn z_indices(decoded: &DecodedCommands) -> (Vec<u32>, Vec<u32>, Vec<u32>) {
    (
        decoded.fill_rects.iter().map(|r| r.z_index).collect(),
        decoded.opaque_polys.iter().map(|r| r.z_index).collect(),
        decoded.transparent_polys.iter().map(|r| r.z_index).collect(),
    )
}

#[test]
fn empty_stream_gives_four_empty_lists() {
    let decoded = decode_commands(&[]).unwrap();
    assert!(decoded.fill_rects.is_empty());
    assert!(decoded.opaque_polys.is_empty());
    assert!(decoded.transparent_polys.is_empty());
    assert!(decoded.attributes.is_empty());
}

#[test]
fn flat_opaque_triangle() {
    let decoded = decode_commands(&[0x20FF0000, 0x00100010, 0x00200020, 0x00300030]).unwrap();
    assert!(decoded.fill_rects.is_empty());
    assert!(decoded.transparent_polys.is_empty());
    assert_eq!(decoded.opaque_polys.len(), 1);
    let record = decoded.opaque_polys[0];
    assert_eq!(record.z_index, 1);
    // The snapshot list starts all zero; the triangle names its first entry.
    assert_eq!(record.attribute_index, 0);
    assert_eq!(decoded.attributes, vec![zero()]);
    let positions: Vec<(i16, i16)> = record.vertices.iter().map(|v| (v.x(), v.y())).collect();
    assert_eq!(positions, vec![(16, 16), (32, 32), (48, 48)]);
    for vertex in record.vertices.iter() {
        assert_eq!(vertex.color, 0x20FF0000);
        assert_eq!(vertex.uv, 0);
    }
    assert_eq!(record.color, 0x20FF0000);
    assert_eq!(record.tex_info, 0);
}

#[test]
fn fill_rect_header_alone_underruns() {
    assert_eq!(decode_commands(&[FILL]), Err(underrun(0, 0, 2)));
}

#[test]
fn fill_rect_header_with_one_word_underruns() {
    assert_eq!(decode_commands(&[FILL | 0x00FF_FFFF, 0x0010_0010]), Err(underrun(0, 0, 2)));
}

#[test]
fn fill_rect_stream_numbers_records_from_one() {
    let words = [
        FILL | 0x0000_00AA, 0x0001_0001, 0x0010_0010,
        FILL | 0x0000_00BB, 0x0002_0002, 0x0020_0020,
        FILL | 0x0000_00CC, 0x0003_0003, 0x0030_0030,
    ];
    let decoded = decode_commands(&words).unwrap();
    assert_eq!(
        decoded.fill_rects,
        vec![
            FillRectCommand {
                z_index: 1,
                color: FILL | 0x0000_00AA,
                position: 0x0001_0001,
                size: 0x0010_0010,
            },
            FillRectCommand {
                z_index: 2,
                color: FILL | 0x0000_00BB,
                position: 0x0002_0002,
                size: 0x0020_0020,
            },
            FillRectCommand {
                z_index: 3,
                color: FILL | 0x0000_00CC,
                position: 0x0003_0003,
                size: 0x0030_0030,
            },
        ]
    );
    assert!(decoded.opaque_polys.is_empty());
    assert!(decoded.transparent_polys.is_empty());
    assert_eq!(decoded.attributes, vec![zero()]);
}

#[test]
fn long_fill_rect_stream_keeps_count_and_order() {
    let count = 500u32;
    let mut words = Vec::new();
    for k in 0..count {
        words.push(FILL | k);
        words.push(k * 2);
        words.push(k * 3);
    }
    let decoded = decode_commands(&words).unwrap();
    assert_eq!(decoded.fill_rects.len(), count as usize);
    for (k, record) in decoded.fill_rects.iter().enumerate() {
        let k = k as u32;
        assert_eq!(
            *record,
            FillRectCommand { z_index: k + 1, color: FILL | k, position: k * 2, size: k * 3 }
        );
    }
}

#[test]
fn quad_gives_two_triangles() {
    let header = TRI | QUAD | 0x0012_3456;
    let decoded =
        decode_commands(&[header, 0x0000_0000, 0x0000_0040, 0x0040_0000, 0x0040_0040]).unwrap();
    let v = |position: u32| Vertex { position, uv: 0, color: header };
    assert_eq!(
        decoded.opaque_polys,
        vec![
            RenderPolyCommand {
                z_index: 1,
                attribute_index: 0,
                color: header,
                tex_info: 0,
                vertices: [v(0x0000_0000), v(0x0000_0040), v(0x0040_0000)],
            },
            RenderPolyCommand {
                z_index: 2,
                attribute_index: 0,
                color: header,
                tex_info: 0,
                vertices: [v(0x0000_0040), v(0x0040_0000), v(0x0040_0040)],
            },
        ]
    );
    assert!(decoded.transparent_polys.is_empty());
}

#[test]
fn transparency_bit_picks_the_list() {
    let words = [
        TRI | SEMI, 1, 2, 3,
        TRI, 4, 5, 6,
        TRI | SEMI | QUAD, 7, 8, 9, 10,
    ];
    let decoded = decode_commands(&words).unwrap();
    assert_eq!(decoded.opaque_polys.len(), 1);
    assert_eq!(decoded.transparent_polys.len(), 3);
    for record in decoded.opaque_polys.iter() {
        assert_eq!(record.color & SEMI, 0);
        assert!(!record.is_semi_transparent());
    }
    for record in decoded.transparent_polys.iter() {
        assert_ne!(record.color & SEMI, 0);
        assert!(record.is_semi_transparent());
    }
    assert_eq!(decoded.opaque_polys[0].vertices[0].position, 4);
    assert_eq!(decoded.transparent_polys[0].vertices[0].position, 1);
    // Both halves of the split quad land in the same list.
    assert_eq!(decoded.transparent_polys[1].vertices[0].position, 7);
    assert_eq!(decoded.transparent_polys[2].vertices[0].position, 8);
}

#[test]
fn z_indices_count_every_primitive_across_the_lists() {
    let words = [
        FILL, 0, 0,
        TRI | QUAD, 1, 2, 3, 4,
        TRI | SEMI, 5, 6, 7,
        FILL, 0, 0,
        TRI, 8, 9, 10,
        TRI | SEMI | QUAD, 11, 12, 13, 14,
    ];
    let decoded = decode_commands(&words).unwrap();
    assert_eq!(z_indices(&decoded), (vec![1, 5], vec![2, 3, 6], vec![4, 7, 8]));
}

#[test]
fn attributes_between_draws_commit_one_snapshot() {
    let words = [
        TRI, 1, 2, 3,
        0xE100_000A, 0xE500_0B0C, 0xE100_000D,
        TRI | SEMI, 4, 5, 6,
    ];
    let decoded = decode_commands(&words).unwrap();
    assert_eq!(
        decoded.attributes,
        vec![
            zero(),
            RenderingAttributes { texpage: 0xE100_000D, drawing_offset: 0xE500_0B0C, ..zero() },
        ]
    );
    let before = decoded.opaque_polys[0].attribute_index;
    let after = decoded.transparent_polys[0].attribute_index;
    assert_eq!(before, 0);
    assert_eq!(after, 1);
    assert!(before < after);
}

#[test]
fn attributes_before_the_first_draw_go_into_the_first_snapshot() {
    let words = [0xE300_0001, 0xE400_0002, FILL, 0, 0, TRI, 1, 2, 3];
    let decoded = decode_commands(&words).unwrap();
    assert_eq!(
        decoded.attributes,
        vec![RenderingAttributes {
            draw_area_top_left: 0xE300_0001,
            draw_area_bottom_right: 0xE400_0002,
            ..zero()
        }]
    );
    assert_eq!(decoded.opaque_polys[0].attribute_index, 0);
    assert_eq!(decoded.fill_rects[0].z_index, 1);
    assert_eq!(decoded.opaque_polys[0].z_index, 2);
}

#[test]
fn fill_rect_commits_attributes_too() {
    let words = [
        TRI, 1, 2, 3,
        0xE600_0001,
        FILL, 0, 0,
        TRI | QUAD, 4, 5, 6, 7,
        0xE600_0002,
        0xE200_0003,
        TRI, 8, 9, 10,
    ];
    let decoded = decode_commands(&words).unwrap();
    assert_eq!(
        decoded.attributes,
        vec![
            zero(),
            RenderingAttributes { mask_setting: 0xE600_0001, ..zero() },
            RenderingAttributes {
                texture_window: 0xE200_0003,
                mask_setting: 0xE600_0002,
                ..zero()
            },
        ]
    );
    let indices: Vec<u32> = decoded.opaque_polys.iter().map(|r| r.attribute_index).collect();
    assert_eq!(indices, vec![0, 1, 1, 2]);
}

#[test]
fn attributes_without_a_draw_commit_nothing() {
    let decoded = decode_commands(&[0xE100_0001, 0xE200_0002, 0xE600_0003]).unwrap();
    assert!(decoded.attributes.is_empty());
    assert!(decoded.fill_rects.is_empty());
    assert!(decoded.opaque_polys.is_empty());
    assert!(decoded.transparent_polys.is_empty());
}

#[test]
fn trailing_attributes_are_not_committed() {
    let decoded = decode_commands(&[FILL, 1, 2, 0xE100_0001]).unwrap();
    assert_eq!(decoded.attributes, vec![zero()]);
}

#[test]
fn unsupported_commands_take_one_word_and_change_nothing() {
    let plain = [FILL, 1, 2, TRI, 3, 4, 5];
    let noisy = [
        0x0100_0000, // clear cache
        0x0000_0000, // transfer, unknown sub-opcode
        0x1F00_0000, // transfer, unknown sub-opcode
        FILL, 1, 2,
        0x4000_0000, // line
        0x6000_0000, // rectangle
        0x8000_0000, // copy within video memory
        TRI, 3, 4, 5,
        0xA000_0000, // copy to video memory
        0xC000_0000, // copy from video memory
    ];
    assert_eq!(decode_commands(&noisy), decode_commands(&plain));
    let decoded = decode_commands(&noisy).unwrap();
    assert_eq!(decoded.fill_rects.len(), 1);
    assert_eq!(decoded.opaque_polys.len(), 1);
    assert_eq!(decoded.attributes.len(), 1);
}

#[test]
fn commands_are_classified_by_their_header() {
    assert_eq!(CommandKind::classify(0x0200_0000), CommandKind::FillRect);
    assert_eq!(CommandKind::classify(0x02FF_FFFF), CommandKind::FillRect);
    assert_eq!(CommandKind::classify(0x0100_0000), CommandKind::Unsupported);
    assert_eq!(CommandKind::classify(0x0300_0000), CommandKind::Unsupported);
    assert_eq!(CommandKind::classify(0x2000_0000), CommandKind::Polygon);
    assert_eq!(CommandKind::classify(0x3FFF_FFFF), CommandKind::Polygon);
    assert_eq!(CommandKind::classify(0x4000_0000), CommandKind::Unsupported);
    assert_eq!(CommandKind::classify(0x6200_0000), CommandKind::Unsupported);
    assert_eq!(CommandKind::classify(0x8000_0000), CommandKind::Unsupported);
    assert_eq!(CommandKind::classify(0xA000_0000), CommandKind::Unsupported);
    assert_eq!(CommandKind::classify(0xC000_0000), CommandKind::Unsupported);
    assert_eq!(CommandKind::classify(0xE100_0000), CommandKind::Attribute);
    assert_eq!(CommandKind::classify(0xFF00_0000), CommandKind::Attribute);
}

#[test]
fn parameter_words_are_never_read_as_headers() {
    // The parameter words look like fill-rectangle and attribute headers.
    let decoded = decode_commands(&[TRI, FILL, 0xE100_0001, TRI]).unwrap();
    assert_eq!(decoded.opaque_polys.len(), 1);
    assert!(decoded.fill_rects.is_empty());
    assert_eq!(decoded.attributes, vec![zero()]);
    assert_eq!(
        decoded.opaque_polys[0].vertices.map(|v| v.position),
        [FILL, 0xE100_0001, TRI]
    );
}

#[test]
fn underrun_in_the_middle_gives_no_partial_output() {
    let words = [FILL, 1, 2, TRI, 3, 4, 5, 0x3C00_0000, 6, 7];
    assert_eq!(decode_commands(&words), Err(underrun(7, 1, 0x1C)));
}

#[test]
fn polygon_one_word_short_underruns() {
    assert_eq!(decode_commands(&[TRI, 1, 2]), Err(underrun(0, 1, 0)));
    assert_eq!(decode_commands(&[TRI | QUAD, 1, 2, 3]), Err(underrun(0, 1, 0x08)));
    assert!(decode_commands(&[TRI | QUAD, 1, 2, 3, 4]).is_ok());
    let mut words = vec![0x3E00_0000u32];
    words.extend([0u32; 10]);
    assert_eq!(decode_commands(&words), Err(underrun(0, 1, 0x1E)));
    words.push(0);
    assert!(decode_commands(&words).is_ok());
}

#[test]
fn underrun_is_reported_at_the_header_that_asked() {
    let words = [0xE100_0000, 0x0100_0000, FILL | 0x00AB_CDEF, 9];
    assert_eq!(decode_commands(&words), Err(underrun(2, 0, 2)));
}
