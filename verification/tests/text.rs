use std::collections::HashMap;
use wasm96_core::bdf::parse_bdf;
use wasm96_core::font::{
    bind_font, glyph_size, graphics_font_register_spleen, graphics_font_register_ttf,
    graphics_font_unregister, graphics_font_upload_ttf, graphics_font_use_spleen, load_spleen,
    store_font,
};
use wasm96_core::raster::{graphics_background, graphics_set_color, graphics_set_size};
use wasm96_core::resources::{FontResource, Resources};
use wasm96_core::state::VideoState;
use wasm96_core::typeset::{
    blend_colors, chars_of, draw_bitmap_text, draw_raster_text, graphics_text, graphics_text_key,
    graphics_text_measure, graphics_text_measure_key, measure_raster_text, pack_size, RasterGlyph,
    TextSize,
};

const SOURCE: &[u8] = b"STARTFONT 2.1\nFONT test\nSTARTCHAR A\nENCODING 65\nBBX 5 8 0 0\nBITMAP\nF8\n88\n+70\nzz\n  0f  \nENDCHAR\nSTARTCHAR dup\nENCODING 65 99\nBITMAP\n01\nENDCHAR\nSTARTCHAR nocode\nBITMAP\nFF\nENDCHAR\nSTARTCHAR bad\nENCODING 55296\nBITMAP\nFF\nENDCHAR\nSTARTCHAR B\nENCODING 66\n01\nBITMAP\n100\nFF";

const TINY: &[u8] = b"STARTCHAR A\nENCODING 65\nBITMAP\nF8\n88\nENDCHAR\nSTARTCHAR dot\nENCODING 46\nBITMAP\n00\n08\nENDCHAR\n";

fn canvas(width: u32, height: u32) -> VideoState {
    let mut video = VideoState::default();
    graphics_set_size(&mut video, width, height);
    graphics_background(&mut video, 0, 0, 0);
    graphics_set_color(&mut video, 255, 0, 0, 255);
    video
}

fn painted(video: &VideoState) -> Vec<(i32, i32)> {
    let mut out = Vec::new();
    for y in 0..video.height {
        for x in 0..video.width {
            if video.framebuffer[(y * video.width + x) as usize] != 0 {
                out.push((x as i32, y as i32));
            }
        }
    }
    out
}

fn table(entries: &[(u32, &[u8])]) -> HashMap<u32, Vec<u8>> {
    entries.iter().map(|(k, v)| (*k, v.to_vec())).collect()
}

#[test]
fn glyphs_are_read_from_a_source() {
    assert_eq!(parse_bdf(SOURCE, 1), Some(table(&[(65, &[0x01]), (66, &[0xFF])])));
    assert_eq!(
        parse_bdf(SOURCE, 2),
        Some(table(&[(65, &[0x00, 0x01]), (66, &[0x01, 0x00, 0x00, 0xFF])]))
    );
    assert_eq!(
        parse_bdf(TINY, 1),
        Some(table(&[(65, &[0xF8, 0x88]), (46, &[0x00, 0x08])]))
    );
    assert_eq!(parse_bdf(b"", 1), Some(HashMap::new()));
    assert_eq!(parse_bdf(b"FONT x\nBITMAP\nFF\nENDCHAR\n", 1), Some(HashMap::new()));
}

#[test]
fn rows_take_a_fixed_number_of_bytes() {
    let source = b"STARTCHAR w\nENCODING 87\nBITMAP\n0FF0\n1\nFFFFFFFF\n100000000\nENDCHAR\n";
    assert_eq!(parse_bdf(source, 1), Some(table(&[(87, &[0x01])])));
    assert_eq!(parse_bdf(source, 2), Some(table(&[(87, &[0x0F, 0xF0, 0x00, 0x01])])));
    assert_eq!(
        parse_bdf(source, 3),
        Some(table(&[(87, &[0x00, 0x0F, 0xF0, 0x00, 0x00, 0x01])]))
    );
    assert_eq!(
        parse_bdf(source, 4),
        Some(table(&[(
            87,
            &[0x00, 0x00, 0x0F, 0xF0, 0x00, 0x00, 0x00, 0x01, 0xFF, 0xFF, 0xFF, 0xFF]
        )]))
    );
    assert_eq!(parse_bdf(source, 0), None);
    assert_eq!(parse_bdf(source, 5), None);
}

#[test]
fn sources_must_be_text() {
    assert_eq!(parse_bdf(b"STARTCHAR A\nENCODING 65\nBITMAP\nF8\nENDCHAR\n\xFF", 1), None);
}

#[test]
fn line_ends_and_odd_lines() {
    let crlf = b"STARTCHAR A\r\nENCODING 65\r\nBITMAP\r\nF8\r\nENDCHAR\r\n";
    assert_eq!(parse_bdf(crlf, 1), Some(table(&[(65, &[0xF8])])));
    let bare = b"STARTCHAR A\nENCODING 65\nBITMAP\r";
    assert_eq!(parse_bdf(bare, 1), Some(table(&[(65, &[])])));
    let kept = b"STARTCHAR A\nENCODING 65\nENCODING\nBITMAP\n7f\nENDCHAR\n";
    assert_eq!(parse_bdf(kept, 1), Some(table(&[(65, &[0x7F])])));
    let lost = b"STARTCHAR A\nENCODING 65\nENCODING 70xyz\nBITMAP\n7f\nENDCHAR\n";
    assert_eq!(parse_bdf(lost, 1), Some(HashMap::new()));
    let signs = b"STARTCHAR A\nENCODING +65\nBITMAP\n-1\n+\n\n+A\nENDCHAR\nSTARTCHAR B\nENCODING -66\nENDCHAR\nSTARTCHAR C\nENCODING 4294967296\nENDCHAR\nSTARTCHAR D\nENCODING 1114111\nENDCHAR\nSTARTCHAR E\nENCODING 1114112\nENDCHAR\n";
    assert_eq!(parse_bdf(signs, 1), Some(table(&[(65, &[0x0A]), (1114111, &[])])));
    let nested = b"STARTCHAR A\nENCODING 65\nBITMAP\nSTARTCHAR B\nENCODING 66\nAB\nENDCHAR\n";
    assert_eq!(parse_bdf(nested, 1), Some(table(&[(66, &[0xAB])])));
    let spaced = b"STARTCHAR A\n  ENCODING 65\nENCODING\t \t67\x0b\nBITMAP\n\t0a \nENDCHAR\n";
    assert_eq!(parse_bdf(spaced, 1), Some(table(&[(67, &[0x0A])])));
}

#[test]
fn bitmap_fonts_come_in_five_sizes() {
    assert_eq!(glyph_size(8), Some((5, 8)));
    assert_eq!(glyph_size(16), Some((8, 16)));
    assert_eq!(glyph_size(24), Some((12, 24)));
    assert_eq!(glyph_size(32), Some((16, 32)));
    assert_eq!(glyph_size(64), Some((32, 64)));
    assert_eq!(glyph_size(0), None);
    assert_eq!(glyph_size(12), None);
    assert!(load_spleen(12, TINY).is_none());
    assert!(load_spleen(8, b"\xFF").is_none());
    match load_spleen(24, b"STARTCHAR A\nENCODING 65\nBITMAP\n0FF0\nENDCHAR\n") {
        Some(FontResource::Spleen { width, height, glyphs }) => {
            assert_eq!((width, height), (12, 24));
            assert_eq!(glyphs, table(&[(65, &[0x0F, 0xF0])]));
        }
        _ => panic!("expected a bitmap font"),
    }
}

#[test]
fn bitmap_fonts_are_registered_and_unregistered() {
    let mut res = Resources::default();
    assert_eq!(graphics_font_use_spleen(&mut res, 9, TINY), 0);
    assert_eq!(graphics_font_use_spleen(&mut res, 8, b"\xFF"), 0);
    assert_eq!(res.next_id, 1);
    assert_eq!(graphics_font_use_spleen(&mut res, 8, TINY), 1);
    assert_eq!(graphics_font_register_spleen(&mut res, 70, 16, TINY), 1);
    assert_eq!(res.keyed_fonts[&70], 2);
    assert_eq!(graphics_font_register_spleen(&mut res, 70, 17, TINY), 0);
    assert_eq!(res.keyed_fonts[&70], 2);
    assert_eq!(graphics_font_register_spleen(&mut res, 70, 32, TINY), 1);
    assert_eq!(res.keyed_fonts[&70], 3);
    assert_eq!(res.fonts.len(), 3);
    assert_eq!(store_font(&mut res, None), 0);
    assert_eq!(bind_font(&mut res, 71, 0), 0);
    assert_eq!(res.keyed_fonts.len(), 1);
    graphics_font_unregister(&mut res, 71);
    assert_eq!(res.fonts.len(), 3);
    graphics_font_unregister(&mut res, 70);
    assert!(res.keyed_fonts.is_empty());
    assert_eq!(res.fonts.len(), 2);
    assert!(res.fonts.contains_key(&1));
    assert!(res.fonts.contains_key(&2));
}

#[test]
fn bytes_that_are_no_font_make_no_font() {
    let mut res = Resources::default();
    let memory = b"this is not a font".to_vec();
    assert_eq!(graphics_font_upload_ttf(&mut res, Some(&memory), 0, memory.len() as u32), 0);
    assert_eq!(graphics_font_upload_ttf(&mut res, Some(&memory), 0, 0), 0);
    assert_eq!(graphics_font_upload_ttf(&mut res, Some(&memory), 0, 900), 0);
    assert_eq!(graphics_font_upload_ttf(&mut res, None, 0, 4), 0);
    assert_eq!(graphics_font_register_ttf(&mut res, Some(&memory), 5, 0, memory.len() as u32), 0);
    assert_eq!(graphics_font_register_ttf(&mut res, None, 5, 0, 4), 0);
    assert!(res.fonts.is_empty());
    assert!(res.keyed_fonts.is_empty());
    assert_eq!(res.next_id, 1);
}

/// The smallest TrueType font: a `head`, an `hhea` and a `maxp` table
/// for one glyph without an outline.
fn smallest_font() -> Vec<u8> {
    let mut font = vec![0x00, 0x01, 0x00, 0x00, 0x00, 0x03, 0, 0, 0, 0, 0, 0];
    let tables: [(&[u8; 4], u32, u32); 3] = [(b"head", 60, 54), (b"hhea", 114, 36), (b"maxp", 150, 6)];
    for (tag, offset, length) in tables {
        font.extend_from_slice(tag);
        font.extend_from_slice(&[0, 0, 0, 0]);
        font.extend_from_slice(&offset.to_be_bytes());
        font.extend_from_slice(&length.to_be_bytes());
    }
    let mut head = vec![0u8; 54];
    head[18] = 0x03;
    head[19] = 0xE8;
    font.extend_from_slice(&head);
    font.extend_from_slice(&[0u8; 36]);
    font.extend_from_slice(&[0x00, 0x00, 0x50, 0x00, 0x00, 0x01]);
    font
}

#[test]
fn bytes_that_are_a_font_make_a_font() {
    let mut res = Resources::default();
    let mut memory = vec![0xAAu8; 8];
    memory.extend_from_slice(&smallest_font());
    let len = (memory.len() - 8) as u32;
    assert_eq!(graphics_font_upload_ttf(&mut res, Some(&memory), 8, len), 1);
    assert_eq!(res.next_id, 2);
    assert!(matches!(res.fonts.get(&1), Some(FontResource::Ttf(_))));
    assert_eq!(graphics_font_register_ttf(&mut res, Some(&memory), 77, 8, len), 1);
    assert_eq!(res.next_id, 3);
    assert!(matches!(res.fonts.get(&2), Some(FontResource::Ttf(_))));
    assert_eq!(res.keyed_fonts.get(&77), Some(&2));
    // The same bytes read from the wrong place are no font.
    assert_eq!(graphics_font_upload_ttf(&mut res, Some(&memory), 0, len), 0);
    assert_eq!(graphics_font_register_ttf(&mut res, Some(&memory), 78, 7, len), 0);
    assert_eq!(res.next_id, 3);
    assert_eq!(res.fonts.len(), 2);
    assert!(!res.keyed_fonts.contains_key(&78));
    // No id is left.
    res.next_id = u32::MAX;
    assert_eq!(graphics_font_upload_ttf(&mut res, Some(&memory), 8, len), 0);
    assert_eq!(graphics_font_register_ttf(&mut res, Some(&memory), 79, 8, len), 0);
    assert_eq!(res.fonts.len(), 2);
    assert!(!res.keyed_fonts.contains_key(&79));
}

#[test]
fn bitmap_text_is_drawn_cell_by_cell() {
    let glyphs = table(&[(65, &[0xF8, 0x88]), (46, &[0x00, 0x08])]);
    let mut video = canvas(16, 4);
    draw_bitmap_text(&mut video, 1, 1, 5, &glyphs, &chars_of("A.A?"));
    assert_eq!(
        painted(&video),
        vec![
            (1, 1), (2, 1), (3, 1), (4, 1), (5, 1), (11, 1), (12, 1), (13, 1), (14, 1), (15, 1),
            (1, 2), (5, 2), (10, 2), (11, 2), (15, 2)
        ]
    );
    assert_eq!(video.framebuffer[17], 0x00FF_0000);
}

#[test]
fn bitmap_text_clips_on_every_side() {
    let glyphs = table(&[(65, &[0xF8, 0x88])]);
    let mut video = canvas(4, 2);
    draw_bitmap_text(&mut video, -2, -1, 5, &glyphs, &chars_of("AAA"));
    assert_eq!(painted(&video), vec![(2, 0), (3, 0)]);
    let mut video = canvas(4, 2);
    draw_bitmap_text(&mut video, i32::MIN, 0, 5, &glyphs, &chars_of("AAA"));
    draw_bitmap_text(&mut video, i32::MAX, 0, 5, &glyphs, &chars_of("AAA"));
    draw_bitmap_text(&mut video, 0, i32::MAX, 5, &glyphs, &chars_of("AAA"));
    draw_bitmap_text(&mut video, 0, i32::MIN, 5, &glyphs, &chars_of("AAA"));
    draw_bitmap_text(&mut video, 0, 0, 0, &glyphs, &chars_of("AAA"));
    draw_bitmap_text(&mut video, 0, 0, 5, &glyphs, &chars_of(""));
    assert_eq!(painted(&video), vec![]);
    let mut video = canvas(4, 2);
    draw_bitmap_text(&mut video, 0, 0, u32::MAX, &glyphs, &chars_of("AA"));
    assert_eq!(painted(&video), vec![(0, 0), (1, 0), (2, 0), (3, 0)]);
}

#[test]
fn wide_glyphs_use_every_byte_of_a_row() {
    let glyphs = table(&[(65, &[0x80, 0x01, 0x00, 0x90])]);
    let mut video = canvas(16, 2);
    draw_bitmap_text(&mut video, 0, 0, 12, &glyphs, &chars_of("A"));
    assert_eq!(painted(&video), vec![(0, 0), (8, 1), (11, 1)]);
}

#[test]
fn text_from_guest_memory_is_drawn_in_a_registered_font() {
    let memory = b"..A\xFF".to_vec();
    let mut res = Resources::default();
    assert_eq!(graphics_font_register_spleen(&mut res, 3, 8, TINY), 1);
    let none: Vec<RasterGlyph> = Vec::new();
    let mut video = canvas(8, 2);
    graphics_text(&mut video, &res, Some(&memory), 0, 0, 1, 2, 1, &none);
    assert_eq!(painted(&video), vec![(0, 0), (1, 0), (2, 0), (3, 0), (4, 0), (0, 1), (4, 1)]);
    let mut video = canvas(8, 2);
    graphics_text_key(&mut video, &res, Some(&memory), 1, 0, 3, 0, 2, &none);
    assert_eq!(painted(&video), vec![(5, 1)]);
    let mut video = canvas(8, 2);
    graphics_text(&mut video, &res, Some(&memory), 0, 0, 2, 2, 1, &none);
    graphics_text(&mut video, &res, Some(&memory), 0, 0, 1, 2, 2, &none);
    graphics_text(&mut video, &res, Some(&memory), 0, 0, 1, 2, 20, &none);
    graphics_text(&mut video, &res, None, 0, 0, 1, 2, 1, &none);
    graphics_text_key(&mut video, &res, Some(&memory), 0, 0, 4, 2, 1, &none);
    assert_eq!(painted(&video), vec![]);
}

#[test]
fn coverage_is_blended_channel_by_channel() {
    assert_eq!(blend_colors(0x00FF_0000, 0, 255), 0x00FF_0000);
    assert_eq!(blend_colors(0x00FF_0000, 0x0000_00FF, 0), 0x0000_00FF);
    assert_eq!(blend_colors(0x00FF_0000, 0x0000_00FF, 128), 0x0080_007F);
    assert_eq!(blend_colors(0x0010_2030, 0x0040_5060, 64), 0x0033_4353);
    assert_eq!(blend_colors(0xFF10_2030, 0xAB40_5060, 64), 0x0033_4353);
    assert_eq!(blend_colors(0x00FF_FFFF, 0x00FF_FFFF, 77), 0x00FF_FFFF);
}

#[test]
fn rasterized_glyphs_are_blended_along_the_pen() {
    let glyphs = vec![
        RasterGlyph { width: 2, height: 2, advance: 160, coverage: vec![255, 0, 128, 1] },
        RasterGlyph { width: 1, height: 1, advance: 64, coverage: vec![255] },
        RasterGlyph { width: 0, height: 3, advance: -64, coverage: vec![255, 255] },
        RasterGlyph { width: 1, height: 1, advance: 64, coverage: vec![255] },
    ];
    let mut video = canvas(4, 2);
    draw_raster_text(&mut video, 0, 0, &glyphs);
    assert_eq!(
        video.framebuffer,
        vec![0xFF0000, 0, 0xFF0000, 0, 0x800000, 0x010000, 0, 0]
    );
    let mut video = canvas(4, 2);
    draw_raster_text(&mut video, -1, 0, &glyphs);
    assert_eq!(video.framebuffer, vec![0, 0xFF0000, 0, 0, 0x010000, 0, 0, 0]);
    let mut video = canvas(4, 2);
    draw_raster_text(&mut video, 3, 1, &glyphs);
    assert_eq!(video.framebuffer, vec![0, 0, 0, 0, 0, 0, 0, 0xFF0000]);
    let mut video = canvas(4, 2);
    draw_raster_text(&mut video, i32::MAX, i32::MAX, &glyphs);
    draw_raster_text(&mut video, i32::MIN, i32::MIN, &glyphs);
    draw_raster_text(&mut video, 0, 0, &Vec::new());
    assert_eq!(video.framebuffer, vec![0; 8]);
}

#[test]
fn glyphs_blend_over_what_is_there() {
    let glyphs = vec![
        RasterGlyph { width: 1, height: 1, advance: 0, coverage: vec![128] },
        RasterGlyph { width: 1, height: 3, advance: 0, coverage: vec![128, 255] },
    ];
    let mut video = canvas(1, 2);
    graphics_background(&mut video, 0, 0, 255);
    draw_raster_text(&mut video, 0, 0, &glyphs);
    assert_eq!(video.framebuffer, vec![0x00BF_003F, 0x00FF_0000]);
}

#[test]
fn text_is_measured() {
    assert_eq!(pack_size(0, 0), 0);
    assert_eq!(pack_size(10, 8), 0x0000_000A_0000_0008);
    assert_eq!(pack_size(u32::MAX, u32::MAX), u64::MAX);
    assert_eq!(
        TextSize::unpack(0x0000_000A_0000_0008),
        TextSize { width: 10, height: 8 }
    );
    assert_eq!(TextSize::unpack(u64::MAX), TextSize { width: u32::MAX, height: u32::MAX });
    assert_eq!(TextSize { width: 3, height: 7 }.pack(), 0x0000_0003_0000_0007);
    let glyphs = vec![
        RasterGlyph { width: 2, height: 2, advance: 160, coverage: vec![] },
        RasterGlyph { width: 1, height: 7, advance: 64, coverage: vec![] },
        RasterGlyph { width: 1, height: 1, advance: -1, coverage: vec![] },
    ];
    assert_eq!(measure_raster_text(&glyphs), (3, 7));
    assert_eq!(measure_raster_text(&glyphs[..1].to_vec()), (2, 2));
    assert_eq!(measure_raster_text(&glyphs[2..].to_vec()), (0, 1));
    assert_eq!(measure_raster_text(&Vec::new()), (0, 0));
    let wide = vec![RasterGlyph { width: 0, height: 0, advance: i32::MAX, coverage: vec![] }; 200];
    assert_eq!(measure_raster_text(&wide), (u32::MAX, 0));
    let back = vec![RasterGlyph { width: 0, height: 0, advance: -200, coverage: vec![] }; 2];
    assert_eq!(measure_raster_text(&back), (0, 0));

    let memory = "A\u{e9}.".as_bytes().to_vec();
    let mut res = Resources::default();
    assert_eq!(graphics_font_register_spleen(&mut res, 3, 8, TINY), 1);
    assert_eq!(graphics_font_register_spleen(&mut res, 4, 64, TINY), 1);
    let none: Vec<RasterGlyph> = Vec::new();
    assert_eq!(
        graphics_text_measure(&res, Some(&memory), 1, 0, 4, &none),
        0x0000_000F_0000_0008
    );
    assert_eq!(
        graphics_text_measure_key(&res, Some(&memory), 4, 0, 1, &none),
        0x0000_0020_0000_0040
    );
    assert_eq!(graphics_text_measure(&res, Some(&memory), 1, 0, 0, &none), 0x0000_0000_0000_0008);
    assert_eq!(graphics_text_measure(&res, Some(&memory), 1, 0, 2, &none), 0);
    assert_eq!(graphics_text_measure(&res, Some(&memory), 9, 0, 1, &none), 0);
    assert_eq!(graphics_text_measure(&res, None, 1, 0, 1, &none), 0);
    assert_eq!(graphics_text_measure_key(&res, Some(&memory), 5, 0, 1, &none), 0);
}
