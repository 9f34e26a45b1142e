use xray_core::context::ShapingContext;
use xray_core::engine::{Config, FaceId, FontEngine, MissingGlyphPolicy};
use xray_core::error::LayoutError;
use xray_core::font::{CharMapping, Decomposition, FaceData, GlyphOffset, KernPair, Ligature};
use xray_core::layout::{BufferState, GlyphRun, LayoutBuffer};
use xray_core::text::{Direction, DirectionHint, Script};

const NOTDEF: u32 = 0;
const GLYPH_A: u32 = 1;
const GLYPH_B: u32 = 2;
const GLYPH_V: u32 = 3;
const GLYPH_F: u32 = 4;
const GLYPH_I: u32 = 5;
const GLYPH_FI: u32 = 6;
const GLYPH_ALEF: u32 = 7;
const GLYPH_BET: u32 = 8;
const GLYPH_GIMEL: u32 = 9;
const GLYPH_SPACE: u32 = 10;
const GLYPH_E: u32 = 11;
const GLYPH_ACUTE: u32 = 12;
const GLYPH_E_ACUTE: u32 = 13;
const GLYPH_FACE: u32 = 14;
const GLYPH_A_RING: u32 = 15;
const GLYPH_RING: u32 = 16;

fn mapping(code_point: u32, glyph: u32) -> CharMapping {
    CharMapping { code_point, glyph }
}

/// A monospace face of seventeen glyphs, 1000 units to the em, 600 units
/// wide.
fn mono_data() -> FaceData {
    let mut advances = vec![600u16; 17];
    advances[GLYPH_ACUTE as usize] = 0;
    advances[GLYPH_RING as usize] = 0;
    FaceData {
        face_count: 1,
        units_per_em: 1000,
        ascender: 800,
        descender: -200,
        height: 1200,
        char_map: vec![
            mapping(0x20, GLYPH_SPACE),
            mapping(0x41, GLYPH_A),
            mapping(0x42, GLYPH_B),
            mapping(0x56, GLYPH_V),
            mapping(0x65, GLYPH_E),
            mapping(0x66, GLYPH_F),
            mapping(0x69, GLYPH_I),
            mapping(0xC5, GLYPH_A_RING),
            mapping(0x301, GLYPH_ACUTE),
            mapping(0x5D0, GLYPH_ALEF),
            mapping(0x5D1, GLYPH_BET),
            mapping(0x5D2, GLYPH_GIMEL),
            mapping(0x1F600, GLYPH_FACE),
        ],
        advances,
        kerning: vec![KernPair { left: GLYPH_A, right: GLYPH_V, adjust: -80 }],
        ligatures: vec![
            Ligature { first: GLYPH_F, second: GLYPH_I, glyph: GLYPH_FI },
            Ligature { first: GLYPH_E, second: GLYPH_ACUTE, glyph: GLYPH_E_ACUTE },
        ],
        decompositions: vec![
            Decomposition { glyph: GLYPH_A_RING, first: GLYPH_A, second: GLYPH_RING },
        ],
        offsets: vec![GlyphOffset { glyph: GLYPH_RING, x: -300, y: 250 }],
    }
}

fn engine_with_face(config: Config, px: u16) -> (FontEngine, FaceId) {
    let mut engine = FontEngine::create(0, config).ok().unwrap();
    let id = engine.load_face("mono.ttf", 0, Ok(mono_data())).unwrap();
    assert_eq!(engine.face_mut(id).unwrap().set_pixel_size(px), Ok(()));
    (engine, id)
}

fn utf16(text: &str) -> Vec<u16> {
    text.encode_utf16().collect()
}

fn shape_text(config: Config, text: &str, hint: DirectionHint) -> Vec<GlyphRun> {
    let (engine, id) = engine_with_face(config, 16);
    let face = engine.face(id).unwrap();
    let context = ShapingContext::derive(face).ok().unwrap();
    let mut buffer = LayoutBuffer::with_config(&config);
    assert_eq!(buffer.push_run(&utf16(text), hint), Ok(()));
    buffer.shape(&context, face).ok().unwrap()
}

fn glyph_ids(run: &GlyphRun) -> Vec<u32> {
    run.glyphs.iter().map(|g| g.glyph_id).collect()
}

fn clusters(run: &GlyphRun) -> Vec<usize> {
    run.glyphs.iter().map(|g| g.cluster_index).collect()
}

#[test]
fn test_font_loading() {
    let mut loader = FontEngine::create(0, Config::default()).ok().unwrap();
    let font = loader
        .load_face("/Users/as-cii/Downloads/Inconsolata-Regular.ttf", 0, Ok(mono_data()))
        .unwrap();
    assert_eq!(loader.face_mut(font).unwrap().set_pixel_size(24), Ok(()));
    let face = loader.face(font).unwrap();
    assert_eq!(face.pixel_size(), 24);
    assert_eq!(face.path(), "/Users/as-cii/Downloads/Inconsolata-Regular.ttf");
}

#[test]
fn metrics_before_size_is_size_unset() {
    let mut engine = FontEngine::create(0, Config::default()).ok().unwrap();
    let id = engine.load_face("mono.ttf", 0, Ok(mono_data())).unwrap();
    let face = engine.face(id).unwrap();
    assert_eq!(face.pixel_size(), 0);
    assert_eq!(face.metrics(), Err(LayoutError::SizeUnset));
    assert_eq!(ShapingContext::derive(face).err(), Some(LayoutError::SizeUnset));
}

#[test]
fn failed_resize_keeps_size_unset() {
    let mut engine = FontEngine::create(0, Config::default()).ok().unwrap();
    let id = engine.load_face("mono.ttf", 0, Ok(mono_data())).unwrap();
    assert_eq!(engine.face_mut(id).unwrap().set_pixel_size(0), Err(LayoutError::InvalidSize));
    let face = engine.face(id).unwrap();
    assert_eq!(face.revision(), 0);
    assert_eq!(face.metrics(), Err(LayoutError::SizeUnset));
}

#[test]
fn resize_makes_context_stale() {
    let (mut engine, id) = engine_with_face(Config::default(), 16);
    let context = ShapingContext::derive(engine.face(id).unwrap()).ok().unwrap();
    assert!(!context.is_stale(engine.face(id).unwrap()));
    assert_eq!(engine.face_mut(id).unwrap().set_pixel_size(20), Ok(()));
    assert!(context.is_stale(engine.face(id).unwrap()));
    let mut buffer = LayoutBuffer::new();
    assert_eq!(buffer.push_utf16_run(&utf16("AB")), Ok(()));
    let shaped = buffer.shape(&context, engine.face(id).unwrap());
    assert_eq!(shaped.err(), Some(LayoutError::StaleContext));
}

#[test]
fn resize_to_same_size_makes_context_stale() {
    let (mut engine, id) = engine_with_face(Config::default(), 16);
    let context = ShapingContext::derive(engine.face(id).unwrap()).ok().unwrap();
    assert_eq!(engine.face_mut(id).unwrap().set_pixel_size(16), Ok(()));
    assert!(context.is_stale(engine.face(id).unwrap()));
}

#[test]
fn stale_context_leaves_buffer_usable() {
    let (mut engine, id) = engine_with_face(Config::default(), 16);
    let stale = ShapingContext::derive(engine.face(id).unwrap()).ok().unwrap();
    assert_eq!(engine.face_mut(id).unwrap().set_pixel_size(20), Ok(()));
    let face = engine.face(id).unwrap();
    let mut buffer = LayoutBuffer::new();
    assert_eq!(buffer.push_utf16_run(&utf16("AB")), Ok(()));
    assert_eq!(buffer.shape(&stale, face).err(), Some(LayoutError::StaleContext));
    assert_eq!(buffer.state(), BufferState::Accumulating);
    assert_eq!(buffer.run_count(), 1);
    let fresh = ShapingContext::derive(face).ok().unwrap();
    let runs = buffer.shape(&fresh, face).ok().unwrap();
    assert_eq!(runs.len(), 1);
    assert_eq!(runs[0].glyphs[0].x_advance, 12);
}

#[test]
fn context_of_another_face_is_stale() {
    let mut engine = FontEngine::create(0, Config::default()).ok().unwrap();
    let first = engine.load_face("one.ttf", 0, Ok(mono_data())).unwrap();
    let second = engine.load_face("two.ttf", 0, Ok(mono_data())).unwrap();
    assert_eq!(engine.face_mut(first).unwrap().set_pixel_size(16), Ok(()));
    assert_eq!(engine.face_mut(second).unwrap().set_pixel_size(16), Ok(()));
    let context = ShapingContext::derive(engine.face(first).unwrap()).ok().unwrap();
    assert!(context.is_stale(engine.face(second).unwrap()));
}

#[test]
fn shaped_buffer_refuses_push_and_shape() {
    let (engine, id) = engine_with_face(Config::default(), 16);
    let face = engine.face(id).unwrap();
    let context = ShapingContext::derive(face).ok().unwrap();
    let mut buffer = LayoutBuffer::new();
    assert_eq!(buffer.push_utf16_run(&utf16("AB")), Ok(()));
    assert!(buffer.shape(&context, face).is_ok());
    assert_eq!(buffer.state(), BufferState::Shaped);
    assert_eq!(buffer.push_utf16_run(&utf16("A")), Err(LayoutError::BufferConsumed));
    assert_eq!(
        buffer.push_run(&utf16("A"), DirectionHint::LeftToRight),
        Err(LayoutError::BufferConsumed)
    );
    assert_eq!(buffer.shape(&context, face).err(), Some(LayoutError::BufferConsumed));
    assert_eq!(buffer.state(), BufferState::Shaped);
    assert_eq!(buffer.run_count(), 0);
}

#[test]
fn fatal_missing_glyph_consumes_buffer() {
    let config = Config {
        max_pixel_size: None,
        missing_glyph_policy: MissingGlyphPolicy::Fatal,
        visual_reorder_output: false,
    };
    let (engine, id) = engine_with_face(config, 16);
    let face = engine.face(id).unwrap();
    let context = ShapingContext::derive(face).ok().unwrap();
    let mut buffer = LayoutBuffer::with_config(&config);
    assert_eq!(buffer.push_utf16_run(&utf16("AZ")), Ok(()));
    assert_eq!(buffer.shape(&context, face).err(), Some(LayoutError::UnmappableGlyph));
    assert_eq!(buffer.state(), BufferState::Shaped);
    assert_eq!(buffer.push_utf16_run(&utf16("A")), Err(LayoutError::BufferConsumed));
    assert_eq!(buffer.shape(&context, face).err(), Some(LayoutError::BufferConsumed));
}

#[test]
fn fatal_policy_accepts_mapped_text() {
    let config = Config {
        max_pixel_size: None,
        missing_glyph_policy: MissingGlyphPolicy::Fatal,
        visual_reorder_output: false,
    };
    let runs = shape_text(config, "AB", DirectionHint::Auto);
    assert_eq!(glyph_ids(&runs[0]), vec![GLYPH_A, GLYPH_B]);
}

#[test]
fn missing_glyph_is_substituted_by_default() {
    let runs = shape_text(Config::default(), "AZB", DirectionHint::Auto);
    assert_eq!(runs.len(), 1);
    assert_eq!(glyph_ids(&runs[0]), vec![GLYPH_A, NOTDEF, GLYPH_B]);
    assert_eq!(clusters(&runs[0]), vec![0, 1, 2]);
    assert!(!runs[0].fully_mapped);
    let mixed = shape_text(Config::default(), "AB\u{5D3}", DirectionHint::LeftToRight);
    assert!(mixed[0].fully_mapped);
    assert!(!mixed[1].fully_mapped);
    assert_eq!(glyph_ids(&mixed[1]), vec![NOTDEF]);
}

#[test]
fn empty_buffer_shapes_to_nothing() {
    let (engine, id) = engine_with_face(Config::default(), 16);
    let face = engine.face(id).unwrap();
    let context = ShapingContext::derive(face).ok().unwrap();
    let mut buffer = LayoutBuffer::new();
    assert_eq!(buffer.state(), BufferState::Empty);
    let runs = buffer.shape(&context, face).ok().unwrap();
    assert!(runs.is_empty());
    assert_eq!(buffer.state(), BufferState::Shaped);
}

#[test]
fn empty_run_shapes_to_nothing() {
    let runs = shape_text(Config::default(), "", DirectionHint::Auto);
    assert!(runs.is_empty());
}

#[test]
fn ascii_ab_round_trip() {
    let runs = shape_text(Config::default(), "AB", DirectionHint::LeftToRight);
    assert_eq!(runs.len(), 1);
    let run = &runs[0];
    assert_eq!(run.run_index, 0);
    assert_eq!(run.segment.start, 0);
    assert_eq!(run.segment.end, 2);
    assert_eq!(run.segment.script, Script::Latin);
    assert_eq!(run.segment.direction, Direction::LeftToRight);
    assert_eq!(run.glyphs.len(), 2);
    assert_eq!(glyph_ids(run), vec![GLYPH_A, GLYPH_B]);
    assert_eq!(clusters(run), vec![0, 1]);
    let mut pen = 0;
    let mut last = i32::MIN;
    for glyph in run.glyphs.iter() {
        let position = pen + glyph.x_offset + glyph.x_advance;
        assert!(position > last);
        last = position;
        pen += glyph.x_advance;
    }
    assert_eq!(run.glyphs[0].x_advance, 9);
    assert_eq!(run.glyphs[1].x_advance, 9);
    assert_eq!(run.glyphs[0].y_advance, 0);
    assert_eq!(run.glyphs[0].x_offset, 0);
    assert_eq!(run.glyphs[0].y_offset, 0);
}

#[test]
fn rtl_tagged_run_is_reversed() {
    let runs = shape_text(Config::default(), "\u{5D0}\u{5D1}\u{5D2}", DirectionHint::RightToLeft);
    assert_eq!(runs.len(), 1);
    let run = &runs[0];
    assert_eq!(run.segment.direction, Direction::RightToLeft);
    assert_eq!(run.segment.script, Script::Hebrew);
    assert_eq!(run.glyphs.len(), 3);
    assert_eq!(clusters(run), vec![2, 1, 0]);
    assert_eq!(glyph_ids(run), vec![GLYPH_GIMEL, GLYPH_BET, GLYPH_ALEF]);
}

#[test]
fn rtl_hint_reverses_latin_too() {
    let runs = shape_text(Config::default(), "ABV", DirectionHint::RightToLeft);
    assert_eq!(clusters(&runs[0]), vec![2, 1, 0]);
    assert_eq!(glyph_ids(&runs[0]), vec![GLYPH_V, GLYPH_B, GLYPH_A]);
}

#[test]
fn direction_is_inferred_from_dominant_script() {
    let hebrew = shape_text(Config::default(), "\u{5D0}\u{5D1}A", DirectionHint::Auto);
    assert_eq!(hebrew[0].segment.direction, Direction::RightToLeft);
    let tie = shape_text(Config::default(), "\u{5D0}A", DirectionHint::Auto);
    assert_eq!(tie[0].segment.direction, Direction::LeftToRight);
    let neutral = shape_text(Config::default(), "  ", DirectionHint::Auto);
    assert_eq!(neutral[0].segment.direction, Direction::LeftToRight);
    assert_eq!(neutral[0].segment.script, Script::Common);
    let hinted = shape_text(Config::default(), "\u{5D0}\u{5D1}", DirectionHint::LeftToRight);
    assert_eq!(hinted[0].segment.direction, Direction::LeftToRight);
    assert_eq!(clusters(&hinted[0]), vec![0, 1]);
}

#[test]
fn mixed_scripts_split_into_segments() {
    let runs = shape_text(Config::default(), "AB \u{5D0}\u{5D1}", DirectionHint::LeftToRight);
    assert_eq!(runs.len(), 2);
    assert_eq!((runs[0].segment.start, runs[0].segment.end), (0, 3));
    assert_eq!(runs[0].segment.script, Script::Latin);
    assert_eq!((runs[1].segment.start, runs[1].segment.end), (3, 5));
    assert_eq!(runs[1].segment.script, Script::Hebrew);
    assert_eq!(glyph_ids(&runs[0]), vec![GLYPH_A, GLYPH_B, GLYPH_SPACE]);
    assert_eq!(clusters(&runs[1]), vec![3, 4]);
}

#[test]
fn leading_neutrals_join_the_first_script() {
    let runs = shape_text(Config::default(), "  \u{5D0}A", DirectionHint::LeftToRight);
    assert_eq!(runs.len(), 2);
    assert_eq!((runs[0].segment.start, runs[0].segment.end), (0, 3));
    assert_eq!(runs[0].segment.script, Script::Hebrew);
    assert_eq!((runs[1].segment.start, runs[1].segment.end), (3, 4));
    assert_eq!(runs[1].segment.script, Script::Latin);
}

#[test]
fn visual_order_reverses_segments_of_rtl_run() {
    let visual = Config {
        max_pixel_size: None,
        missing_glyph_policy: MissingGlyphPolicy::Substitute,
        visual_reorder_output: true,
    };
    let runs = shape_text(visual, "\u{5D0}\u{5D1}AB", DirectionHint::RightToLeft);
    assert_eq!(runs.len(), 2);
    assert_eq!(runs[0].segment.script, Script::Latin);
    assert_eq!(clusters(&runs[0]), vec![3, 2]);
    assert_eq!(runs[1].segment.script, Script::Hebrew);
    assert_eq!(clusters(&runs[1]), vec![1, 0]);
    let logical = shape_text(Config::default(), "\u{5D0}\u{5D1}AB", DirectionHint::RightToLeft);
    assert_eq!(logical[0].segment.script, Script::Hebrew);
    assert_eq!(logical[1].segment.script, Script::Latin);
    let ltr = shape_text(visual, "AB\u{5D0}", DirectionHint::LeftToRight);
    assert_eq!(ltr[0].segment.script, Script::Latin);
    assert_eq!(ltr[1].segment.script, Script::Hebrew);
}

#[test]
fn ligature_takes_cluster_of_first_unit() {
    let runs = shape_text(Config::default(), "AfiB", DirectionHint::Auto);
    assert_eq!(glyph_ids(&runs[0]), vec![GLYPH_A, GLYPH_FI, GLYPH_B]);
    assert_eq!(clusters(&runs[0]), vec![0, 1, 3]);
}

#[test]
fn combining_mark_is_absorbed_into_base() {
    let runs = shape_text(Config::default(), "e\u{301}A", DirectionHint::Auto);
    assert_eq!(runs.len(), 1);
    assert_eq!(glyph_ids(&runs[0]), vec![GLYPH_E_ACUTE, GLYPH_A]);
    assert_eq!(clusters(&runs[0]), vec![0, 2]);
}

#[test]
fn every_code_unit_lies_in_a_cluster() {
    let text = "Afi e\u{301}\u{1F600}B";
    let units = utf16(text);
    let runs = shape_text(Config::default(), text, DirectionHint::Auto);
    for index in 0..units.len() {
        let covered = runs.iter().any(|run| {
            run.segment.start <= index
                && index < run.segment.end
                && run.glyphs.iter().any(|glyph| {
                    glyph.cluster_index <= index
                        && !run.glyphs.iter().any(|other| {
                            glyph.cluster_index < other.cluster_index
                                && other.cluster_index <= index
                        })
                })
        });
        assert!(covered, "code unit {} is in no cluster", index);
    }
}

#[test]
fn surrogate_pair_is_one_glyph() {
    let runs = shape_text(Config::default(), "A\u{1F600}B", DirectionHint::Auto);
    assert_eq!(runs.len(), 1);
    assert_eq!(glyph_ids(&runs[0]), vec![GLYPH_A, GLYPH_FACE, GLYPH_B]);
    assert_eq!(clusters(&runs[0]), vec![0, 1, 3]);
}

#[test]
fn kerning_adjusts_the_left_advance() {
    let runs = shape_text(Config::default(), "AV", DirectionHint::Auto);
    assert_eq!(runs[0].glyphs[0].x_advance, 8);
    assert_eq!(runs[0].glyphs[1].x_advance, 9);
    let reversed = shape_text(Config::default(), "AV", DirectionHint::RightToLeft);
    assert_eq!(glyph_ids(&reversed[0]), vec![GLYPH_V, GLYPH_A]);
    assert_eq!(reversed[0].glyphs[1].x_advance, 8);
}

#[test]
fn runs_come_out_in_push_order() {
    let (engine, id) = engine_with_face(Config::default(), 16);
    let face = engine.face(id).unwrap();
    let context = ShapingContext::derive(face).ok().unwrap();
    let mut buffer = LayoutBuffer::new();
    assert_eq!(buffer.push_utf16_run(&utf16("A")), Ok(()));
    assert_eq!(buffer.state(), BufferState::Accumulating);
    assert_eq!(buffer.push_run(&utf16("\u{5D0}\u{5D1}"), DirectionHint::Auto), Ok(()));
    assert_eq!(buffer.push_utf16_run(&utf16("B")), Ok(()));
    assert_eq!(buffer.run_count(), 3);
    let runs = buffer.shape(&context, face).ok().unwrap();
    assert_eq!(runs.len(), 3);
    assert_eq!(runs.iter().map(|r| r.run_index).collect::<Vec<_>>(), vec![0, 1, 2]);
    assert_eq!(clusters(&runs[1]), vec![1, 0]);
    assert_eq!(clusters(&runs[2]), vec![0]);
}

#[test]
fn malformed_utf16_is_refused_at_push() {
    let mut buffer = LayoutBuffer::new();
    assert_eq!(buffer.push_utf16_run(&[0x41, 0xD800]), Err(LayoutError::Encoding));
    assert_eq!(buffer.push_utf16_run(&[0xDC00, 0x41]), Err(LayoutError::Encoding));
    assert_eq!(buffer.push_utf16_run(&[0xD800, 0x41]), Err(LayoutError::Encoding));
    assert_eq!(buffer.push_utf16_run(&[0xD83D, 0xDE00, 0xDE00]), Err(LayoutError::Encoding));
    assert_eq!(buffer.state(), BufferState::Empty);
    assert_eq!(buffer.run_count(), 0);
    assert_eq!(buffer.push_utf16_run(&[0xD83D, 0xDE00]), Ok(()));
    assert_eq!(buffer.run_count(), 1);
    assert_eq!(buffer.push_utf16_run(&[0xDE00]), Err(LayoutError::Encoding));
    assert_eq!(buffer.run_count(), 1);
    assert_eq!(buffer.state(), BufferState::Accumulating);
}

#[test]
fn layout_shapes_at_the_current_size() {
    let (engine, id) = engine_with_face(Config::default(), 24);
    let face = engine.face(id).unwrap();
    let mut buffer = LayoutBuffer::new();
    assert_eq!(buffer.push_utf16_run(&utf16("AB")), Ok(()));
    let runs = buffer.layout(face).ok().unwrap();
    assert_eq!(runs.len(), 1);
    assert_eq!(runs[0].glyphs[0].x_advance, 14);
    assert_eq!(clusters(&runs[0]), vec![0, 1]);
}

#[test]
fn layout_without_size_is_size_unset() {
    let mut engine = FontEngine::create(0, Config::default()).ok().unwrap();
    let id = engine.load_face("mono.ttf", 0, Ok(mono_data())).unwrap();
    let mut buffer = LayoutBuffer::new();
    assert_eq!(buffer.push_utf16_run(&utf16("AB")), Ok(()));
    assert_eq!(buffer.layout(engine.face(id).unwrap()).err(), Some(LayoutError::SizeUnset));
}

#[test]
fn decomposition_keeps_the_cluster() {
    let runs = shape_text(Config::default(), "B\u{C5}V", DirectionHint::Auto);
    assert_eq!(runs.len(), 1);
    assert_eq!(glyph_ids(&runs[0]), vec![GLYPH_B, GLYPH_A, GLYPH_RING, GLYPH_V]);
    assert_eq!(clusters(&runs[0]), vec![0, 1, 1, 2]);
    let reversed = shape_text(Config::default(), "B\u{C5}V", DirectionHint::RightToLeft);
    assert_eq!(glyph_ids(&reversed[0]), vec![GLYPH_V, GLYPH_RING, GLYPH_A, GLYPH_B]);
    assert_eq!(clusters(&reversed[0]), vec![2, 1, 1, 0]);
}

#[test]
fn kerning_sees_the_decomposed_neighbour() {
    let runs = shape_text(Config::default(), "\u{C5}V", DirectionHint::Auto);
    assert_eq!(glyph_ids(&runs[0]), vec![GLYPH_A, GLYPH_RING, GLYPH_V]);
    assert_eq!(runs[0].glyphs[0].x_advance, 9);
    assert_eq!(runs[0].glyphs[1].x_advance, 0);
}

#[test]
fn offsets_are_scaled_to_the_size() {
    let runs = shape_text(Config::default(), "\u{C5}", DirectionHint::Auto);
    let base = &runs[0].glyphs[0];
    let ring = &runs[0].glyphs[1];
    assert_eq!((base.x_offset, base.y_offset), (0, 0));
    assert_eq!((ring.x_offset, ring.y_offset), (-5, 4));
    assert_eq!((ring.x_advance, ring.y_advance), (0, 0));
}
