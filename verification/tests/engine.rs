use xray_core::context::ShapingContext;
use xray_core::engine::{Config, FaceId, FontEngine, MissingGlyphPolicy};
use xray_core::error::{FaceLoadReason, LayoutError};
use xray_core::font::{
    scale, CharMapping, Decomposition, FaceData, FontMetrics, GlyphOffset, KernPair, Ligature,
};

fn small_data() -> FaceData {
    FaceData {
        face_count: 2,
        units_per_em: 2048,
        ascender: 1854,
        descender: -434,
        height: 2400,
        char_map: vec![
            CharMapping { code_point: 0x41, glyph: 1 },
            CharMapping { code_point: 0x42, glyph: 2 },
        ],
        advances: vec![1000, 1229, 1229],
        kerning: vec![KernPair { left: 1, right: 2, adjust: -100 }],
        ligatures: vec![Ligature { first: 1, second: 2, glyph: 0 }],
        decompositions: vec![Decomposition { glyph: 2, first: 1, second: 0 }],
        offsets: vec![GlyphOffset { glyph: 1, x: 10, y: -20 }],
    }
}

fn started() -> FontEngine {
    FontEngine::create(0, Config::default()).ok().unwrap()
}

#[test]
fn engine_start_follows_native_status() {
    assert!(FontEngine::create(0, Config::default()).is_ok());
    assert_eq!(FontEngine::create(64, Config::default()).err(), Some(LayoutError::EngineInit));
    assert_eq!(FontEngine::create(-1, Config::default()).err(), Some(LayoutError::EngineInit));
    assert_eq!(FontEngine::create(1, Config::default()).err(), Some(LayoutError::EngineInit));
}

#[test]
fn default_config_is_unrestricted() {
    let config = Config::default();
    assert_eq!(config.max_pixel_size, None);
    assert_eq!(config.missing_glyph_policy, MissingGlyphPolicy::Substitute);
    assert!(!config.visual_reorder_output);
    assert_eq!(started().config(), config);
}

#[test]
fn status_codes_map_to_load_reasons() {
    assert_eq!(FaceLoadReason::from_status(0, true), None);
    assert_eq!(FaceLoadReason::from_status(0, false), None);
    assert_eq!(FaceLoadReason::from_status(1, false), Some(FaceLoadReason::NotFound));
    assert_eq!(FaceLoadReason::from_status(1, true), Some(FaceLoadReason::Unreadable));
    assert_eq!(FaceLoadReason::from_status(81, false), Some(FaceLoadReason::NotFound));
    assert_eq!(FaceLoadReason::from_status(81, true), Some(FaceLoadReason::Unreadable));
    assert_eq!(FaceLoadReason::from_status(82, false), Some(FaceLoadReason::Unreadable));
    assert_eq!(FaceLoadReason::from_status(85, true), Some(FaceLoadReason::Unreadable));
    assert_eq!(FaceLoadReason::from_status(88, true), Some(FaceLoadReason::Unreadable));
    assert_eq!(FaceLoadReason::from_status(89, true), Some(FaceLoadReason::UnsupportedFormat));
    assert_eq!(FaceLoadReason::from_status(6, true), Some(FaceLoadReason::IndexOutOfRange));
    assert_eq!(FaceLoadReason::from_status(2, true), Some(FaceLoadReason::UnsupportedFormat));
    assert_eq!(FaceLoadReason::from_status(3, true), Some(FaceLoadReason::UnsupportedFormat));
    assert_eq!(FaceLoadReason::from_status(8, false), Some(FaceLoadReason::UnsupportedFormat));
    assert_eq!(FaceLoadReason::from_status(-7, true), Some(FaceLoadReason::UnsupportedFormat));
}

#[test]
fn only_engine_start_failure_is_fatal() {
    assert!(!LayoutError::EngineInit.is_recoverable());
    assert!(LayoutError::FaceLoad(FaceLoadReason::NotFound).is_recoverable());
    assert!(LayoutError::InvalidSize.is_recoverable());
    assert!(LayoutError::SizeUnset.is_recoverable());
    assert!(LayoutError::StaleContext.is_recoverable());
    assert!(LayoutError::Encoding.is_recoverable());
    assert!(LayoutError::BufferConsumed.is_recoverable());
    assert!(LayoutError::UnmappableGlyph.is_recoverable());
}

#[test]
fn load_reports_why_opening_failed() {
    let mut engine = started();
    for reason in [
        FaceLoadReason::NotFound,
        FaceLoadReason::Unreadable,
        FaceLoadReason::UnsupportedFormat,
        FaceLoadReason::IndexOutOfRange,
    ] {
        assert_eq!(
            engine.load_face("missing.ttf", 0, Err(reason)),
            Err(LayoutError::FaceLoad(reason))
        );
    }
    assert_eq!(engine.live_faces(), 0);
    assert!(engine.face(FaceId { index: 0 }).is_none());
}

#[test]
fn load_checks_the_face_index() {
    let mut engine = started();
    assert_eq!(engine.load_face("pair.ttc", 1, Ok(small_data())), Ok(FaceId { index: 0 }));
    assert_eq!(
        engine.load_face("pair.ttc", 2, Ok(small_data())),
        Err(LayoutError::FaceLoad(FaceLoadReason::IndexOutOfRange))
    );
    assert_eq!(engine.live_faces(), 1);
}

#[test]
fn load_refuses_inconsistent_tables() {
    let unsupported = Err(LayoutError::FaceLoad(FaceLoadReason::UnsupportedFormat));
    let mut engine = started();

    let mut data = small_data();
    data.units_per_em = 15;
    assert_eq!(engine.load_face("a.ttf", 0, Ok(data)), unsupported);

    let mut data = small_data();
    data.advances = Vec::new();
    data.char_map = Vec::new();
    data.kerning = Vec::new();
    data.ligatures = Vec::new();
    data.decompositions = Vec::new();
    data.offsets = Vec::new();
    assert_eq!(engine.load_face("a.ttf", 0, Ok(data)), unsupported);

    let mut data = small_data();
    data.char_map[1].glyph = 3;
    assert_eq!(engine.load_face("a.ttf", 0, Ok(data)), unsupported);

    let mut data = small_data();
    data.char_map.swap(0, 1);
    assert_eq!(engine.load_face("a.ttf", 0, Ok(data)), unsupported);

    let mut data = small_data();
    data.char_map[1].code_point = 0x41;
    assert_eq!(engine.load_face("a.ttf", 0, Ok(data)), unsupported);

    let mut data = small_data();
    data.kerning[0].right = 9;
    assert_eq!(engine.load_face("a.ttf", 0, Ok(data)), unsupported);

    let mut data = small_data();
    data.kerning.push(KernPair { left: 0, right: 2, adjust: 5 });
    assert_eq!(engine.load_face("a.ttf", 0, Ok(data)), unsupported);

    let mut data = small_data();
    data.ligatures[0].glyph = 3;
    assert_eq!(engine.load_face("a.ttf", 0, Ok(data)), unsupported);

    let mut data = small_data();
    data.ligatures.push(Ligature { first: 1, second: 2, glyph: 1 });
    assert_eq!(engine.load_face("a.ttf", 0, Ok(data)), unsupported);

    let mut data = small_data();
    data.decompositions[0].second = 3;
    assert_eq!(engine.load_face("a.ttf", 0, Ok(data)), unsupported);

    let mut data = small_data();
    data.decompositions.push(Decomposition { glyph: 1, first: 0, second: 0 });
    assert_eq!(engine.load_face("a.ttf", 0, Ok(data)), unsupported);

    let mut data = small_data();
    data.offsets[0].glyph = 3;
    assert_eq!(engine.load_face("a.ttf", 0, Ok(data)), unsupported);

    let mut data = small_data();
    data.offsets.push(GlyphOffset { glyph: 1, x: 0, y: 0 });
    assert_eq!(engine.load_face("a.ttf", 0, Ok(data)), unsupported);

    assert_eq!(engine.live_faces(), 0);
    let mut data = small_data();
    data.units_per_em = 16;
    assert_eq!(engine.load_face("a.ttf", 0, Ok(data)), Ok(FaceId { index: 0 }));
}

#[test]
fn shutdown_waits_for_faces() {
    let mut engine = started();
    let first = engine.load_face("one.ttf", 0, Ok(small_data())).unwrap();
    let second = engine.load_face("two.ttf", 0, Ok(small_data())).unwrap();
    assert_eq!(engine.live_faces(), 2);

    let mut engine = match engine.shutdown() {
        Ok(()) => panic!("the engine shut down under two live faces"),
        Err(engine) => engine,
    };
    assert_eq!(engine.live_faces(), 2);
    assert_eq!(engine.face(first).unwrap().path(), "one.ttf");
    assert_eq!(engine.face(second).unwrap().path(), "two.ttf");

    assert!(engine.release_face(first));
    let mut engine = match engine.shutdown() {
        Ok(()) => panic!("the engine shut down under a live face"),
        Err(engine) => engine,
    };
    assert_eq!(engine.live_faces(), 1);
    assert!(engine.face(first).is_none());
    assert!(engine.face(second).is_some());

    assert!(engine.release_face(second));
    assert_eq!(engine.live_faces(), 0);
    assert!(engine.shutdown().is_ok());
}

#[test]
fn engine_without_faces_shuts_down() {
    assert!(started().shutdown().is_ok());
}

#[test]
fn released_face_is_gone() {
    let mut engine = started();
    let id = engine.load_face("one.ttf", 0, Ok(small_data())).unwrap();
    assert!(engine.release_face(id));
    assert!(!engine.release_face(id));
    assert!(!engine.release_face(FaceId { index: 7 }));
    assert!(engine.face(id).is_none());
    assert!(engine.face_mut(id).is_none());
    assert!(engine.face_mut(FaceId { index: 7 }).is_none());
    let next = engine.load_face("two.ttf", 0, Ok(small_data())).unwrap();
    assert_eq!(next, FaceId { index: 1 });
    assert_eq!(engine.live_faces(), 1);
}

#[test]
fn pixel_size_is_validated() {
    let capped = Config {
        max_pixel_size: Some(64),
        missing_glyph_policy: MissingGlyphPolicy::Substitute,
        visual_reorder_output: false,
    };
    let mut engine = FontEngine::create(0, capped).ok().unwrap();
    let id = engine.load_face("one.ttf", 0, Ok(small_data())).unwrap();
    let face = engine.face_mut(id).unwrap();
    assert_eq!(face.set_pixel_size(0), Err(LayoutError::InvalidSize));
    assert_eq!(face.set_pixel_size(65), Err(LayoutError::InvalidSize));
    assert_eq!(face.pixel_size(), 0);
    assert_eq!(face.revision(), 0);
    assert_eq!(face.set_pixel_size(64), Ok(()));
    assert_eq!(face.pixel_size(), 64);
    assert_eq!(face.revision(), 1);
    assert_eq!(face.set_pixel_size(1000), Err(LayoutError::InvalidSize));
    assert_eq!(face.pixel_size(), 64);
    assert_eq!(face.revision(), 1);
    assert_eq!(face.set_pixel_size(1), Ok(()));
    assert_eq!(engine.face(id).unwrap().pixel_size(), 1);
    assert_eq!(engine.face(id).unwrap().revision(), 2);

    let mut open = started();
    let id = open.load_face("one.ttf", 0, Ok(small_data())).unwrap();
    assert_eq!(open.face_mut(id).unwrap().set_pixel_size(u16::MAX), Ok(()));
}

#[test]
fn metrics_scale_with_the_size() {
    let mut engine = started();
    let id = engine.load_face("one.ttf", 0, Ok(small_data())).unwrap();
    assert_eq!(engine.face_mut(id).unwrap().set_pixel_size(16), Ok(()));
    assert_eq!(
        engine.face(id).unwrap().metrics(),
        Ok(FontMetrics { ascent: 14, descent: -4, line_gap: 0, units_per_em: 2048 })
    );
    assert_eq!(engine.face_mut(id).unwrap().set_pixel_size(32), Ok(()));
    assert_eq!(
        engine.face(id).unwrap().metrics(),
        Ok(FontMetrics { ascent: 28, descent: -7, line_gap: 1, units_per_em: 2048 })
    );
}

#[test]
fn scale_rounds_down() {
    assert_eq!(scale(600, 16, 1000), 9);
    assert_eq!(scale(1000, 16, 1000), 16);
    assert_eq!(scale(0, 16, 1000), 0);
    assert_eq!(scale(600, 0, 1000), 0);
    assert_eq!(scale(-1, 16, 1000), -1);
    assert_eq!(scale(-1000, 16, 1000), -16);
    assert_eq!(scale(-434, 16, 2048), -4);
    assert_eq!(scale(-434, 32, 2048), -7);
    assert_eq!(scale(131072, 65535, 16), 536862720);
    assert_eq!(scale(-131072, 65535, 16), -536862720);
    assert_eq!(scale(1, 1, 16), 0);
    assert_eq!(scale(-1, 1, 16), -1);
}

#[test]
fn face_answers_glyph_queries() {
    let mut engine = started();
    let id = engine.load_face("one.ttf", 0, Ok(small_data())).unwrap();
    let face = engine.face(id).unwrap();
    assert_eq!(face.glyph_count(), 3);
    assert_eq!(face.units_per_em(), 2048);
    assert_eq!(face.glyph_for(0x41), Some(1));
    assert_eq!(face.glyph_for(0x42), Some(2));
    assert_eq!(face.glyph_for(0x40), None);
    assert_eq!(face.glyph_for(0x43), None);
    assert_eq!(face.advance_of(0), 1000);
    assert_eq!(face.advance_of(2), 1229);
    assert_eq!(face.kerning_for(1, 2), -100);
    assert_eq!(face.kerning_for(2, 1), 0);
    assert_eq!(face.ligature_for(1, 2), Some(0));
    assert_eq!(face.ligature_for(2, 1), None);
    assert_eq!(face.decomposition_for(2), Some((1, 0)));
    assert_eq!(face.decomposition_for(1), None);
    assert_eq!(face.offset_for(1), (10, -20));
    assert_eq!(face.offset_for(2), (0, 0));
}

#[test]
fn context_records_size_and_em() {
    let mut engine = started();
    let id = engine.load_face("one.ttf", 0, Ok(small_data())).unwrap();
    assert_eq!(engine.face_mut(id).unwrap().set_pixel_size(18), Ok(()));
    let context = ShapingContext::derive(engine.face(id).unwrap()).ok().unwrap();
    assert_eq!(context.pixel_size(), 18);
    assert_eq!(context.units_per_em(), 2048);
    assert!(!context.is_stale(engine.face(id).unwrap()));
}
