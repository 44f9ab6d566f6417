use capy_core::audio::{
    audio_clips, classify_audio_src, data_audio_extension, decode_data_audio, hex_value, percent_decode,
    percent_decode_bytes, temp_audio_file_name, AudioSource,
};
use capy_core::backend::RecorderBackend;
use capy_core::errors::{PipelineError, RecordError, SnapshotError};
use capy_core::export::{
    ColorSpec,
    resolve_export_preset, source_export_profile, validate_source_export_combo, ExportResolution,
    ProfileError, SourceExportProfile, VideoCodec,
};
use capy_core::parallel::{
    compute_frame_ranges, concat_list, default_parallel_for_viewport, frame_range_arg,
    record_segment_progress, resolve_requested_parallel, segment_local_frames, SegmentEvent, segment_file_name, segment_res_arg,
    validate_requested_parallel,
};
use capy_core::record::{frame_span, record_opts_for, is_progress_frame, recording_duration_ms, segment_args, RecordConfig};
use capy_core::render_source::{
    extract_css_custom_property, meta_resolution, resolve_stage_background, sanitize_stage_background,
    render_source_from_text, validate_render_source, validate_render_source_text, ClipFields, Field, RenderSource, ThemeFields, TrackFields,
    ViewportFields,
};

fn no_theme() -> ThemeFields {
    ThemeFields { background: None, bg: None, colors_background: None, colors_bg: None, css: None }
}

fn clip(id: &str, begin: u64, end: u64) -> ClipFields {
    ClipFields {
        id: Some(id.to_string()),
        begin_ms: Field::Val(begin),
        begin: Field::Absent,
        end_ms: Field::Val(end),
        end: Field::Absent,
    }
}

fn track(id: &str, kind: &str, clips: Vec<ClipFields>) -> TrackFields {
    TrackFields { id: Some(id.to_string()), kind: Field::Val(kind.to_string()), clips: Field::Val(clips) }
}

fn source(tracks: Vec<TrackFields>) -> RenderSource {
    RenderSource {
        is_object: true,
        schema_version: Field::Val("capy.timeline.render_source.v1".to_string()),
        duration_ms: Field::Val(1000),
        viewport: Field::Val(ViewportFields { w: Field::Val(1280), h: Field::Val(720) }),
        tracks: Field::Val(tracks),
        components: Some(0),
        theme: no_theme(),
    }
}

#[test]
fn only_backend_is_cef_osr() {
    let backend = RecorderBackend::only();
    assert_eq!(backend, RecorderBackend::CefOsr);
    assert_eq!(backend.as_str(), "cef-osr");
}

#[test]
fn ranges_split_evenly() {
    assert_eq!(compute_frame_ranges(120, 4), vec![(0, 30), (30, 60), (60, 90), (90, 120)]);
}

#[test]
fn ranges_remainder_to_last() {
    assert_eq!(compute_frame_ranges(122, 4), vec![(0, 30), (30, 60), (60, 90), (90, 122)]);
}

#[test]
fn validates_render_source_v1_contract() {
    let mut src = source(vec![track("intro.stage", "component", vec![clip("intro.stage.main", 0, 1000)])]);
    src.theme.background = Some("#05070a".to_string());
    let result = validate_render_source(&src);
    assert!(result.is_ok(), "valid render_source.v1: {result:?}");
    if let Ok(summary) = result {
        assert_eq!(summary.duration_ms, 1000);
        assert_eq!(summary.visual_tracks, 1);
        assert_eq!(summary.background, "#05070a");
    }
}

#[test]
fn stage_background_uses_theme_css_var() {
    let mut theme = no_theme();
    theme.css = Some(":root { --capy-timeline-bg: #05070a; --capy-timeline-text: #fff; }".to_string());
    assert_eq!(resolve_stage_background(&theme), "#05070a");
}

#[test]
fn stage_background_rejects_css_injection() {
    let mut theme = no_theme();
    theme.background = Some("#000; } body { background: red".to_string());
    assert_eq!(resolve_stage_background(&theme), "#000");
}

#[test]
fn render_source_summary_counts_clips_tracks_and_warnings() {
    let mut src = source(vec![
        track("a", "video", vec![clip("x", 0, 400), clip("y", 400, 1500)]),
        track("music", "audio", vec![clip("m", 0, 1000)]),
        track("empty", "text", vec![]),
    ]);
    src.components = Some(3);
    let summary = validate_render_source(&src).unwrap();
    assert_eq!(summary.schema_version, "capy.timeline.render_source.v1");
    assert_eq!(summary.viewport, (1280, 720));
    assert_eq!(summary.tracks, 3);
    assert_eq!(summary.clips, 3);
    assert_eq!(summary.components, 3);
    assert_eq!(summary.visual_tracks, 2);
    assert_eq!(summary.audio_tracks, 1);
    assert_eq!(summary.background, "#000");
    assert_eq!(
        summary.warnings,
        vec!["clip 'a.y' ends after source duration".to_string(), "track 'empty' has no clips".to_string()]
    );
}

#[test]
fn render_source_reports_first_problem() {
    let mut src = source(vec![]);
    src.is_object = false;
    assert_eq!(validate_render_source(&src).unwrap_err(), "render source must be a JSON object");

    let mut src = source(vec![]);
    src.schema_version = Field::Wrong;
    assert_eq!(validate_render_source(&src).unwrap_err(), "schema_version is required");

    let mut src = source(vec![]);
    src.schema_version = Field::Val("v0".to_string());
    assert_eq!(
        validate_render_source(&src).unwrap_err(),
        "schema_version must be capy.timeline.render_source.v1 (got v0)"
    );

    let mut src = source(vec![]);
    src.duration_ms = Field::Val(0);
    assert_eq!(validate_render_source(&src).unwrap_err(), "duration_ms must be > 0");

    let mut src = source(vec![]);
    src.viewport = Field::Val(ViewportFields { w: Field::Val(0), h: Field::Val(5_000_000_000) });
    assert_eq!(
        validate_render_source(&src).unwrap_err(),
        "viewport must be a positive u32 size (got 0x5000000000)"
    );

    let src = source(vec![]);
    assert_eq!(validate_render_source(&src).unwrap_err(), "tracks must not be empty");

    let mut t = track("t1", "video", vec![]);
    t.kind = Field::Absent;
    assert_eq!(validate_render_source(&source(vec![t])).unwrap_err(), "track 't1' kind is required");

    let mut c = clip("c", 10, 20);
    c.begin_ms = Field::Absent;
    c.id = None;
    assert_eq!(
        validate_render_source(&source(vec![track("t1", "video", vec![c])])).unwrap_err(),
        "clip 't1.<missing>' begin_ms is required"
    );

    let src = source(vec![track("t1", "video", vec![clip("c", 20, 20)])]);
    assert_eq!(
        validate_render_source(&src).unwrap_err(),
        "clip 't1.c' end_ms must be greater than begin_ms"
    );

    let src = source(vec![track("music", "audio", vec![clip("m", 0, 10)])]);
    assert_eq!(
        validate_render_source(&src).unwrap_err(),
        "at least one non-audio visual track is required"
    );
}

#[test]
fn clip_begin_falls_back_to_begin_only_when_absent() {
    let mut c = clip("c", 0, 100);
    c.begin_ms = Field::Absent;
    c.begin = Field::Val(50);
    assert!(validate_render_source(&source(vec![track("t", "video", vec![c])])).is_ok());

    let mut c = clip("c", 0, 100);
    c.begin_ms = Field::Wrong;
    c.begin = Field::Val(50);
    assert_eq!(
        validate_render_source(&source(vec![track("t", "video", vec![c])])).unwrap_err(),
        "clip 't.c' begin_ms is required"
    );
}

#[test]
fn stage_background_accepts_colours_and_rejects_others() {
    assert_eq!(sanitize_stage_background("  Canvas "), Some("Canvas".to_string()));
    assert_eq!(sanitize_stage_background("rgba(0,0,0,0.5)"), Some("rgba(0,0,0,0.5)".to_string()));
    assert_eq!(sanitize_stage_background("#abcd"), Some("#abcd".to_string()));
    assert_eq!(sanitize_stage_background("#abcg"), None);
    assert_eq!(sanitize_stage_background("#abcde"), None);
    assert_eq!(sanitize_stage_background("url(x)"), None);
    assert_eq!(sanitize_stage_background("   "), None);
    assert_eq!(sanitize_stage_background(&format!("rgb({})", "1".repeat(95))), None);
}

#[test]
fn stage_background_prefers_theme_fields_in_order() {
    let mut theme = no_theme();
    theme.background = Some("nope".to_string());
    theme.bg = Some("white".to_string());
    theme.colors_background = Some("black".to_string());
    assert_eq!(resolve_stage_background(&theme), "white");
}

#[test]
fn css_property_is_read_between_colon_and_semicolon() {
    let css: Vec<char> = "a{--x : red ;}".chars().collect();
    let name: Vec<char> = "--x".chars().collect();
    let got = extract_css_custom_property(&css, &name).map(|v| v.into_iter().collect::<String>());
    assert_eq!(got, Some("red".to_string()));
    let css: Vec<char> = "a{--x: red}".chars().collect();
    assert_eq!(extract_css_custom_property(&css, &name), None);
}

#[test]
fn resolution_names_round_trip() {
    for r in [ExportResolution::P720, ExportResolution::P1080, ExportResolution::K4] {
        assert_eq!(ExportResolution::parse_str(r.as_str()), Some(r));
    }
    assert_eq!(ExportResolution::parse_str(" 4K "), Some(ExportResolution::K4));
    assert_eq!(ExportResolution::parse_str("8k"), None);
    assert_eq!(ExportResolution::K4.viewport(), (3840, 2160));
    assert_eq!(ExportResolution::P720.bitrate_bps(), 8_000_000);
    assert_eq!(ExportResolution::P1080.codec(), VideoCodec::H264);
}

#[test]
fn export_preset_follows_override_meta_and_viewport() {
    let p = resolve_export_preset(&Field::Absent, Some(ExportResolution::K4), (1920, 1080), 1).unwrap();
    assert_eq!(p.viewport, (3840, 2160));
    assert_eq!(p.bitrate_bps, 80_000_000);
    assert_eq!(p.codec, VideoCodec::HevcMain8);

    let p = resolve_export_preset(&Field::Val("720p".to_string()), None, (1920, 1080), 5).unwrap();
    assert_eq!(p.viewport, (1280, 720));
    assert_eq!(p.bitrate_bps, 8_000_000);

    let p = resolve_export_preset(&Field::Absent, None, (3840, 2160), 7).unwrap();
    assert_eq!(p.viewport, (3840, 2160));
    assert_eq!(p.bitrate_bps, 7);
    assert_eq!(p.codec, VideoCodec::HevcMain8);

    let p = resolve_export_preset(&Field::Wrong, None, (1000, 1000), 7).unwrap();
    assert_eq!(p.viewport, (1920, 1080));
    assert_eq!(p.bitrate_bps, 20_000_000);

    match resolve_export_preset(&Field::Val("8k".to_string()), None, (1920, 1080), 5) {
        Err(RecordError::BundleLoadFailed(m)) => {
            assert_eq!(m, "meta.export.resolution must be '720p', '1080p' or '4k' (got '8k')")
        },
        other => panic!("unexpected {other:?}"),
    }
}

#[test]
fn export_profiles_and_their_limits() {
    let p = source_export_profile(" Final-Fast ", None, None, None).unwrap();
    assert_eq!(p.name, "final-fast");
    assert_eq!(p.resolution, ExportResolution::P1080);
    assert_eq!((p.fps, p.parallel), (60, 2));
    assert!(matches!(source_export_profile("nope", None, None, None), Err(ProfileError::UnknownProfile(_))));
    assert!(matches!(
        source_export_profile("draft", Some("4k"), None, None),
        Ok(SourceExportProfile { resolution: ExportResolution::K4, fps: 30, .. })
    ));
    assert!(matches!(source_export_profile("final", Some("4k"), None, None), Err(ProfileError::K4Fps(60))));
    assert!(matches!(source_export_profile("draft", None, Some(24), None), Err(ProfileError::BadFps(24))));
    assert!(matches!(source_export_profile("draft", None, None, Some(5)), Err(ProfileError::BadParallel(5))));
    let combo = SourceExportProfile { name: "x", resolution: ExportResolution::K4, fps: 30, parallel: 3 };
    assert!(matches!(validate_source_export_combo(combo), Err(ProfileError::K4Parallel(3))));
}

#[test]
fn parallel_counts_are_bounded() {
    assert_eq!(default_parallel_for_viewport(3840, 2160), 2);
    assert_eq!(default_parallel_for_viewport(1920, 1080), 1);
    assert_eq!(validate_requested_parallel(3).unwrap(), 3);
    match validate_requested_parallel(9) {
        Err(RecordError::PipelineError(m)) => assert_eq!(m, "parallel must be <= 4 (got 9)"),
        other => panic!("unexpected {other:?}"),
    }
    match validate_requested_parallel(0) {
        Err(RecordError::PipelineError(m)) => assert_eq!(m, "parallel must be >= 1"),
        other => panic!("unexpected {other:?}"),
    }
    assert_eq!(resolve_requested_parallel(None, 3840, 2160).unwrap(), 2);
    assert!(resolve_requested_parallel(Some(3), 3840, 2160).is_err());
    assert_eq!(compute_frame_ranges(0, 3), vec![]);
    assert_eq!(compute_frame_ranges(2, 3), vec![(0, 0), (0, 0), (0, 2)]);
}

#[test]
fn segment_command_line_is_built_from_the_config() {
    let cfg = RecordConfig {
        bundle: "/tmp/page.html".to_string(),
        output: "/tmp/out.mp4".to_string(),
        width: 1280,
        height: 720,
        fps: 30,
        bitrate_bps: 8_000_000,
        codec: VideoCodec::H264,
        max_duration_s: 12,
        frame_range: None,
    };
    let args = segment_args(&cfg, "/tmp/out.seg01.mp4", 30, 60);
    assert_eq!(
        args,
        vec![
            "/tmp/page.html", "-o", "/tmp/out.seg01.mp4", "--fps", "30", "--bitrate", "8000000",
            "--max-duration", "12", "--res", "1280x720", "--frame-range", "30,60",
        ]
    );
    assert_eq!(segment_file_name("out", 3), "out.seg03.mp4");
    assert_eq!(segment_file_name("out", 12), "out.seg12.mp4");
    assert_eq!(segment_res_arg(3840, 2160), "4k");
    assert_eq!(frame_range_arg(0, 9), "0,9");
    assert_eq!(
        concat_list(&vec!["/a.mp4".to_string(), "/b c.mp4".to_string()]),
        "file '/a.mp4'\nfile '/b c.mp4'"
    );
}

#[test]
fn segment_progress_never_moves_back() {
    let mut slots = vec![0u64, 0u64];
    assert_eq!(record_segment_progress(&mut slots, 0, 10, 50, 100), Some(10));
    assert_eq!(record_segment_progress(&mut slots, 0, 5, 50, 100), Some(10));
    assert_eq!(record_segment_progress(&mut slots, 1, 80, 50, 100), Some(60));
    assert_eq!(slots, vec![10, 50]);
    assert_eq!(record_segment_progress(&mut slots, 2, 1, 1, 100), None);
}

#[test]
fn error_codes_and_exit_codes() {
    assert_eq!(RecordError::NoFrames.code_str(), "NO_FRAMES");
    assert_eq!(RecordError::BundleLoadFailed("x".to_string()).code_str(), "BUNDLE_LOAD_FAILED");
    assert!(RecordError::NoFrames.exit_code() != 0);
    assert!(matches!(
        RecordError::from_pipeline(PipelineError::IoError("disk".to_string())),
        RecordError::PipelineError(_)
    ));
    assert!(SnapshotError::Io("x".to_string()).exit_code() != 0);
}

#[test]
fn data_url_audio_is_decoded_from_its_base64_payload() {
    assert_eq!(decode_data_audio("data:audio/wav;base64,aGk=").unwrap(), b"hi".to_vec());
    assert_eq!(decode_data_audio("data:audio/wav,hi").unwrap_err(), "data audio src must contain ;base64,");
    let err = decode_data_audio("data:audio/wav;base64,@@@@").unwrap_err();
    assert!(err.starts_with("decode data audio src: "), "{err}");
    assert_eq!(data_audio_extension("data:audio/wave;base64,"), "wav");
    assert_eq!(data_audio_extension("data:audio/aac;base64,"), "m4a");
    assert_eq!(data_audio_extension("data:audio/ogg;base64,"), "mp3");
    assert_eq!(temp_audio_file_name(Some("clip"), 2, "wav"), "clip.audio-2.wav");
    assert_eq!(temp_audio_file_name(None, 0, "mp3"), "capy-timeline-export.audio-0.mp3");
}

#[test]
fn file_urls_are_percent_decoded() {
    assert_eq!(hex_value(b'a').unwrap(), 10);
    assert_eq!(hex_value(b'G').unwrap_err(), "invalid percent encoding");
    assert_eq!(percent_decode_bytes(b"a%20b%").unwrap(), b"a b%".to_vec());
    assert_eq!(percent_decode("caf%C3%A9").unwrap(), "café");
    assert_eq!(percent_decode("%zz").unwrap_err(), "invalid percent encoding");
    assert!(percent_decode("%FF").is_err());
    match classify_audio_src("file:///tmp/a%20b.mp3").unwrap() {
        AudioSource::File(p) => assert_eq!(p, "/tmp/a b.mp3"),
        other => panic!("unexpected {other:?}"),
    }
    assert!(matches!(classify_audio_src("data:audio/mp3;base64,AA==").unwrap(), AudioSource::Data));
    match classify_audio_src("sounds/a.mp3").unwrap() {
        AudioSource::Path(p) => assert_eq!(p, "sounds/a.mp3"),
        other => panic!("unexpected {other:?}"),
    }
}

#[test]
fn recording_duration_is_capped_by_max_duration() {
    assert_eq!(recording_duration_ms(Some(4500), 10).unwrap(), 4500);
    assert_eq!(recording_duration_ms(Some(45_000), 10).unwrap(), 10_000);
    assert_eq!(recording_duration_ms(None, 3).unwrap(), 3000);
    assert_eq!(recording_duration_ms(Some(0), 3).unwrap(), 3000);
    match recording_duration_ms(None, 0) {
        Err(RecordError::BundleLoadFailed(m)) => {
            assert_eq!(m, "duration resolves to 0 (check --max-duration and bundle getDuration)")
        },
        other => panic!("unexpected {other:?}"),
    }
}

#[test]
fn frame_span_clips_segment_ranges() {
    assert_eq!(frame_span(None, 90).unwrap(), (0, 90));
    assert_eq!(frame_span(Some((30, 120)), 90).unwrap(), (30, 90));
    assert!(matches!(frame_span(Some((90, 120)), 90), Err(RecordError::NoFrames)));
    assert!(matches!(frame_span(None, 0), Err(RecordError::NoFrames)));
    assert!(!is_progress_frame(0));
    assert!(is_progress_frame(30));
    assert!(!is_progress_frame(31));
}

#[test]
fn record_opts_copy_the_config_in_bt709() {
    let cfg = RecordConfig {
        bundle: "/tmp/page.html".to_string(),
        output: "/tmp/out.mp4".to_string(),
        width: 3840,
        height: 2160,
        fps: 60,
        bitrate_bps: 40_000_000,
        codec: VideoCodec::HevcMain8,
        max_duration_s: 30,
        frame_range: Some((0, 10)),
    };
    let o = record_opts_for(&cfg);
    assert_eq!((o.width, o.height, o.fps, o.bitrate_bps), (3840, 2160, 60, 40_000_000));
    assert_eq!(o.codec, VideoCodec::HevcMain8);
    assert_eq!(o.output, "/tmp/out.mp4");
    assert_eq!(o.color, ColorSpec::BT709_SDR_8bit);
}

#[test]
fn segment_events_become_local_progress() {
    assert_eq!(segment_local_frames(SegmentEvent::Frame { seq: 99 }, 100, 50), None);
    assert_eq!(segment_local_frames(SegmentEvent::Frame { seq: 100 }, 100, 50), Some(1));
    assert_eq!(segment_local_frames(SegmentEvent::Frame { seq: 400 }, 100, 50), Some(50));
    assert_eq!(segment_local_frames(SegmentEvent::EncodeProgress { frames_encoded: 130 }, 100, 50), Some(30));
    assert_eq!(segment_local_frames(SegmentEvent::EncodeProgress { frames_encoded: 30 }, 100, 50), Some(30));
    assert_eq!(segment_local_frames(SegmentEvent::Done, 100, 50), Some(50));
    assert_eq!(segment_local_frames(SegmentEvent::Other, 100, 50), None);
}

#[test]
fn render_source_text_is_read_and_validated() {
    let text = r##"{"schema_version":"capy.timeline.render_source.v1","duration_ms":1000,
        "viewport":{"w":1920,"h":1080},"components":{"a":{},"b":{}},
        "theme":{"colors":{"background":"#101010"}},
        "tracks":[{"id":"t1","kind":"scene","clips":[{"id":"c1","begin_ms":0,"end_ms":1000}]}]}"##;
    let src = render_source_from_text(text).expect("parses");
    assert!(src.is_object);
    assert_eq!(src.components, Some(2));
    assert_eq!(src.theme.colors_background.as_deref(), Some("#101010"));
    assert!(matches!(src.duration_ms, Field::Val(1000)));
    match &src.tracks {
        Field::Val(ts) => {
            assert_eq!(ts.len(), 1);
            assert!(matches!(&ts[0].kind, Field::Val(k) if k == "scene"));
            assert!(matches!(&ts[0].clips, Field::Val(cs) if cs.len() == 1 && cs[0].id.as_deref() == Some("c1")));
        },
        _ => panic!("tracks not read"),
    }
    let direct = validate_render_source(&src);
    let from_text = validate_render_source_text(text);
    assert_eq!(direct.is_ok(), from_text.is_ok());
    assert!(validate_render_source_text("{nope").unwrap_err().starts_with("source JSON: "));
    assert!(matches!(render_source_from_text("[1]").map(|s| s.is_object), Ok(false)));
    let wrong = render_source_from_text(r#"{"duration_ms":"x","viewport":3,"tracks":{}}"#).unwrap();
    assert!(matches!(wrong.duration_ms, Field::Wrong));
    assert!(matches!(wrong.viewport, Field::Wrong));
    assert!(matches!(wrong.tracks, Field::Wrong));
    assert!(matches!(wrong.schema_version, Field::Absent));
}

#[test]
fn meta_resolution_is_read_by_json_type() {
    assert!(matches!(meta_resolution(r#"{"meta":{"export":{"resolution":"4k"}}}"#), Field::Val(ref r) if r == "4k"));
    assert!(matches!(meta_resolution(r#"{"meta":{"export":{"resolution":4}}}"#), Field::Wrong));
    assert!(matches!(meta_resolution(r#"{"meta":{"export":{}}}"#), Field::Absent));
    assert!(matches!(meta_resolution(r#"{"meta":[1]}"#), Field::Absent));
    assert!(matches!(meta_resolution(r#"{}"#), Field::Absent));
}

#[test]
fn audio_clips_are_taken_from_audio_tracks_in_order() {
    let source = r#"{"tracks":[
        {"kind":"video","clips":[{"params":{"src":"v.mp4"}}]},
        {"kind":"audio","clips":[
            {"begin":500,"params":{"src":"a.wav","volume":0.5}},
            {"params":{}},
            {"begin_ms":1200,"params":{"src":"b.wav"}},
            {"begin":"x","begin_ms":9,"params":{"src":"c.wav"}}
        ]}
    ]}"#;
    let clips = audio_clips(source).unwrap();
    let got: Vec<(&str, u64, usize, usize)> =
        clips.iter().map(|c| (c.src.as_str(), c.begin_ms, c.track, c.clip)).collect();
    assert_eq!(got, vec![("a.wav", 500, 1, 0), ("b.wav", 1200, 1, 2), ("c.wav", 0, 1, 3)]);
    assert!(audio_clips(r#"{"tracks":[{"kind":"video","clips":[]}]}"#).unwrap().is_empty());
    assert!(audio_clips(r#"{}"#).unwrap().is_empty());
    assert_eq!(
        audio_clips(r#"{"tracks":[{"kind":"audio","clips":[{"params":{}}]}]}"#).err().as_deref(),
        Some("audio track exists, but no audio clip has params.src")
    );
}
