use fablr_core::analysis::begin_analysis;
use fablr_core::analysis::highlights_found;
use fablr_core::analysis::metadata_read;
use fablr_core::analysis::segments_cut;
use fablr_core::analysis::storyline_built;
use fablr_core::analysis::storyline_payload;
use fablr_core::analysis::storyline_written;
use fablr_core::analysis::transcribed;
use fablr_core::analysis::AnalyzeProductionInput;
use fablr_core::analysis::Progress;
use fablr_core::analysis::UnderstandingStage;
use fablr_core::analysis::WriteFailure;
use fablr_core::db::Db;
use fablr_core::document::document_value;
use fablr_core::fixtures::cache_row;
use fablr_core::rows::F32Bits;
use fablr_core::rows::F64Bits;
use fablr_core::speech::batch_rounds;
use fablr_core::speech::plan_batch;
use fablr_core::speech::tries_again;
use fablr_core::speech::tts_cache_key;
use fablr_core::speech::SpeechContent;
use fablr_core::speech::SpeechRequest;
use fablr_core::storyline::artifacts_dir;
use fablr_core::storyline::build_storyline_json;
use fablr_core::storyline::scene_type_of;
use fablr_core::storyline::DocumentMember;
use fablr_core::storyline::Field;
use fablr_core::storyline::HighlightSegment;
use fablr_core::storyline::Scalar;
use fablr_core::storyline::SubtitleResult;
use fablr_core::storyline::SubtitleSegment;
use fablr_core::storyline::VideoMetadataResult;
use fablr_core::storyline::VideoSegment;
use fablr_core::translate::response_unreadable;
use fablr_core::translate::spawn_failed;
use fablr_core::translate::translate_output;
use fablr_core::translate::translate_request;
use fablr_core::translate::translate_response;
use fablr_core::translate::MyMemoryResponse;
use fablr_core::translate::ResponseData;

fn decimal_of(x: f64) -> F64Bits {
    F64Bits(x.to_bits())
}

fn segment(kind: &str, start_ms: u64) -> VideoSegment {
    VideoSegment {
        start_ms,
        end_ms: start_ms + 1500,
        duration_ms: 1500,
        segment_type: kind.to_string(),
        confidence: decimal_of(0.5),
    }
}

fn metadata() -> VideoMetadataResult {
    VideoMetadataResult {
        duration: decimal_of(12.25),
        width: 1920,
        height: 1080,
        fps: decimal_of(25.0),
        codec: "h264".to_string(),
    }
}

fn subtitles() -> SubtitleResult {
    SubtitleResult {
        segments: vec![SubtitleSegment {
            start_ms: 10,
            end_ms: 20,
            text: "你好".to_string(),
            probability: decimal_of(0.75),
        }],
    }
}

fn highlight() -> HighlightSegment {
    HighlightSegment { start_ms: 1, end_ms: 2, score: decimal_of(0.9), reason: "loud".to_string() }
}

fn text_of(value: &Scalar) -> &str {
    match value {
        Scalar::Text(text) => text,
        other => panic!("{:?}", other),
    }
}

fn field<'a>(document: &'a [DocumentMember], key: &str) -> &'a Field {
    &document.iter().find(|m| m.key == key).unwrap().value
}

fn task() -> AnalyzeProductionInput {
    AnalyzeProductionInput {
        production_id: "prod-1".to_string(),
        video_path: " \t/v.mp4\n".to_string(),
        whisper_model: Some("base".to_string()),
        language: None,
    }
}

fn percents(list: &[Progress]) -> Vec<u32> {
    list.iter().map(|p| p.percent).collect()
}

#[test]
fn scene_types() {
    for (kind, name) in [
        ("dialogue", "dialog"),
        ("action", "action"),
        ("transition", "action"),
        ("silence", "text"),
        ("whatever", "text"),
        ("", "text"),
    ] {
        assert_eq!(scene_type_of(&segment(kind, 0)), name);
    }
}

#[test]
fn the_storyline_has_all_its_members() {
    let segments = vec![segment("dialogue", 0), segment("silence", 1500)];
    let document =
        build_storyline_json(&metadata(), &segments, &subtitles(), &[highlight()], 42, "now");
    let keys: Vec<&str> = document.iter().map(|m| m.key.as_str()).collect();
    assert_eq!(
        keys,
        vec![
            "version",
            "scenes",
            "subtitles",
            "highlights",
            "summary",
            "keyPoints",
            "confidence",
            "analyzeMs",
            "analyzedAt",
            "durationSecs",
            "width",
            "height",
            "fps",
            "codec"
        ]
    );
    match field(&document, "scenes") {
        Field::Objects(scenes) => {
            assert_eq!(scenes.len(), 2);
            let keys: Vec<&str> = scenes[1].iter().map(|m| m.key.as_str()).collect();
            assert_eq!(
                keys,
                vec!["id", "startTime", "endTime", "type", "score", "duration", "confidence"]
            );
            assert_eq!(text_of(&scenes[0][0].value), "scene-0");
            assert_eq!(text_of(&scenes[1][0].value), "scene-1");
            assert!(matches!(scenes[1][1].value, Scalar::Seconds(1500)));
            assert!(matches!(scenes[1][2].value, Scalar::Seconds(3000)));
            assert_eq!(text_of(&scenes[1][3].value), "text");
        }
        other => panic!("{:?}", other),
    }
    match field(&document, "subtitles") {
        Field::Objects(lines) => {
            assert_eq!(text_of(&lines[0][0].value), "subtitle-0");
            assert_eq!(text_of(&lines[0][3].value), "你好");
        }
        other => panic!("{:?}", other),
    }
    match field(&document, "highlights") {
        Field::Objects(marks) => assert_eq!(text_of(&marks[0][3].value), "loud"),
        other => panic!("{:?}", other),
    }
    match field(&document, "confidence") {
        Field::Scalar(Scalar::Real(bits)) => assert_eq!(f64::from_bits(bits.0), 0.8),
        other => panic!("{:?}", other),
    }
    assert!(matches!(field(&document, "version"), Field::Scalar(Scalar::Integer(1))));
    assert!(matches!(field(&document, "analyzeMs"), Field::Scalar(Scalar::Integer(42))));
    assert!(matches!(field(&document, "keyPoints"), Field::Objects(list) if list.is_empty()));
}

#[test]
fn artifacts_lie_below_the_production() {
    assert_eq!(artifacts_dir("p 1"), vec!["Fablr", "productions", "p 1", "artifacts"]);
}

#[test]
fn an_analysis_runs_through_its_stages() {
    let mut seen: Vec<u32> = Vec::new();
    let (list, stage) = begin_analysis(task()).unwrap();
    assert_eq!(stage.task.video_path, "/v.mp4");
    assert_eq!(list[0].stage.as_str(), "metadata");
    assert_eq!(list[0].message, "正在读取视频元数据...");
    seen.extend(percents(&list));
    let (list, stage) = metadata_read(stage, Ok(metadata())).unwrap();
    seen.extend(percents(&list));
    let (list, stage) = segments_cut(stage, vec![segment("action", 0), segment("action", 1)]);
    assert_eq!(list[0].message, "场景切分完成：2 段");
    seen.extend(percents(&list));
    let (list, stage) = transcribed(stage, Ok(subtitles())).unwrap();
    assert_eq!(list[0].message, "字幕转录完成：1 条");
    seen.extend(percents(&list));
    let (list, stage) = highlights_found(stage, vec![]);
    assert_eq!(list[0].message, "高光检测完成：0 段");
    seen.extend(percents(&list));
    let stage = storyline_built(stage, 7, "2024-01-01T00:00:00Z");
    assert_eq!(stage.components, vec!["Fablr", "productions", "prod-1", "artifacts"]);
    let (list, output) = storyline_written(stage, Ok("/a/storyline.json".to_string())).unwrap();
    assert_eq!(list[0].stage, UnderstandingStage::Done);
    seen.extend(percents(&list));
    assert_eq!(seen, vec![5, 15, 20, 40, 45, 70, 75, 90, 92, 100]);
    assert_eq!(output.storyline_path, "/a/storyline.json");
    assert_eq!(output.scenes_count, 2);
    assert_eq!(output.subtitles_count, 1);
    assert_eq!(output.highlights_count, 0);
    assert_eq!(f64::from_bits(output.duration_secs.0), 12.25);
}

#[test]
fn a_storyline_is_written_on_several_lines() {
    let value: serde_json::Value = serde_json::from_str(r#"{"version":1}"#).unwrap();
    assert_eq!(storyline_payload(&value).unwrap(), "{\n  \"version\": 1\n}");
}

#[test]
fn a_written_storyline_reads_back() {
    let segments = vec![segment("dialogue", 0), segment("action", 1500), segment("silence", 1)];
    let mut video = metadata();
    video.duration = decimal_of(f64::NAN);
    let document =
        build_storyline_json(&video, &segments, &subtitles(), &[highlight()], 42, "\"now\"\n");
    let value = document_value(
        &document,
        &|ms: u64| serde_json::Value::from(ms as f64 / 1000.0),
        &|bits: F64Bits| serde_json::Value::from(f64::from_bits(bits.0)),
    );
    let text = storyline_payload(&value).unwrap();
    let read: serde_json::Value = serde_json::from_str(&text).unwrap();
    assert_eq!(read, value);
    assert_eq!(read["scenes"].as_array().unwrap().len(), 3);
    assert_eq!(read["scenes"][1]["id"], "scene-1");
    assert_eq!(read["scenes"][1]["startTime"].as_f64(), Some(1.5));
    assert_eq!(read["scenes"][1]["type"], "action");
    assert_eq!(read["subtitles"].as_array().unwrap().len(), 1);
    assert_eq!(read["subtitles"][0]["text"], "你好");
    assert_eq!(read["highlights"].as_array().unwrap().len(), 1);
    assert_eq!(read["keyPoints"].as_array().unwrap().len(), 0);
    assert_eq!(read["version"].as_u64(), Some(1));
    assert_eq!(read["analyzeMs"].as_u64(), Some(42));
    assert_eq!(read["analyzedAt"], "\"now\"\n");
    assert_eq!(read["confidence"].as_f64(), Some(0.8));
    assert!(read["durationSecs"].is_null());
    assert_eq!(read.as_object().unwrap().len(), 14);
}

#[test]
fn of_two_members_with_a_key_the_last_one_counts() {
    let twice = vec![
        DocumentMember { key: "a".to_string(), value: Field::Scalar(Scalar::Integer(1)) },
        DocumentMember { key: "a".to_string(), value: Field::Scalar(Scalar::Integer(2)) },
    ];
    let none = |_: u64| serde_json::Value::Null;
    let value = document_value(&twice, &none, &|_: F64Bits| serde_json::Value::Null);
    assert_eq!(value["a"].as_u64(), Some(2));
    assert_eq!(value.as_object().unwrap().len(), 1);
}

#[test]
fn an_analysis_needs_a_video_and_a_production() {
    let mut input = task();
    input.video_path = " \u{3000}\u{85}\n".to_string();
    input.production_id = "".to_string();
    assert_eq!(begin_analysis(input).unwrap_err(), "视频路径不能为空");
    let mut input = task();
    input.production_id = "\u{2003} ".to_string();
    assert_eq!(begin_analysis(input).unwrap_err(), "productionId 不能为空");
    let mut input = task();
    input.production_id = " p ".to_string();
    assert_eq!(begin_analysis(input).unwrap().1.task.production_id, " p ");
    let mut input = task();
    input.video_path = "\u{200b}".to_string();
    assert_eq!(begin_analysis(input).unwrap().1.task.video_path, "\u{200b}");
}

#[test]
fn a_failure_ends_an_analysis() {
    let (_, stage) = begin_analysis(task()).unwrap();
    assert_eq!(metadata_read(stage, Err("no ffprobe".to_string())).unwrap_err(), "no ffprobe");
    let (_, stage) = begin_analysis(task()).unwrap();
    let (_, stage) = metadata_read(stage, Ok(metadata())).unwrap();
    let (_, stage) = segments_cut(stage, vec![]);
    assert_eq!(transcribed(stage, Err("no model".to_string())).unwrap_err(), "no model");
    for (failure, message) in [
        (WriteFailure::AppDataDir("e".to_string()), "无法获取 AppData 目录: e"),
        (WriteFailure::CreateDir("e".to_string()), "创建产物目录失败: e"),
        (WriteFailure::Serialize("e".to_string()), "序列化 storyline 失败: e"),
        (WriteFailure::Write("e".to_string()), "写入 storyline.json 失败: e"),
    ] {
        let (_, stage) = begin_analysis(task()).unwrap();
        let (_, stage) = metadata_read(stage, Ok(metadata())).unwrap();
        let (_, stage) = segments_cut(stage, vec![]);
        let (_, stage) = transcribed(stage, Ok(subtitles())).unwrap();
        let (_, stage) = highlights_found(stage, vec![highlight()]);
        let stage = storyline_built(stage, 0, "");
        assert_eq!(storyline_written(stage, Err(failure)).unwrap_err(), message);
    }
}

#[test]
fn translation_requests() {
    assert_eq!(
        translate_request(" hi & bye ", "en", "zh-CN").unwrap(),
        vec![
            "-s",
            "-G",
            "--data-urlencode",
            "q= hi & bye ",
            "--data-urlencode",
            "langpair=en|zh-CN",
            "https://api.mymemory.translated.net/get"
        ]
    );
    assert_eq!(translate_request(" \n\t", "en", "zh").unwrap_err(), "Text cannot be empty");
    assert_eq!(translate_request("", "en", "zh").unwrap_err(), "Text cannot be empty");
    assert_eq!(spawn_failed("gone"), "Failed to spawn curl: gone");
    assert_eq!(response_unreadable("eof"), "Failed to parse translation response: eof");
}

#[test]
fn translation_output() {
    assert_eq!(
        translate_output(true, "unused".to_string(), "好 ok".as_bytes()).unwrap(),
        "好 ok"
    );
    assert_eq!(translate_output(true, String::new(), &[b'a', 0xff]).unwrap(), "a\u{fffd}");
    assert_eq!(translate_output(false, "curl failed".to_string(), b"x").unwrap_err(), "curl failed");
}

#[test]
fn translation_answers() {
    let answer = |status: Option<i32>, text: Option<&str>| MyMemoryResponse {
        response_data: Some(ResponseData { translated_text: text.map(|t| t.to_string()) }),
        response_status: status,
    };
    assert_eq!(translate_response(answer(Some(200), Some("hallo"))).unwrap(), "hallo");
    assert_eq!(
        translate_response(answer(Some(403), Some("hallo"))).unwrap_err(),
        "Translation API error: status Some(403)"
    );
    assert_eq!(
        translate_response(answer(Some(-1), None)).unwrap_err(),
        "Translation API error: status Some(-1)"
    );
    assert_eq!(
        translate_response(answer(None, Some("hallo"))).unwrap_err(),
        "Translation API error: status None"
    );
    assert_eq!(translate_response(answer(Some(200), None)).unwrap_err(), "No translation returned");
    let empty = MyMemoryResponse { response_data: None, response_status: Some(200) };
    assert_eq!(translate_response(empty).unwrap_err(), "No translation returned");
}

fn speech(content: SpeechContent, voice: &str) -> SpeechRequest {
    SpeechRequest {
        content,
        voice: voice.to_string(),
        speed: F32Bits(1.0f32.to_bits()),
        format: "mp3".to_string(),
        backend: "edge".to_string(),
    }
}

#[test]
fn speech_keys_tell_requests_apart() {
    let a = speech(SpeechContent::Text("hi".to_string()), "v");
    assert_eq!(tts_cache_key(&a), "text:2:hi1:v3:mp34:edge3f800000");
    let b = speech(SpeechContent::Ssml("hi".to_string()), "v");
    assert_eq!(tts_cache_key(&b), "ssml:2:hi1:v3:mp34:edge3f800000");
    let c = speech(SpeechContent::Text("hi1:v".to_string()), "");
    assert_ne!(tts_cache_key(&a), tts_cache_key(&c));
}

#[test]
fn batches_have_limits_and_use_the_cache() {
    let mut db = Db::new();
    let known = speech(SpeechContent::Text("hi".to_string()), "v");
    db.upsert_tts_cache(&cache_row(&tts_cache_key(&known), "/hi.mp3", 1)).unwrap();
    let requests = vec![
        speech(SpeechContent::Text("new".to_string()), "v"),
        speech(SpeechContent::Text("hi".to_string()), "v"),
        speech(SpeechContent::Text("hi".to_string()), "w"),
    ];
    let plan = plan_batch(&db, &requests, None, None);
    assert_eq!((plan.max_concurrency, plan.max_retries), (3, 2));
    assert!(plan.cached[0].is_none());
    assert_eq!(plan.cached[1].as_ref().unwrap().audio_path, "/hi.mp3");
    assert!(plan.cached[2].is_none());
    assert_eq!(plan.keys[1], tts_cache_key(&known));
    assert_eq!(batch_rounds(&plan), vec![vec![0, 2]]);
    let single = plan_batch(&db, &requests, Some(1), None);
    assert_eq!(batch_rounds(&single), vec![vec![0], vec![2]]);
    let zero = plan_batch(&db, &requests, Some(0), None);
    assert_eq!(batch_rounds(&zero), vec![vec![0], vec![2]]);
    assert!(tries_again(&plan, 2) && !tries_again(&plan, 3));
    let plan = plan_batch(&db, &[], Some(8), Some(0));
    assert!(batch_rounds(&plan).is_empty() && !tries_again(&plan, 1));
    assert_eq!((plan.max_concurrency, plan.max_retries), (8, 0));
}
