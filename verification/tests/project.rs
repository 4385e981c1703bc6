use fablr_core::db::Db;
use fablr_core::error::stringify_err;
use fablr_core::error::DbError;
use fablr_core::error::DbResult;
use fablr_core::intent::intent_default_config;
use fablr_core::intent::intent_to_json;
use fablr_core::intent::ContentIntent;
use fablr_core::intent::IntentConfig;
use fablr_core::project::create;
use fablr_core::project::create_at;
use fablr_core::project::job_to_dto;
use fablr_core::project::list;
use fablr_core::project::load;
use fablr_core::project::project_create;
use fablr_core::project::project_delete;
use fablr_core::project::project_list;
use fablr_core::project::project_load;
use fablr_core::project::project_save;
use fablr_core::project::save;
use fablr_core::project::save_at;
use fablr_core::project::CreateProjectInput;
use fablr_core::project::ProjectService;
use fablr_core::project::SaveProjectInput;
use fablr_core::rows::F32Bits;
use fablr_core::rows::F64Bits;
use fablr_core::rows::JobRow;
use fablr_core::rows::ProjectRow;
use serde::de::Error;
use serde::de::MapAccess;
use serde::de::SeqAccess;
use serde::de::Visitor;
use serde::Deserialize;
use serde::Deserializer;

struct StoredIntent(ContentIntent);

struct StoredConfig(IntentConfig);

struct IntentVisitor;

struct ConfigVisitor;

impl<'de> Visitor<'de> for IntentVisitor {
    type Value = StoredIntent;

    fn expecting(&self, formatter: &mut std::fmt::Formatter) -> std::fmt::Result {
        formatter.write_str("an intent")
    }

    fn visit_str<E: Error>(self, name: &str) -> Result<StoredIntent, E> {
        match name {
            "short-drama" => Ok(StoredIntent(ContentIntent::ShortDrama)),
            "movie-review" => Ok(StoredIntent(ContentIntent::MovieReview)),
            other => Err(E::unknown_variant(other, &["short-drama", "movie-review"])),
        }
    }
}

impl<'de> Deserialize<'de> for StoredIntent {
    fn deserialize<D: Deserializer<'de>>(deserializer: D) -> Result<StoredIntent, D::Error> {
        deserializer.deserialize_str(IntentVisitor)
    }
}

impl<'de> Visitor<'de> for ConfigVisitor {
    type Value = StoredConfig;

    fn expecting(&self, formatter: &mut std::fmt::Formatter) -> std::fmt::Result {
        formatter.write_str("struct IntentConfig")
    }

    fn visit_seq<A: SeqAccess<'de>>(self, mut items: A) -> Result<StoredConfig, A::Error> {
        match items.next_element::<StoredIntent>()? {
            Some(intent) => Ok(StoredConfig(IntentConfig { intent: intent.0 })),
            None => Err(A::Error::invalid_length(0, &"struct IntentConfig with 1 element")),
        }
    }

    fn visit_map<A: MapAccess<'de>>(self, mut members: A) -> Result<StoredConfig, A::Error> {
        let mut found: Option<StoredIntent> = None;
        while let Some(key) = members.next_key::<String>()? {
            if key != "intent" {
                members.next_value::<serde_json::Value>()?;
            } else if found.is_some() {
                return Err(A::Error::duplicate_field("intent"));
            } else {
                found = Some(members.next_value()?);
            }
        }
        match found {
            Some(intent) => Ok(StoredConfig(IntentConfig { intent: intent.0 })),
            None => Err(A::Error::missing_field("intent")),
        }
    }
}

impl<'de> Deserialize<'de> for StoredConfig {
    fn deserialize<D: Deserializer<'de>>(deserializer: D) -> Result<StoredConfig, D::Error> {
        deserializer.deserialize_struct("IntentConfig", &["intent"], ConfigVisitor)
    }
}

fn read_intent(text: &str) -> Result<IntentConfig, serde_json::Error> {
    serde_json::from_str::<StoredConfig>(text).map(|config| config.0)
}

type Service = ProjectService<fn(&str) -> Result<IntentConfig, serde_json::Error>>;

fn fresh_service() -> Service {
    ProjectService::new(Db::new(), read_intent)
}

fn sample_input(name: &str) -> CreateProjectInput {
    CreateProjectInput {
        id: None,
        name: name.to_string(),
        video_path: "/v.mp4".to_string(),
        duration_secs: F64Bits(120.0f64.to_bits()),
        metadata: serde_json::from_str(r#"{"width": 1920, "height": 1080}"#).unwrap(),
        intent: None,
    }
}

fn service_delete(svc: &mut Service, id: &str) -> DbResult<()> {
    svc.db_mut().delete_project(id)
}

fn job(project_id: &str, phase_status_json: &str) -> JobRow {
    JobRow {
        id: "j1".to_string(),
        project_id: project_id.to_string(),
        phase: "understanding".to_string(),
        phase_status_json: phase_status_json.to_string(),
        progress_pct: F32Bits(12.5f32.to_bits()),
        error_json: Some("oops".to_string()),
        created_at: 0,
        updated_at: 1700000000,
    }
}

#[test]
fn create_then_list_then_load() {
    let mut svc = fresh_service();
    let p1 = create(&mut svc, sample_input("项目 A")).unwrap();
    let p2 = create(&mut svc, sample_input("项目 B")).unwrap();

    assert_eq!(p1.name, "项目 A");
    assert!(p1.id.starts_with("project_"));

    let all = list(&svc).unwrap();
    assert_eq!(all.len(), 2);

    let got = load(&svc, &p2.id).unwrap();
    assert_eq!(got.name, "项目 B");
}

#[test]
fn save_updates_name_and_intent() {
    let mut svc = fresh_service();
    let p = create(&mut svc, sample_input("old name")).unwrap();

    let save_input = SaveProjectInput {
        id: p.id.clone(),
        name: "new name".to_string(),
        intent: intent_default_config(ContentIntent::MovieReview),
        video_path: p.video_path.clone(),
        subtitle_path: Some("/s.srt".to_string()),
    };
    let updated = save(&mut svc, save_input).unwrap();
    assert_eq!(updated.name, "new name");
    assert_eq!(updated.intent.intent, ContentIntent::MovieReview);
    assert_eq!(updated.subtitle_path.as_deref(), Some("/s.srt"));
}

#[test]
fn delete_removes_project() {
    let mut svc = fresh_service();
    let p = create(&mut svc, sample_input("x")).unwrap();
    service_delete(&mut svc, &p.id).unwrap();
    assert!(matches!(load(&svc, &p.id), Err(DbError::NotFound(_))));
}

#[test]
fn ids_end_with_the_running_number() {
    let mut svc = fresh_service();
    let mut seen: Vec<String> = Vec::new();
    for _ in 0..20 {
        let p = create(&mut svc, sample_input("x")).unwrap();
        assert!(!seen.contains(&p.id));
        seen.push(p.id);
    }
    assert!(seen[0].ends_with("_0"));
    assert!(seen[15].ends_with("_f"));
    assert!(seen[16].ends_with("_10"));
    assert_eq!(list(&svc).unwrap().len(), 20);
}

#[test]
fn a_created_project_shows_what_was_given() {
    let mut svc = fresh_service();
    let mut input = sample_input("name");
    input.intent = Some(intent_default_config(ContentIntent::MovieReview));
    let created = create_at(&mut svc, input, "given".to_string(), 1700000000).unwrap();
    assert_eq!(created.id, "given");
    assert_eq!(created.created_at, "2023-11-14T22:13:20Z");
    assert_eq!(created.updated_at, "2023-11-14T22:13:20Z");
    assert_eq!(created.video_path, "/v.mp4");
    assert_eq!(created.subtitle_path, None);
    assert!(created.latest_job.is_none());
    assert_eq!(svc.db().get_project("given").unwrap().intent_json, r#"{"intent":"movie-review"}"#);
    let loaded = load(&svc, "given").unwrap();
    assert_eq!(loaded.created_at, created.created_at);
    assert_eq!(loaded.intent.intent, ContentIntent::MovieReview);
    assert_eq!(loaded.clone().name, "name");
}

#[test]
fn an_id_in_the_input_is_taken() {
    let mut svc = fresh_service();
    let mut input = sample_input("x");
    input.id = Some("mine".to_string());
    assert_eq!(create(&mut svc, input).unwrap().id, "mine");
    let next = create(&mut svc, sample_input("y")).unwrap();
    assert!(next.id.ends_with("_0"));
}

#[test]
fn creating_over_a_project_keeps_its_time_of_creation() {
    let mut svc = fresh_service();
    create_at(&mut svc, sample_input("a"), "p".to_string(), 0).unwrap();
    let second = create_at(&mut svc, sample_input("b"), "p".to_string(), 86400).unwrap();
    assert_eq!(second.created_at, "1970-01-02T00:00:00Z");
    let loaded = load(&svc, "p").unwrap();
    assert_eq!(loaded.name, "b");
    assert_eq!(loaded.created_at, "1970-01-01T00:00:00Z");
    assert_eq!(loaded.updated_at, "1970-01-02T00:00:00Z");
    assert_eq!(list(&svc).unwrap().len(), 1);
}

#[test]
fn saving_keeps_the_time_of_creation() {
    let mut svc = fresh_service();
    create_at(&mut svc, sample_input("a"), "p".to_string(), 0).unwrap();
    let input = SaveProjectInput {
        id: "p".to_string(),
        name: "b".to_string(),
        intent: intent_default_config(ContentIntent::ShortDrama),
        video_path: "/w.mp4".to_string(),
        subtitle_path: None,
    };
    let saved = save_at(&mut svc, input.clone(), 3661).unwrap();
    assert_eq!(saved.created_at, "1970-01-01T00:00:00Z");
    assert_eq!(saved.updated_at, "1970-01-01T01:01:01Z");
    let loaded = load(&svc, "p").unwrap();
    assert_eq!(loaded.updated_at, saved.updated_at);
    assert_eq!(loaded.video_path, "/w.mp4");
    let mut missing = input;
    missing.id = "q".to_string();
    assert!(matches!(save_at(&mut svc, missing, 1), Err(DbError::NotFound(_))));
    assert_eq!(list(&svc).unwrap().len(), 1);
}

#[test]
fn the_latest_job_is_shown() {
    let mut svc = fresh_service();
    create_at(&mut svc, sample_input("a"), "p".to_string(), 0).unwrap();
    svc.db_mut().upsert_job(&job("p", r#"{ "step" : 1 }"#)).unwrap();
    let loaded = load(&svc, "p").unwrap();
    let shown = loaded.latest_job.unwrap();
    assert_eq!(shown.id, "j1");
    assert_eq!(shown.phase_status["step"], 1);
    assert_eq!(f32::from_bits(shown.progress_pct.0), 12.5);
    assert_eq!(shown.error.as_deref(), Some("oops"));
    assert_eq!(shown.created_at, "1970-01-01T00:00:00Z");
    assert_eq!(shown.updated_at, "2023-11-14T22:13:20Z");
}

#[test]
fn unreadable_phase_status_is_invalid_data() {
    let mut svc = fresh_service();
    create_at(&mut svc, sample_input("a"), "p".to_string(), 0).unwrap();
    create_at(&mut svc, sample_input("b"), "q".to_string(), 0).unwrap();
    svc.db_mut().upsert_job(&job("q", "{")).unwrap();
    match load(&svc, "q") {
        Err(DbError::InvalidData(message)) => {
            assert_eq!(message, "serde_json: EOF while parsing an object at line 1 column 1")
        }
        other => panic!("{:?}", other),
    }
    assert!(load(&svc, "p").is_ok());
    assert!(matches!(list(&svc), Err(DbError::InvalidData(_))));
    assert!(matches!(job_to_dto(job("q", "nonsense")), Err(DbError::InvalidData(_))));
}

fn store_intent(svc: &mut Service, intent_json: &str) {
    svc.db_mut()
        .upsert_project(&ProjectRow {
            id: "p".to_string(),
            name: "x".to_string(),
            intent_json: intent_json.to_string(),
            video_path: "/v.mp4".to_string(),
            subtitle_path: None,
            created_at: 0,
            updated_at: 0,
        })
        .unwrap();
}

#[test]
fn unreadable_intents_fail_with_the_message_of_the_parser() {
    let mut svc = fresh_service();
    for (text, expected) in [
        ("{}", "missing field `intent` at line 1 column 2"),
        ("7", "invalid type: integer `7`, expected struct IntentConfig at line 1 column 1"),
        ("[", "EOF while parsing a list at line 1 column 1"),
        (
            r#"{"intent":"opera"}"#,
            "unknown variant `opera`, expected `short-drama` or `movie-review` at line 1 column 17",
        ),
        (
            r#"{"intent":"short-drama","intent":"movie-review"}"#,
            "duplicate field `intent` at line 1 column 32",
        ),
    ] {
        store_intent(&mut svc, text);
        match load(&svc, "p") {
            Err(DbError::InvalidData(message)) => {
                assert_eq!(message, format!("serde_json: {}", expected))
            }
            other => panic!("{:?}", other),
        }
        assert_eq!(
            project_load("p".to_string(), &svc).unwrap_err(),
            format!("invalid data: serde_json: {}", expected)
        );
    }
}

#[test]
fn unreadable_intent_comes_before_an_unreadable_job() {
    let mut svc = fresh_service();
    store_intent(&mut svc, "{}");
    svc.db_mut().upsert_job(&job("p", "[")).unwrap();
    match load(&svc, "p") {
        Err(DbError::InvalidData(message)) => {
            assert_eq!(message, "serde_json: missing field `intent` at line 1 column 2")
        }
        other => panic!("{:?}", other),
    }
    assert!(matches!(list(&svc), Err(DbError::InvalidData(_))));
}

#[test]
fn intents_are_read_back() {
    for intent in [ContentIntent::ShortDrama, ContentIntent::MovieReview] {
        let config = intent_default_config(intent);
        let text = intent_to_json(&config).unwrap();
        assert_eq!(read_intent(&text).unwrap(), config);
    }
    let mut svc = fresh_service();
    for text in [r#" { "other": 3, "intent" : "movie-review" } "#, r#"["movie-review"]"#] {
        store_intent(&mut svc, text);
        assert_eq!(load(&svc, "p").unwrap().intent.intent, ContentIntent::MovieReview);
    }
    let text = intent_to_json(&intent_default_config(ContentIntent::ShortDrama)).unwrap();
    assert_eq!(text, r#"{"intent":"short-drama"}"#);
}

#[test]
fn errors_are_told_as_messages() {
    assert_eq!(stringify_err(DbError::NotFound("p".to_string())), "not found: p");
    assert_eq!(stringify_err(DbError::InvalidData("m".to_string())), "invalid data: m");
    assert_eq!(stringify_err(DbError::Constraint("k".to_string())), "constraint violated: k");
}

#[test]
fn commands_answer_with_messages() {
    let mut svc = fresh_service();
    let p = project_create(sample_input("one"), &mut svc).unwrap();
    assert_eq!(project_list(&svc).unwrap().len(), 1);
    assert_eq!(project_load(p.id.clone(), &svc).unwrap().name, "one");
    let input = SaveProjectInput {
        id: p.id.clone(),
        name: "two".to_string(),
        intent: p.intent,
        video_path: p.video_path.clone(),
        subtitle_path: None,
    };
    assert_eq!(project_save(input.clone(), &mut svc).unwrap().name, "two");
    project_delete(p.id.clone(), &mut svc).unwrap();
    let gone = project_load(p.id.clone(), &svc).unwrap_err();
    assert_eq!(gone, format!("not found: {}", p.id));
    assert_eq!(project_save(input, &mut svc).unwrap_err(), gone);
}
