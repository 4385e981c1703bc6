use fablr_core::db::Db;
use fablr_core::error::DbError;
use fablr_core::fixtures::assembly_row;
use fablr_core::fixtures::cache_row;
use fablr_core::fixtures::ensure_project;
use fablr_core::rows::ArtifactRow;
use fablr_core::rows::F32Bits;
use fablr_core::rows::JobRow;
use fablr_core::rows::ProjectRow;

fn fresh_db() -> Db {
    Db::new()
}

fn project(id: &str) -> ProjectRow {
    ProjectRow {
        id: id.to_string(),
        name: "x".to_string(),
        intent_json: "{}".to_string(),
        video_path: "/v.mp4".to_string(),
        subtitle_path: None,
        created_at: 0,
        updated_at: 0,
    }
}

fn job(id: &str, project_id: &str, created_at: i64) -> JobRow {
    JobRow {
        id: id.to_string(),
        project_id: project_id.to_string(),
        phase: "understanding".to_string(),
        phase_status_json: "{}".to_string(),
        progress_pct: F32Bits(0.0f32.to_bits()),
        error_json: None,
        created_at,
        updated_at: created_at,
    }
}

fn artifact(job_id: &str) -> ArtifactRow {
    ArtifactRow {
        id: 0,
        job_id: job_id.to_string(),
        phase: "understanding".to_string(),
        artifact_type: "storyline".to_string(),
        path: "/tmp/s.json".to_string(),
        metadata_json: None,
        created_at: 0,
    }
}

#[test]
fn open_runs_all_migrations() {
    let db = fresh_db();
    assert_eq!(db.schema_version().unwrap(), 3);
}

#[test]
fn project_crud_round_trip() {
    let mut db = fresh_db();
    let p = ProjectRow {
        id: "p1".to_string(),
        name: "测试项目".to_string(),
        intent_json: r#"{"intent":"short-drama"}"#.to_string(),
        video_path: "/tmp/v.mp4".to_string(),
        subtitle_path: Some("/tmp/s.srt".to_string()),
        created_at: 1700000000,
        updated_at: 1700000000,
    };
    db.upsert_project(&p).unwrap();

    let got = db.get_project("p1").unwrap();
    assert_eq!(got.name, "测试项目");
    assert_eq!(got.video_path, "/tmp/v.mp4");
    assert_eq!(got.intent_json, r#"{"intent":"short-drama"}"#);
    assert_eq!(got.subtitle_path.as_deref(), Some("/tmp/s.srt"));

    let list = db.list_projects().unwrap();
    assert_eq!(list.len(), 1);
}

#[test]
fn upsert_updates_existing_project() {
    let mut db = fresh_db();
    let mut p = ProjectRow {
        id: "p2".to_string(),
        name: "old".to_string(),
        intent_json: "{}".to_string(),
        video_path: "/v.mp4".to_string(),
        subtitle_path: None,
        created_at: 100,
        updated_at: 100,
    };
    db.upsert_project(&p).unwrap();

    p.name = "new".to_string();
    p.updated_at = 200;
    db.upsert_project(&p).unwrap();

    let got = db.get_project("p2").unwrap();
    assert_eq!(got.name, "new");
    assert_eq!(got.created_at, 100);
    assert_eq!(got.updated_at, 200);
}

#[test]
fn upsert_keeps_the_time_of_creation() {
    let mut db = fresh_db();
    let mut p = project("p2");
    p.created_at = 100;
    db.upsert_project(&p).unwrap();
    p.created_at = 300;
    p.updated_at = 300;
    db.upsert_project(&p).unwrap();
    db.upsert_project(&p).unwrap();
    let got = db.get_project("p2").unwrap();
    assert_eq!(got.created_at, 100);
    assert_eq!(got.updated_at, 300);
    assert_eq!(db.list_projects().unwrap().len(), 1);
}

#[test]
fn projects_are_listed_in_the_order_of_their_arrival() {
    let mut db = fresh_db();
    for id in ["b", "a", "c", "a"] {
        db.upsert_project(&project(id)).unwrap();
    }
    let ids: Vec<String> = db.list_projects().unwrap().into_iter().map(|p| p.id).collect();
    assert_eq!(ids, vec!["b", "a", "c"]);
}

#[test]
fn missing_project_is_not_found_by_its_id() {
    let db = fresh_db();
    match db.get_project("nope") {
        Err(DbError::NotFound(id)) => assert_eq!(id, "nope"),
        other => panic!("{:?}", other),
    }
}

#[test]
fn delete_project_cascades() {
    let mut db = fresh_db();
    db.upsert_project(&project("p3")).unwrap();
    db.upsert_job(&job("j1", "p3", 0)).unwrap();
    db.upsert_artifact(&artifact("j1")).unwrap();

    db.delete_project("p3").unwrap();

    assert!(matches!(db.get_project("p3"), Err(DbError::NotFound(_))));
    assert!(db.latest_job("p3").unwrap().is_none());
    assert!(db.list_artifacts("j1").unwrap().is_empty());
}

#[test]
fn delete_spares_other_projects() {
    let mut db = fresh_db();
    for id in ["p1", "p2"] {
        db.upsert_project(&project(id)).unwrap();
        db.upsert_assembly_kit(&assembly_row(id, "x")).unwrap();
    }
    db.upsert_job(&job("j1", "p1", 0)).unwrap();
    db.upsert_job(&job("j2", "p2", 0)).unwrap();
    db.upsert_job(&job("j3", "p2", 0)).unwrap();
    db.upsert_artifact(&artifact("j1")).unwrap();
    db.upsert_artifact(&artifact("j2")).unwrap();
    db.upsert_artifact(&artifact("j2")).unwrap();
    db.set_setting("theme", "dark").unwrap();

    db.delete_project("p1").unwrap();
    db.delete_project("missing").unwrap();

    assert_eq!(db.get_project("p2").unwrap().id, "p2");
    assert_eq!(db.latest_job("p2").unwrap().unwrap().id, "j3");
    assert_eq!(db.list_artifacts("j2").unwrap().len(), 2);
    assert!(db.list_artifacts("j1").unwrap().is_empty());
    assert!(db.get_assembly_kit("p1").unwrap().is_none());
    assert!(db.get_assembly_kit("p2").unwrap().is_some());
    assert_eq!(db.get_setting("theme").unwrap().as_deref(), Some("dark"));
}

#[test]
fn latest_job_is_the_one_created_last() {
    let mut db = fresh_db();
    db.upsert_project(&project("p")).unwrap();
    assert!(db.latest_job("p").unwrap().is_none());
    db.upsert_job(&job("a", "p", 5)).unwrap();
    db.upsert_job(&job("b", "p", 9)).unwrap();
    db.upsert_job(&job("c", "p", 7)).unwrap();
    assert_eq!(db.latest_job("p").unwrap().unwrap().id, "b");
    let mut again = job("c", "p", 100);
    again.phase = "rendering".to_string();
    db.upsert_job(&again).unwrap();
    assert_eq!(db.latest_job("p").unwrap().unwrap().id, "b");
}

#[test]
fn rows_without_their_owner_are_refused() {
    let mut db = fresh_db();
    match db.upsert_job(&job("j", "p", 0)) {
        Err(DbError::Constraint(key)) => assert_eq!(key, "p"),
        other => panic!("{:?}", other),
    }
    match db.upsert_artifact(&artifact("j")) {
        Err(DbError::Constraint(key)) => assert_eq!(key, "j"),
        other => panic!("{:?}", other),
    }
    assert!(matches!(db.upsert_assembly_kit(&assembly_row("p", "x")), Err(DbError::Constraint(_))));
    assert!(db.latest_job("p").unwrap().is_none());
}

#[test]
fn artifacts_get_numbers_and_are_replaced_by_them() {
    let mut db = fresh_db();
    db.upsert_project(&project("p")).unwrap();
    db.upsert_job(&job("j", "p", 0)).unwrap();
    assert_eq!(db.upsert_artifact(&artifact("j")).unwrap(), 1);
    assert_eq!(db.upsert_artifact(&artifact("j")).unwrap(), 2);
    let mut changed = artifact("j");
    changed.id = 1;
    changed.path = "/other".to_string();
    assert_eq!(db.upsert_artifact(&changed).unwrap(), 1);
    let list = db.list_artifacts("j").unwrap();
    assert_eq!(list.len(), 2);
    assert_eq!(list[0].path, "/other");
    assert_eq!(list[1].id, 2);
    changed.id = -7;
    match db.upsert_artifact(&changed) {
        Err(DbError::NotFound(key)) => assert_eq!(key, "-7"),
        other => panic!("{:?}", other),
    }
}

#[test]
fn settings_round_trip() {
    let mut db = fresh_db();
    assert!(db.get_setting("missing").unwrap().is_none());

    db.set_setting("theme", r#""dark""#).unwrap();
    assert_eq!(db.get_setting("theme").unwrap().as_deref(), Some(r#""dark""#));

    db.set_setting("theme", r#""light""#).unwrap();
    assert_eq!(db.get_setting("theme").unwrap().as_deref(), Some(r#""light""#));
}

#[test]
fn tts_cache_lookup_miss_returns_none() {
    let db = fresh_db();
    assert!(db.lookup_tts_cache("missing").unwrap().is_none());
}

#[test]
fn tts_cache_upsert_then_lookup_round_trip() {
    let mut db = fresh_db();
    db.upsert_tts_cache(&cache_row("k1", "/tmp/a.mp3", 1000)).unwrap();

    let got = db.lookup_tts_cache("k1").unwrap().unwrap();
    assert_eq!(got.audio_path, "/tmp/a.mp3");
    assert_eq!(f64::from_bits(got.duration_secs.0), 1.5);
    assert_eq!(got.access_count, 0);
}

#[test]
fn tts_cache_upsert_existing_bumps_access_count() {
    let mut db = fresh_db();
    db.upsert_tts_cache(&cache_row("k1", "/tmp/a.mp3", 1000)).unwrap();
    db.upsert_tts_cache(&cache_row("k1", "/tmp/b.mp3", 2000)).unwrap();

    let got = db.lookup_tts_cache("k1").unwrap().unwrap();
    assert_eq!(got.audio_path, "/tmp/b.mp3");
    assert_eq!(got.access_count, 1);
}

#[test]
fn tts_cache_touch_updates_access_metadata() {
    let mut db = fresh_db();
    db.upsert_tts_cache(&cache_row("k1", "/tmp/a.mp3", 1000)).unwrap();
    let updated = db.touch_tts_cache(&["k1".to_string(), "missing".to_string()]).unwrap();
    assert_eq!(updated, 1);
    let got = db.lookup_tts_cache("k1").unwrap().unwrap();
    assert_eq!(got.access_count, 1);
    assert!(got.accessed_at > 1000);
}

#[test]
fn touching_at_a_time_notes_that_time() {
    let mut db = fresh_db();
    db.upsert_tts_cache(&cache_row("k1", "/tmp/a.mp3", 1000)).unwrap();
    db.upsert_tts_cache(&cache_row("k2", "/tmp/b.mp3", 1000)).unwrap();
    let keys = vec!["k1".to_string(), "k1".to_string()];
    assert_eq!(db.touch_tts_cache_at(&keys, 4242).unwrap(), 2);
    let got = db.lookup_tts_cache("k1").unwrap().unwrap();
    assert_eq!(got.accessed_at, 4242);
    assert_eq!(got.access_count, 2);
    assert_eq!(got.created_at, 1000);
    assert_eq!(db.lookup_tts_cache("k2").unwrap().unwrap().access_count, 0);
}

#[test]
fn the_number_of_uses_has_an_end() {
    let mut db = fresh_db();
    let mut row = cache_row("k", "/tmp/a.mp3", 1000);
    row.access_count = i64::MAX;
    db.upsert_tts_cache(&row).unwrap();
    db.upsert_tts_cache(&row).unwrap();
    db.touch_tts_cache_at(&["k".to_string()], 5).unwrap();
    assert_eq!(db.lookup_tts_cache("k").unwrap().unwrap().access_count, i64::MAX);
}

#[test]
fn tts_cache_clear_expired_removes_old_entries() {
    let mut db = fresh_db();
    db.upsert_tts_cache(&cache_row("old", "/tmp/o.mp3", 100)).unwrap();
    db.upsert_tts_cache(&cache_row("new", "/tmp/n.mp3", 5000)).unwrap();

    let removed = db.clear_expired_tts_cache(1000).unwrap();
    assert_eq!(removed, 1);
    assert!(db.lookup_tts_cache("old").unwrap().is_none());
    assert!(db.lookup_tts_cache("new").unwrap().is_some());
}

#[test]
fn an_entry_created_at_the_cutoff_stays() {
    let mut db = fresh_db();
    db.upsert_tts_cache(&cache_row("edge", "/e.mp3", 1000)).unwrap();
    assert_eq!(db.clear_expired_tts_cache(1000).unwrap(), 0);
    assert_eq!(db.clear_expired_tts_cache(1001).unwrap(), 1);
}

#[test]
fn tts_cache_count_reflects_total() {
    let mut db = fresh_db();
    assert_eq!(db.tts_cache_count().unwrap(), 0);
    db.upsert_tts_cache(&cache_row("a", "/a.mp3", 1)).unwrap();
    db.upsert_tts_cache(&cache_row("b", "/b.mp3", 2)).unwrap();
    db.upsert_tts_cache(&cache_row("c", "/c.mp3", 3)).unwrap();
    assert_eq!(db.tts_cache_count().unwrap(), 3);
}

#[test]
fn assembly_kit_upsert_then_get_round_trip() {
    let mut db = fresh_db();
    ensure_project(&mut db, "p1").unwrap();
    let row = assembly_row("p1", r#"{"id":"a1","videoTracks":[]}"#);
    db.upsert_assembly_kit(&row).unwrap();

    let got = db.get_assembly_kit("p1").unwrap().unwrap();
    assert_eq!(got.project_id, "p1");
    assert_eq!(got.assembly_json, r#"{"id":"a1","videoTracks":[]}"#);
    assert_eq!(got.created_at, 1000);
    assert_eq!(got.updated_at, 2000);
}

#[test]
fn assembly_kit_upsert_updates_json_and_timestamp() {
    let mut db = fresh_db();
    ensure_project(&mut db, "p1").unwrap();
    db.upsert_assembly_kit(&assembly_row("p1", "v1")).unwrap();
    db.upsert_assembly_kit(&assembly_row("p1", "v2")).unwrap();

    let got = db.get_assembly_kit("p1").unwrap().unwrap();
    assert_eq!(got.assembly_json, "v2");
    assert_eq!(got.created_at, 1000);
    assert_eq!(got.updated_at, 2000);
}

#[test]
fn assembly_kit_get_missing_returns_none() {
    let db = fresh_db();
    assert!(db.get_assembly_kit("nonexistent").unwrap().is_none());
}

#[test]
fn assembly_kit_delete_removes_row() {
    let mut db = fresh_db();
    ensure_project(&mut db, "p1").unwrap();
    db.upsert_assembly_kit(&assembly_row("p1", "x")).unwrap();
    assert!(db.get_assembly_kit("p1").unwrap().is_some());
    db.delete_assembly_kit("p1").unwrap();
    assert!(db.get_assembly_kit("p1").unwrap().is_none());
}

#[test]
fn assembly_kit_cascades_on_project_delete() {
    let mut db = fresh_db();
    ensure_project(&mut db, "p1").unwrap();
    db.upsert_assembly_kit(&assembly_row("p1", "x")).unwrap();

    db.delete_project("p1").unwrap();
    assert!(db.get_assembly_kit("p1").unwrap().is_none());
}
