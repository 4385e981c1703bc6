//! Rows with set filler in the fields that do not matter, to try out a store.

use crate::db::Db;
use crate::error::DbResult;
use crate::rows::AssemblyKitRow;
use crate::rows::F64Bits;
use crate::rows::ProjectRow;
use crate::rows::TtsCacheRow;
use vstd::prelude::*;

verus! {

/// One and a half, as a bit pattern.
pub const ONE_AND_A_HALF: u64 = 0x3ff8_0000_0000_0000;

/// A cache entry that has never been used.
pub fn cache_row(key: &str, path: &str, created_at: i64) -> (row: TtsCacheRow)
    ensures
        row.cache_key@ == key@,
        row.audio_path@ == path@,
        row.duration_secs == F64Bits(ONE_AND_A_HALF),
        row.text_preview@ == "你好"@,
        row.created_at == created_at,
        row.accessed_at == created_at,
        row.access_count == 0,
{
    TtsCacheRow {
        cache_key: key.to_owned(),
        audio_path: path.to_owned(),
        duration_secs: F64Bits(ONE_AND_A_HALF),
        text_preview: "你好".to_owned(),
        created_at,
        accessed_at: created_at,
        access_count: 0,
    }
}

/// The assembly of a project.
pub fn assembly_row(project_id: &str, json: &str) -> (row: AssemblyKitRow)
    ensures
        row.project_id@ == project_id@,
        row.assembly_json@ == json@,
        row.created_at == 1000,
        row.updated_at == 2000,
{
    AssemblyKitRow {
        project_id: project_id.to_owned(),
        assembly_json: json.to_owned(),
        created_at: 1000,
        updated_at: 2000,
    }
}

/// Whether `row` is the project that stands in for one with the id.
pub open spec fn is_stand_in(row: ProjectRow, id: Seq<char>) -> bool {
    &&& row.id@ == id
    &&& row.name@ == "test"@
    &&& row.intent_json@ == "{}"@
    &&& row.video_path@ == "/v.mp4"@
    &&& row.subtitle_path is None
    &&& row.created_at == 1
    &&& row.updated_at == 1
}

/// Stores a project under the id.
pub fn ensure_project(db: &mut Db, id: &str) -> (done: DbResult<()>)
    requires
        old(db)@.wf(),
    ensures
        done == DbResult::<()>::Ok(()),
        final(db)@.wf(),
        exists|row: ProjectRow|
            is_stand_in(row, id@) && final(db)@ == #[trigger] old(db)@.with_project(row),
{
    let row = ProjectRow {
        id: id.to_owned(),
        name: "test".to_owned(),
        intent_json: "{}".to_owned(),
        video_path: "/v.mp4".to_owned(),
        subtitle_path: None,
        created_at: 1,
        updated_at: 1,
    };
    assert(is_stand_in(row, id@));
    db.upsert_project(&row)
}

/// The project that stands in for one with an id has that id, and filler in all
/// else.
pub proof fn law_stand_in(row: ProjectRow, id: Seq<char>)
    requires
        is_stand_in(row, id),
    ensures
        row.id@ == id,
        row.name@ == "test"@,
        row.intent_json@ == "{}"@,
        row.video_path@ == "/v.mp4"@,
        row.subtitle_path is None,
        row.created_at == 1,
        row.updated_at == 1,
        ONE_AND_A_HALF == 0x3ff8_0000_0000_0000,
{
}

} // verus!
