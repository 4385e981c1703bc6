//! The project store: projects with their jobs, artifacts and assembly,
//! settings, and the cache of synthesized speech.

use crate::clock;
use crate::clock::now_unix;
use crate::error::DbError;
use crate::error::DbErrorView;
use crate::error::DbResult;
use crate::rows::ArtifactRow;
use crate::rows::AssemblyKitRow;
use crate::rows::JobRow;
use crate::rows::ProjectRow;
use crate::rows::SettingRow;
use crate::rows::TtsCacheRow;
use crate::table;
use crate::table::find;
use crate::table::remove_rows;
use crate::table::store;
use crate::table::Keyed;
use crate::text;
use std::time::SystemTime;
use vstd::prelude::*;

verus! {

/// The schema that a store has once every migration ran: the full schema, the
/// speech cache, and the assembly kits.
pub const SCHEMA_VERSION: i64 = 3;

/// The content of a store.
#[verifier::ext_equal]
pub struct DbState {
    pub schema_version: i64,
    pub projects: Seq<ProjectRow>,
    pub jobs: Seq<JobRow>,
    pub artifacts: Seq<ArtifactRow>,
    pub next_artifact_id: int,
    pub settings: Seq<SettingRow>,
    pub tts_cache: Seq<TtsCacheRow>,
    pub assembly_kits: Seq<AssemblyKitRow>,
}

/// Of the jobs of a project, the one created last; of several created at the
/// same time, the one that stands last.
pub open spec fn latest_of(jobs: Seq<JobRow>, project_id: Seq<char>) -> Option<JobRow>
    decreases jobs.len(),
{
    if jobs.len() == 0 {
        None
    } else {
        let earlier = latest_of(jobs.drop_last(), project_id);
        let job = jobs.last();
        if job.project_id@ != project_id {
            earlier
        } else {
            match earlier {
                Some(best) => if best.created_at <= job.created_at {
                    Some(job)
                } else {
                    earlier
                },
                None => Some(job),
            }
        }
    }
}

/// Which projects stay when one is removed.
pub open spec fn other_project(id: Seq<char>) -> spec_fn(ProjectRow) -> bool {
    |row: ProjectRow| row.id@ != id
}

/// Which jobs stay when a project is removed.
pub open spec fn job_of_other_project(id: Seq<char>) -> spec_fn(JobRow) -> bool {
    |row: JobRow| row.project_id@ != id
}

/// Which artifacts stay when a project with these jobs is removed.
pub open spec fn artifact_of_other_project(jobs: Seq<JobRow>, id: Seq<char>) -> spec_fn(
    ArtifactRow,
) -> bool {
    |row: ArtifactRow| !artifact_of_project(jobs, row, id)
}

/// Which assemblies stay when a project is removed.
pub open spec fn kit_of_other_project(id: Seq<char>) -> spec_fn(AssemblyKitRow) -> bool {
    |row: AssemblyKitRow| row.project_id@ != id
}

/// Which cache entries stay when those created before `cutoff` are removed.
pub open spec fn created_since(cutoff: i64) -> spec_fn(TtsCacheRow) -> bool {
    |row: TtsCacheRow| row.created_at >= cutoff
}

/// Which artifacts a job produced.
pub open spec fn artifact_of_job(job_id: Seq<char>) -> spec_fn(ArtifactRow) -> bool {
    |row: ArtifactRow| row.job_id@ == job_id
}

/// Whether a job of the project produced the artifact.
pub open spec fn artifact_of_project(
    jobs: Seq<JobRow>,
    artifact: ArtifactRow,
    project_id: Seq<char>,
) -> bool {
    match table::lookup(jobs, artifact.job_id@) {
        Some(job) => job.project_id@ == project_id,
        None => false,
    }
}

/// The number of uses after one more; it stays at the largest number.
pub open spec fn one_more(count: i64) -> i64 {
    if count < i64::MAX {
        (count + 1) as i64
    } else {
        count
    }
}

/// The cache after the entry under `key`, if any, was used at the time `now`.
pub open spec fn touched(cache: Seq<TtsCacheRow>, key: Seq<char>, now: i64) -> Seq<TtsCacheRow> {
    match table::lookup(cache, key) {
        Some(row) => table::stored(
            cache,
            TtsCacheRow { accessed_at: now, access_count: one_more(row.access_count), ..row },
        ),
        None => cache,
    }
}

/// The cache after the entries under `keys` were used, one after the other.
pub open spec fn touched_all(cache: Seq<TtsCacheRow>, keys: Seq<String>, now: i64) -> Seq<
    TtsCacheRow,
>
    decreases keys.len(),
{
    if keys.len() == 0 {
        cache
    } else {
        touched(touched_all(cache, keys.drop_last(), now), keys.last()@, now)
    }
}

/// How many of `keys`, counted as often as they occur, have an entry.
pub open spec fn hits(cache: Seq<TtsCacheRow>, keys: Seq<String>) -> nat
    decreases keys.len(),
{
    if keys.len() == 0 {
        0
    } else {
        hits(cache, keys.drop_last()) + if table::has_key(cache, keys.last()@) {
            1nat
        } else {
            0nat
        }
    }
}

/// How often `key` is among `keys`.
pub open spec fn uses(keys: Seq<String>, key: Seq<char>) -> nat
    decreases keys.len(),
{
    if keys.len() == 0 {
        0
    } else {
        uses(keys.drop_last(), key) + if keys.last()@ == key {
            1nat
        } else {
            0nat
        }
    }
}

/// A cache entry after it was used `count` times, the last time at `now`.
pub open spec fn used(row: TtsCacheRow, count: nat, now: i64) -> TtsCacheRow {
    TtsCacheRow {
        accessed_at: if count > 0 {
            now
        } else {
            row.accessed_at
        },
        access_count: if row.access_count + count <= i64::MAX {
            (row.access_count + count) as i64
        } else {
            i64::MAX
        },
        ..row
    }
}

/// Index of the artifact with a number.
pub open spec fn artifact_at(artifacts: Seq<ArtifactRow>, id: i64) -> Option<int> {
    if exists|i: int| 0 <= i < artifacts.len() && (#[trigger] artifacts[i]).id == id {
        Some(choose|i: int| 0 <= i < artifacts.len() && (#[trigger] artifacts[i]).id == id)
    } else {
        None
    }
}

impl DbState {
    /// The empty store, with all migrations run.
    pub open spec fn empty() -> DbState {
        DbState {
            schema_version: SCHEMA_VERSION,
            projects: Seq::empty(),
            jobs: Seq::empty(),
            artifacts: Seq::empty(),
            next_artifact_id: 1,
            settings: Seq::empty(),
            tts_cache: Seq::empty(),
            assembly_kits: Seq::empty(),
        }
    }

    /// Keys are unique, and every row that names another row names one that is
    /// there: a job its project, an artifact its job, an assembly its project.
    pub open spec fn wf(self) -> bool {
        &&& table::unique_keys(self.projects)
        &&& table::unique_keys(self.jobs)
        &&& table::unique_keys(self.settings)
        &&& table::unique_keys(self.tts_cache)
        &&& table::unique_keys(self.assembly_kits)
        &&& forall|i: int|
            0 <= i < self.jobs.len() ==> table::has_key(
                self.projects,
                (#[trigger] self.jobs[i]).project_id@,
            )
        &&& forall|i: int|
            0 <= i < self.artifacts.len() ==> table::has_key(
                self.jobs,
                (#[trigger] self.artifacts[i]).job_id@,
            )
        &&& forall|i: int|
            0 <= i < self.assembly_kits.len() ==> table::has_key(
                self.projects,
                (#[trigger] self.assembly_kits[i]).project_id@,
            )
        &&& forall|i: int|
            0 <= i < self.artifacts.len() ==> 0 < (#[trigger] self.artifacts[i]).id
                < self.next_artifact_id
        &&& forall|i: int, j: int|
            #![trigger self.artifacts[i], self.artifacts[j]]
            0 <= i < j < self.artifacts.len() ==> self.artifacts[i].id != self.artifacts[j].id
        &&& 1 <= self.next_artifact_id <= i64::MAX
    }

    /// The project with the id.
    pub open spec fn project(self, id: Seq<char>) -> Option<ProjectRow> {
        table::lookup(self.projects, id)
    }

    /// The row that stands for a project once `row` is stored: a project that
    /// is there already keeps its time of creation.
    pub open spec fn merged_project(self, row: ProjectRow) -> ProjectRow {
        match self.project(row.id@) {
            Some(existing) => ProjectRow { created_at: existing.created_at, ..row },
            None => row,
        }
    }

    /// The store after a project was stored.
    pub open spec fn with_project(self, row: ProjectRow) -> DbState {
        DbState { projects: table::stored(self.projects, self.merged_project(row)), ..self }
    }

    /// The store without a project and all that hangs on it: its jobs, their
    /// artifacts, and its assembly.
    pub open spec fn without_project(self, id: Seq<char>) -> DbState {
        DbState {
            projects: self.projects.filter(other_project(id)),
            jobs: self.jobs.filter(job_of_other_project(id)),
            artifacts: self.artifacts.filter(artifact_of_other_project(self.jobs, id)),
            assembly_kits: self.assembly_kits.filter(kit_of_other_project(id)),
            ..self
        }
    }

    /// The row that stands for a job once `row` is stored.
    pub open spec fn merged_job(self, row: JobRow) -> JobRow {
        match table::lookup(self.jobs, row.id@) {
            Some(existing) => JobRow { created_at: existing.created_at, ..row },
            None => row,
        }
    }

    /// The store after a job was stored.
    pub open spec fn with_job(self, row: JobRow) -> DbState {
        DbState { jobs: table::stored(self.jobs, self.merged_job(row)), ..self }
    }

    /// The store after a new artifact was stored.
    pub open spec fn with_new_artifact(self, row: ArtifactRow) -> DbState {
        DbState {
            artifacts: self.artifacts.push(ArtifactRow { id: self.next_artifact_id as i64, ..row }),
            next_artifact_id: self.next_artifact_id + 1,
            ..self
        }
    }

    /// The store after an artifact took the place of the one with its number.
    pub open spec fn with_artifact(self, at: int, row: ArtifactRow) -> DbState {
        DbState { artifacts: self.artifacts.update(at, row), ..self }
    }

    /// The value of a setting.
    pub open spec fn setting(self, key: Seq<char>) -> Option<Seq<char>> {
        match table::lookup(self.settings, key) {
            Some(row) => Some(row.value@),
            None => None,
        }
    }

    /// The row that stands in the cache once `row` is stored: an entry that is
    /// there already keeps its time of creation and has one more use.
    pub open spec fn merged_tts(self, row: TtsCacheRow) -> TtsCacheRow {
        match table::lookup(self.tts_cache, row.cache_key@) {
            Some(existing) => TtsCacheRow {
                created_at: existing.created_at,
                access_count: one_more(existing.access_count),
                ..row
            },
            None => row,
        }
    }

    /// The store after a cache entry was stored.
    pub open spec fn with_tts(self, row: TtsCacheRow) -> DbState {
        DbState { tts_cache: table::stored(self.tts_cache, self.merged_tts(row)), ..self }
    }

    /// The row that stands for an assembly once `row` is stored: one that is
    /// there already keeps its time of creation.
    pub open spec fn merged_kit(self, row: AssemblyKitRow) -> AssemblyKitRow {
        match table::lookup(self.assembly_kits, row.project_id@) {
            Some(existing) => AssemblyKitRow { created_at: existing.created_at, ..row },
            None => row,
        }
    }

    /// The store after an assembly was stored.
    pub open spec fn with_kit(self, row: AssemblyKitRow) -> DbState {
        DbState { assembly_kits: table::stored(self.assembly_kits, self.merged_kit(row)), ..self }
    }
}

/// A store.
#[derive(Debug)]
pub struct Db {
    schema_version: i64,
    projects: Vec<ProjectRow>,
    jobs: Vec<JobRow>,
    artifacts: Vec<ArtifactRow>,
    next_artifact_id: i64,
    settings: Vec<SettingRow>,
    tts_cache: Vec<TtsCacheRow>,
    assembly_kits: Vec<AssemblyKitRow>,
}

impl View for Db {
    type V = DbState;

    closed spec fn view(&self) -> DbState {
        DbState {
            schema_version: self.schema_version,
            projects: self.projects@,
            jobs: self.jobs@,
            artifacts: self.artifacts@,
            next_artifact_id: self.next_artifact_id as int,
            settings: self.settings@,
            tts_cache: self.tts_cache@,
            assembly_kits: self.assembly_kits@,
        }
    }
}

impl Db {
    /// Opens an empty store and brings it to the latest schema.
    pub fn new() -> (db: Db)
        ensures
            db@ == DbState::empty(),
            db@.wf(),
    {
        let db = Db {
            schema_version: SCHEMA_VERSION,
            projects: Vec::new(),
            jobs: Vec::new(),
            artifacts: Vec::new(),
            next_artifact_id: 1,
            settings: Vec::new(),
            tts_cache: Vec::new(),
            assembly_kits: Vec::new(),
        };
        assert(db@ =~= DbState::empty());
        db
    }

    /// The schema of the store.
    pub fn schema_version(&self) -> (version: DbResult<i64>)
        ensures
            version == DbResult::<i64>::Ok(self@.schema_version),
    {
        Ok(self.schema_version)
    }

    /// Stores a project. One that is there already keeps its time of creation.
    pub fn upsert_project(&mut self, row: &ProjectRow) -> (done: DbResult<()>)
        requires
            old(self)@.wf(),
        ensures
            done == DbResult::<()>::Ok(()),
            final(self)@ == old(self)@.with_project(*row),
            final(self)@.wf(),
    {
        let mut stored = row.clone();
        if let Some(i) = find(&self.projects, &row.id) {
            stored.created_at = self.projects[i].created_at;
        }
        assert(stored == self@.merged_project(*row));
        proof {
            table::lemma_stored(self.projects@, stored);
        }
        store(&mut self.projects, stored);
        assert(self@ =~= old(self)@.with_project(*row));
        Ok(())
    }

    /// The project with the id.
    pub fn get_project(&self, id: &str) -> (row: DbResult<ProjectRow>)
        requires
            self@.wf(),
        ensures
            match row {
                Ok(row) => self@.project(id@) == Some(row),
                Err(e) => self@.project(id@) is None && e@ == DbErrorView::NotFound(id@),
            },
    {
        let key: String = id.to_owned();
        match find(&self.projects, &key) {
            Some(i) => Ok(self.projects[i].clone()),
            None => Err(DbError::NotFound(key)),
        }
    }

    /// All projects, in the order in which they were first stored.
    pub fn list_projects(&self) -> (rows: DbResult<Vec<ProjectRow>>)
        ensures
            rows matches Ok(list) && list@ == self@.projects,
    {
        let mut list: Vec<ProjectRow> = Vec::with_capacity(self.projects.len());
        let mut i: usize = 0;
        while i < self.projects.len()
            invariant
                i <= self.projects@.len(),
                list@ == self.projects@.take(i as int),
            decreases self.projects@.len() - i,
        {
            list.push(self.projects[i].clone());
            i = i + 1;
            assert(list@ =~= self.projects@.take(i as int));
        }
        assert(list@ =~= self.projects@);
        Ok(list)
    }

    /// Removes a project with its jobs, their artifacts, and its assembly.
    /// Where there is no such project nothing changes.
    pub fn delete_project(&mut self, id: &str) -> (done: DbResult<()>)
        requires
            old(self)@.wf(),
        ensures
            done == DbResult::<()>::Ok(()),
            final(self)@ == old(self)@.without_project(id@),
            final(self)@.wf(),
    {
        let key: String = id.to_owned();
        let ghost before = self@;
        proof {
            lemma_without_project_wf(before, id@);
        }
        let jobs = &self.jobs;
        let belongs = |row: &ArtifactRow| -> (gone: bool)
            requires
                table::unique_keys(jobs@),
            ensures
                gone == artifact_of_project(jobs@, *row, key@),
            {
                match find(jobs, &row.job_id) {
                    Some(i) => jobs[i].project_id == key,
                    None => false,
                }
            };
        remove_rows(
            &mut self.artifacts,
            belongs,
            Ghost(artifact_of_other_project(before.jobs, id@)),
        );
        let job_gone = |row: &JobRow| -> (gone: bool)
            ensures
                gone == (row.project_id@ == key@),
            {
                row.project_id == key
            };
        remove_rows(&mut self.jobs, job_gone, Ghost(job_of_other_project(id@)));
        let kit_gone = |row: &AssemblyKitRow| -> (gone: bool)
            ensures
                gone == (row.project_id@ == key@),
            {
                row.project_id == key
            };
        remove_rows(&mut self.assembly_kits, kit_gone, Ghost(kit_of_other_project(id@)));
        let project_gone = |row: &ProjectRow| -> (gone: bool)
            ensures
                gone == (row.id@ == key@),
            {
                row.id == key
            };
        remove_rows(&mut self.projects, project_gone, Ghost(other_project(id@)));
        assert(self@ =~= before.without_project(id@));
        Ok(())
    }

    /// Stores a job. One that is there already keeps its time of creation. A
    /// job of a project that is not there is refused.
    pub fn upsert_job(&mut self, row: &JobRow) -> (done: DbResult<()>)
        requires
            old(self)@.wf(),
        ensures
            final(self)@.wf(),
            match done {
                Ok(_) => old(self)@.project(row.project_id@) is Some && final(self)@ == old(self)@.with_job(*row),
                Err(e) => old(self)@.project(row.project_id@) is None && e@
                    == DbErrorView::Constraint(row.project_id@) && final(self)@ == old(self)@,
            },
    {
        if find(&self.projects, &row.project_id).is_none() {
            return Err(DbError::Constraint(row.project_id.clone()));
        }
        let mut stored = row.clone();
        if let Some(i) = find(&self.jobs, &row.id) {
            stored.created_at = self.jobs[i].created_at;
        }
        assert(stored == self@.merged_job(*row));
        proof {
            table::lemma_stored(self.jobs@, stored);
        }
        store(&mut self.jobs, stored);
        assert(self@ =~= old(self)@.with_job(*row));
        Ok(())
    }

    /// The job of a project that was created last.
    pub fn latest_job(&self, project_id: &str) -> (job: DbResult<Option<JobRow>>)
        ensures
            job == DbResult::<Option<JobRow>>::Ok(latest_of(self@.jobs, project_id@)),
    {
        let key: String = project_id.to_owned();
        let mut best: Option<usize> = None;
        let mut i: usize = 0;
        while i < self.jobs.len()
            invariant
                i <= self.jobs@.len(),
                key@ == project_id@,
                match best {
                    Some(b) => b < i && latest_of(self.jobs@.take(i as int), key@) == Some(
                        self.jobs@[b as int],
                    ),
                    None => latest_of(self.jobs@.take(i as int), key@) is None,
                },
            decreases self.jobs@.len() - i,
        {
            assert(self.jobs@.take(i + 1).drop_last() =~= self.jobs@.take(i as int));
            assert(self.jobs@.take(i + 1).last() == self.jobs@[i as int]);
            if self.jobs[i].project_id == key {
                let newer: bool = match best {
                    Some(b) => self.jobs[b].created_at <= self.jobs[i].created_at,
                    None => true,
                };
                if newer {
                    best = Some(i);
                }
            }
            i = i + 1;
        }
        assert(self.jobs@.take(i as int) =~= self.jobs@);
        match best {
            Some(b) => Ok(Some(self.jobs[b].clone())),
            None => Ok(None),
        }
    }

    /// Stores an artifact and tells its number. One with the number zero is
    /// new and gets a number that no artifact had before; any other replaces
    /// the artifact with its number. An artifact of a job that is not there is
    /// refused.
    pub fn upsert_artifact(&mut self, row: &ArtifactRow) -> (id: DbResult<i64>)
        requires
            old(self)@.wf(),
        ensures
            final(self)@.wf(),
            match id {
                Ok(id) => {
                    &&& table::has_key(old(self)@.jobs, row.job_id@)
                    &&& row.id == 0 ==> id == old(self)@.next_artifact_id && final(self)@ == old(self)@.with_new_artifact(*row)
                    &&& row.id != 0 ==> id == row.id && (artifact_at(
                        old(self)@.artifacts,
                        row.id,
                    ) matches Some(at) && final(self)@ == old(self)@.with_artifact(at, *row))
                },
                Err(e) => {
                    &&& final(self)@ == old(self)@
                    &&& if !table::has_key(old(self)@.jobs, row.job_id@) {
                        e@ == DbErrorView::Constraint(row.job_id@)
                    } else if row.id == 0 {
                        old(self)@.next_artifact_id == i64::MAX && e@ == DbErrorView::Constraint(
                            "artifact numbers are used up"@,
                        )
                    } else {
                        artifact_at(old(self)@.artifacts, row.id) is None && e@
                            == DbErrorView::NotFound(text::decimal(row.id as int))
                    }
                },
            },
    {
        if find(&self.jobs, &row.job_id).is_none() {
            return Err(DbError::Constraint(row.job_id.clone()));
        }
        if row.id == 0 {
            if self.next_artifact_id == i64::MAX {
                return Err(DbError::Constraint("artifact numbers are used up".to_owned()));
            }
            let id: i64 = self.next_artifact_id;
            let mut fresh = row.clone();
            fresh.id = id;
            self.artifacts.push(fresh);
            self.next_artifact_id = id + 1;
            assert(self@ =~= old(self)@.with_new_artifact(*row));
            return Ok(id);
        }
        let mut i: usize = 0;
        while i < self.artifacts.len()
            invariant
                i <= self.artifacts@.len(),
                self@ == old(self)@,
                self@.wf(),
                table::has_key(old(self)@.jobs, row.job_id@),
                row.id != 0,
                forall|j: int| 0 <= j < i ==> (#[trigger] self.artifacts@[j]).id != row.id,
            decreases self.artifacts@.len() - i,
        {
            if self.artifacts[i].id == row.id {
                assert(artifact_at(self@.artifacts, row.id) == Some(i as int));
                self.artifacts.set(i, row.clone());
                assert(self@ =~= old(self)@.with_artifact(i as int, *row));
                return Ok(row.id);
            }
            i = i + 1;
        }
        let mut number = String::new();
        text::push_decimal(&mut number, row.id);
        assert(number@ =~= text::decimal(row.id as int));
        Err(DbError::NotFound(number))
    }

    /// The artifacts of a job, in the order in which they were stored.
    pub fn list_artifacts(&self, job_id: &str) -> (rows: DbResult<Vec<ArtifactRow>>)
        ensures
            rows matches Ok(list) && list@ == self@.artifacts.filter(artifact_of_job(job_id@)),
    {
        let key: String = job_id.to_owned();
        let ghost of_job = artifact_of_job(job_id@);
        let mut list: Vec<ArtifactRow> = Vec::new();
        let mut i: usize = 0;
        proof {
            reveal(Seq::filter);
        }
        while i < self.artifacts.len()
            invariant
                i <= self.artifacts@.len(),
                key@ == job_id@,
                of_job == artifact_of_job(job_id@),
                list@ == self.artifacts@.take(i as int).filter(of_job),
            decreases self.artifacts@.len() - i,
        {
            proof {
                reveal(Seq::filter);
            }
            assert(self.artifacts@.take(i + 1).drop_last() =~= self.artifacts@.take(i as int));
            assert(self.artifacts@.take(i + 1).last() == self.artifacts@[i as int]);
            if self.artifacts[i].job_id == key {
                list.push(self.artifacts[i].clone());
            }
            i = i + 1;
        }
        assert(self.artifacts@.take(i as int) =~= self.artifacts@);
        Ok(list)
    }

    /// The value of a setting.
    pub fn get_setting(&self, key: &str) -> (value: DbResult<Option<String>>)
        requires
            self@.wf(),
        ensures
            value matches Ok(found) && match found {
                Some(text) => self@.setting(key@) == Some(text@),
                None => self@.setting(key@) is None,
            },
    {
        let wanted: String = key.to_owned();
        match find(&self.settings, &wanted) {
            Some(i) => Ok(Some(self.settings[i].value.clone())),
            None => Ok(None),
        }
    }

    /// Sets a setting, over the value that it had.
    pub fn set_setting(&mut self, key: &str, value: &str) -> (done: DbResult<()>)
        requires
            old(self)@.wf(),
        ensures
            done == DbResult::<()>::Ok(()),
            final(self)@.wf(),
            final(self)@ == (DbState { settings: final(self)@.settings, ..old(self)@ }),
            final(self)@.setting(key@) == Some(value@),
            forall|other: Seq<char>|
                other != key@ ==> #[trigger] final(self)@.setting(other) == old(self)@.setting(
                    other,
                ),
    {
        let row = SettingRow { key: key.to_owned(), value: value.to_owned() };
        proof {
            table::lemma_stored(self.settings@, row);
        }
        store(&mut self.settings, row);
        assert(self@ =~= (DbState { settings: self@.settings, ..old(self)@ }));
        Ok(())
    }

    /// The cache entry under a key; looking it up is no use of it.
    pub fn lookup_tts_cache(&self, cache_key: &str) -> (row: DbResult<Option<TtsCacheRow>>)
        requires
            self@.wf(),
        ensures
            row == DbResult::<Option<TtsCacheRow>>::Ok(
                table::lookup(self@.tts_cache, cache_key@),
            ),
    {
        let key: String = cache_key.to_owned();
        match find(&self.tts_cache, &key) {
            Some(i) => Ok(Some(self.tts_cache[i].clone())),
            None => Ok(None),
        }
    }

    /// Stores a cache entry. One that is there already keeps its time of
    /// creation and has one more use.
    pub fn upsert_tts_cache(&mut self, row: &TtsCacheRow) -> (done: DbResult<()>)
        requires
            old(self)@.wf(),
        ensures
            done == DbResult::<()>::Ok(()),
            final(self)@ == old(self)@.with_tts(*row),
            final(self)@.wf(),
    {
        let mut stored = row.clone();
        if let Some(i) = find(&self.tts_cache, &row.cache_key) {
            stored.created_at = self.tts_cache[i].created_at;
            stored.access_count = incremented(self.tts_cache[i].access_count);
        }
        assert(stored == self@.merged_tts(*row));
        proof {
            table::lemma_stored(self.tts_cache@, stored);
        }
        store(&mut self.tts_cache, stored);
        assert(self@ =~= old(self)@.with_tts(*row));
        Ok(())
    }

    /// Notes a use of the cache entries under `keys` at the time `now`, and
    /// tells how many of the keys had an entry.
    pub fn touch_tts_cache_at(&mut self, keys: &[String], now: i64) -> (updated: DbResult<usize>)
        requires
            old(self)@.wf(),
        ensures
            updated matches Ok(n) && n == hits(old(self)@.tts_cache, keys@),
            final(self)@ == (DbState {
                tts_cache: touched_all(old(self)@.tts_cache, keys@, now),
                ..old(self)@
            }),
            final(self)@.wf(),
    {
        let ghost before = self@;
        let mut count: usize = 0;
        let mut i: usize = 0;
        while i < keys.len()
            invariant
                i <= keys@.len(),
                count <= i,
                before == old(self)@,
                count == hits(before.tts_cache, keys@.take(i as int)),
                self@ == (DbState {
                    tts_cache: touched_all(before.tts_cache, keys@.take(i as int), now),
                    ..before
                }),
                self@.wf(),
                forall|key: Seq<char>| #[trigger]
                    table::has_key(self@.tts_cache, key) <==> table::has_key(
                        before.tts_cache,
                        key,
                    ),
            decreases keys@.len() - i,
        {
            assert(keys@.take(i + 1).drop_last() =~= keys@.take(i as int));
            assert(keys@.take(i + 1).last() == keys@[i as int]);
            let ghost held = self@.tts_cache;
            if let Some(at) = find(&self.tts_cache, &keys[i]) {
                let mut row = self.tts_cache[at].clone();
                row.accessed_at = now;
                row.access_count = incremented(row.access_count);
                proof {
                    table::lemma_stored(held, row);
                }
                store(&mut self.tts_cache, row);
                count = count + 1;
            }
            assert(self@.tts_cache == touched(held, keys@[i as int]@, now));
            i = i + 1;
            assert(self@ =~= (DbState {
                tts_cache: touched_all(before.tts_cache, keys@.take(i as int), now),
                ..before
            }));
        }
        assert(keys@.take(i as int) =~= keys@);
        Ok(count)
    }

    /// Notes a use of the cache entries under `keys` at the current time, and
    /// tells how many of the keys had an entry.
    pub fn touch_tts_cache(&mut self, keys: &[String]) -> (updated: DbResult<usize>)
        requires
            old(self)@.wf(),
        ensures
            updated matches Ok(n) && n == hits(old(self)@.tts_cache, keys@),
            exists|time: SystemTime|
                final(self)@ == (DbState {
                    tts_cache: touched_all(
                        old(self)@.tts_cache,
                        keys@,
                        #[trigger] clock::seconds_at(time),
                    ),
                    ..old(self)@
                }),
            final(self)@.wf(),
    {
        self.touch_tts_cache_at(keys, now_unix())
    }

    /// Removes the cache entries created before `cutoff` and tells how many
    /// there were.
    pub fn clear_expired_tts_cache(&mut self, cutoff: i64) -> (removed: DbResult<usize>)
        requires
            old(self)@.wf(),
        ensures
            final(self)@ == (DbState {
                tts_cache: old(self)@.tts_cache.filter(created_since(cutoff)),
                ..old(self)@
            }),
            removed matches Ok(n) && n == old(self)@.tts_cache.len() - final(self)@.tts_cache.len(),
            final(self)@.wf(),
    {
        let ghost fresh = created_since(cutoff);
        proof {
            table::lemma_filtered(self.tts_cache@, fresh);
            lemma_filter_length(self.tts_cache@, fresh);
        }
        let total: usize = self.tts_cache.len();
        let expired = |row: &TtsCacheRow| -> (gone: bool)
            ensures
                gone == (row.created_at < cutoff),
            {
                row.created_at < cutoff
            };
        remove_rows(&mut self.tts_cache, expired, Ghost(fresh));
        assert(self@ =~= (DbState {
            tts_cache: old(self)@.tts_cache.filter(created_since(cutoff)),
            ..old(self)@
        }));
        Ok(total - self.tts_cache.len())
    }

    /// How many cache entries there are.
    pub fn tts_cache_count(&self) -> (count: DbResult<usize>)
        ensures
            count matches Ok(n) && n == self@.tts_cache.len(),
    {
        Ok(self.tts_cache.len())
    }

    /// Stores the assembly of a project. One that is there already keeps its
    /// time of creation. An assembly of a project that is not there is refused.
    pub fn upsert_assembly_kit(&mut self, row: &AssemblyKitRow) -> (done: DbResult<()>)
        requires
            old(self)@.wf(),
        ensures
            final(self)@.wf(),
            match done {
                Ok(_) => old(self)@.project(row.project_id@) is Some && final(self)@ == old(self)@.with_kit(*row),
                Err(e) => old(self)@.project(row.project_id@) is None && e@
                    == DbErrorView::Constraint(row.project_id@) && final(self)@ == old(self)@,
            },
    {
        if find(&self.projects, &row.project_id).is_none() {
            return Err(DbError::Constraint(row.project_id.clone()));
        }
        let mut stored = row.clone();
        if let Some(i) = find(&self.assembly_kits, &row.project_id) {
            stored.created_at = self.assembly_kits[i].created_at;
        }
        assert(stored == self@.merged_kit(*row));
        proof {
            table::lemma_stored(self.assembly_kits@, stored);
        }
        store(&mut self.assembly_kits, stored);
        assert(self@ =~= old(self)@.with_kit(*row));
        Ok(())
    }

    /// The assembly of a project.
    pub fn get_assembly_kit(&self, project_id: &str) -> (row: DbResult<Option<AssemblyKitRow>>)
        requires
            self@.wf(),
        ensures
            row == DbResult::<Option<AssemblyKitRow>>::Ok(
                table::lookup(self@.assembly_kits, project_id@),
            ),
    {
        let key: String = project_id.to_owned();
        match find(&self.assembly_kits, &key) {
            Some(i) => Ok(Some(self.assembly_kits[i].clone())),
            None => Ok(None),
        }
    }

    /// Removes the assembly of a project. Where there is none nothing changes.
    pub fn delete_assembly_kit(&mut self, project_id: &str) -> (done: DbResult<()>)
        requires
            old(self)@.wf(),
        ensures
            done == DbResult::<()>::Ok(()),
            final(self)@ == (DbState {
                assembly_kits: old(self)@.assembly_kits.filter(kit_of_other_project(project_id@)),
                ..old(self)@
            }),
            final(self)@.wf(),
    {
        let key: String = project_id.to_owned();
        let ghost keep = kit_of_other_project(project_id@);
        proof {
            table::lemma_filtered(self.assembly_kits@, keep);
            lemma_filter_elements(self.assembly_kits@, keep);
        }
        let kit_gone = |row: &AssemblyKitRow| -> (gone: bool)
            ensures
                gone == (row.project_id@ == key@),
            {
                row.project_id == key
            };
        remove_rows(&mut self.assembly_kits, kit_gone, Ghost(keep));
        assert(self@ =~= (DbState {
            assembly_kits: old(self)@.assembly_kits.filter(kit_of_other_project(project_id@)),
            ..old(self)@
        }));
        Ok(())
    }
}

fn incremented(count: i64) -> (more: i64)
    ensures
        more == one_more(count),
{
    if count < i64::MAX {
        count + 1
    } else {
        count
    }
}

proof fn lemma_filter_length<R>(rows: Seq<R>, keep: spec_fn(R) -> bool)
    ensures
        rows.filter(keep).len() <= rows.len(),
    decreases rows.len(),
{
    reveal(Seq::filter);
    if rows.len() > 0 {
        lemma_filter_length(rows.drop_last(), keep);
    }
}

/// What stays of a sequence was in it, was to be kept, and keeps its order.
proof fn lemma_filter_elements<R>(rows: Seq<R>, keep: spec_fn(R) -> bool)
    ensures
        forall|i: int|
            0 <= i < rows.filter(keep).len() ==> keep(#[trigger] rows.filter(keep)[i]) && exists|
                j: int,
            |
                0 <= j < rows.len() && rows[j] == rows.filter(keep)[i],
    decreases rows.len(),
{
    reveal(Seq::filter);
    if rows.len() > 0 {
        let init = rows.drop_last();
        lemma_filter_elements(init, keep);
        assert forall|i: int| 0 <= i < rows.filter(keep).len() implies keep(
            #[trigger] rows.filter(keep)[i],
        ) && exists|j: int| 0 <= j < rows.len() && rows[j] == rows.filter(keep)[i] by {
            if i < init.filter(keep).len() {
                let j = choose|j: int| 0 <= j < init.len() && init[j] == init.filter(keep)[i];
                assert(rows[j] == rows.filter(keep)[i]);
            } else {
                assert(rows[rows.len() - 1] == rows.filter(keep)[i]);
            }
        }
    }
}

proof fn lemma_filter_ids(rows: Seq<ArtifactRow>, keep: spec_fn(ArtifactRow) -> bool)
    requires
        forall|i: int, j: int|
            #![trigger rows[i], rows[j]]
            0 <= i < j < rows.len() ==> rows[i].id != rows[j].id,
    ensures
        forall|i: int, j: int|
            #![trigger rows.filter(keep)[i], rows.filter(keep)[j]]
            0 <= i < j < rows.filter(keep).len() ==> rows.filter(keep)[i].id != rows.filter(
                keep,
            )[j].id,
    decreases rows.len(),
{
    reveal(Seq::filter);
    if rows.len() > 0 {
        let init = rows.drop_last();
        assert forall|i: int, j: int|
            #![trigger init[i], init[j]]
            0 <= i < j < init.len() implies init[i].id != init[j].id by {
            assert(rows[i].id != rows[j].id);
        }
        lemma_filter_ids(init, keep);
        lemma_filter_elements(init, keep);
        let kept = rows.filter(keep);
        let kept_init = init.filter(keep);
        assert forall|i: int, j: int|
            #![trigger kept[i], kept[j]]
            0 <= i < j < kept.len() implies kept[i].id != kept[j].id by {
            if j < kept_init.len() {
                assert(kept_init[i].id != kept_init[j].id);
            } else {
                assert(kept[i] == kept_init[i]);
                let k = choose|k: int| 0 <= k < init.len() && init[k] == kept_init[i];
                assert(rows[k].id != rows[rows.len() - 1].id);
            }
        }
    }
}

/// Removing a project with all that hangs on it leaves no row without the row
/// that it names.
proof fn lemma_without_project_wf(state: DbState, id: Seq<char>)
    requires
        state.wf(),
    ensures
        state.without_project(id).wf(),
{
    let keep_project = other_project(id);
    let keep_job = job_of_other_project(id);
    let keep_artifact = artifact_of_other_project(state.jobs, id);
    let keep_kit = kit_of_other_project(id);
    let after = state.without_project(id);
    table::lemma_filtered(state.projects, keep_project);
    table::lemma_filtered(state.jobs, keep_job);
    table::lemma_filtered(state.assembly_kits, keep_kit);
    lemma_filter_elements(state.jobs, keep_job);
    lemma_filter_elements(state.artifacts, keep_artifact);
    lemma_filter_elements(state.assembly_kits, keep_kit);
    lemma_filter_ids(state.artifacts, keep_artifact);
    assert forall|i: int| 0 <= i < after.jobs.len() implies table::has_key(
        after.projects,
        (#[trigger] after.jobs[i]).project_id@,
    ) by {
        let key = after.jobs[i].project_id@;
        let j = choose|j: int| 0 <= j < state.jobs.len() && state.jobs[j] == after.jobs[i];
        assert(table::has_key(state.projects, state.jobs[j].project_id@));
        assert(table::lookup(after.projects, key) is Some);
    }
    assert forall|i: int| 0 <= i < after.assembly_kits.len() implies table::has_key(
        after.projects,
        (#[trigger] after.assembly_kits[i]).project_id@,
    ) by {
        let key = after.assembly_kits[i].project_id@;
        let j = choose|j: int|
            0 <= j < state.assembly_kits.len() && state.assembly_kits[j] == after.assembly_kits[i];
        assert(table::has_key(state.projects, state.assembly_kits[j].project_id@));
        assert(table::lookup(after.projects, key) is Some);
    }
    assert forall|i: int| 0 <= i < after.artifacts.len() implies table::has_key(
        after.jobs,
        (#[trigger] after.artifacts[i]).job_id@,
    ) by {
        let key = after.artifacts[i].job_id@;
        let j = choose|j: int|
            0 <= j < state.artifacts.len() && state.artifacts[j] == after.artifacts[i];
        assert(table::has_key(state.jobs, state.artifacts[j].job_id@));
        assert(keep_artifact(after.artifacts[i]));
        assert(table::lookup(after.jobs, key) is Some);
    }
    assert forall|i: int| 0 <= i < after.artifacts.len() implies 0 < (
    #[trigger] after.artifacts[i]).id < after.next_artifact_id by {
        let j = choose|j: int|
            0 <= j < state.artifacts.len() && state.artifacts[j] == after.artifacts[i];
        assert(0 < state.artifacts[j].id);
    }
}

/// The latest job of a project is one of its jobs, none of its jobs was created
/// after it, and there is one unless the project has no job.
pub proof fn law_latest_job(jobs: Seq<JobRow>, project_id: Seq<char>)
    ensures
        match latest_of(jobs, project_id) {
            Some(job) => {
                &&& exists|i: int| 0 <= i < jobs.len() && #[trigger] jobs[i] == job
                &&& job.project_id@ == project_id
                &&& forall|i: int|
                    0 <= i < jobs.len() && (#[trigger] jobs[i]).project_id@ == project_id
                        ==> jobs[i].created_at <= job.created_at
            },
            None => forall|i: int|
                0 <= i < jobs.len() ==> (#[trigger] jobs[i]).project_id@ != project_id,
        },
    decreases jobs.len(),
{
    if jobs.len() > 0 {
        let init = jobs.drop_last();
        law_latest_job(init, project_id);
        assert forall|i: int| 0 <= i < jobs.len() - 1 implies jobs[i] == #[trigger] init[i] by {}
        match latest_of(init, project_id) {
            Some(best) => {
                let k = choose|i: int| 0 <= i < init.len() && #[trigger] init[i] == best;
                assert(jobs[k] == best);
            },
            None => {},
        }
        assert(jobs[jobs.len() - 1] == jobs.last());
        assert forall|i: int|
            0 <= i < jobs.len() && (#[trigger] jobs[i]).project_id@ == project_id implies jobs[i].created_at
            <= latest_of(jobs, project_id)->0.created_at by {
            if i < jobs.len() - 1 {
                assert(init[i] == jobs[i]);
            }
        }
        assert forall|i: int|
            0 <= i < jobs.len() && latest_of(jobs, project_id) is None implies (
        #[trigger] jobs[i]).project_id@ != project_id by {
            if i < jobs.len() - 1 {
                assert(init[i] == jobs[i]);
            }
        }
    }
}

/// Storing a project makes it the one under its id, with the time of creation
/// of the project that was there, if any, and all else as stored; every other
/// project stays, and storing the same again changes nothing.
pub proof fn law_upsert_then_get(state: DbState, row: ProjectRow)
    requires
        state.wf(),
    ensures
        state.with_project(row).project(row.id@) == Some(state.merged_project(row)),
        state.project(row.id@) matches Some(existing) ==> state.with_project(row).project(row.id@)
            == Some(ProjectRow { created_at: existing.created_at, ..row }),
        state.project(row.id@) is None ==> state.with_project(row).project(row.id@) == Some(row),
        forall|other: Seq<char>|
            other != row.id@ ==> #[trigger] state.with_project(row).project(other)
                == state.project(other),
        state.with_project(row).with_project(row) == state.with_project(row),
{
    let merged = state.merged_project(row);
    table::lemma_stored(state.projects, merged);
    let once = state.with_project(row);
    assert(once.merged_project(row) == merged);
    table::lemma_stored(once.projects, merged);
    let p = table::position(once.projects, row.id@);
    assert(table::has_key(once.projects, row.id@));
    assert(once.projects[p] == merged);
    assert(table::stored(once.projects, merged) =~= once.projects);
    assert(once.with_project(row) =~= once);
}

/// What is stored under an assembly's project is read back, with the time of
/// creation of the assembly that was there, if any; the assemblies of other
/// projects stay; a removed assembly is no longer there.
pub proof fn law_kit_upsert_get_delete(state: DbState, row: AssemblyKitRow, removed: Seq<char>)
    requires
        state.wf(),
    ensures
        table::lookup(state.with_kit(row).assembly_kits, row.project_id@) == Some(
            state.merged_kit(row),
        ),
        state.merged_kit(row).assembly_json == row.assembly_json,
        state.merged_kit(row).updated_at == row.updated_at,
        forall|other: Seq<char>|
            other != row.project_id@ ==> #[trigger] table::lookup(
                state.with_kit(row).assembly_kits,
                other,
            ) == table::lookup(state.assembly_kits, other),
        table::lookup(state.assembly_kits.filter(kit_of_other_project(removed)), removed) is None,
        forall|other: Seq<char>|
            other != removed ==> #[trigger] table::lookup(
                state.assembly_kits.filter(kit_of_other_project(removed)),
                other,
            ) == table::lookup(state.assembly_kits, other),
{
    table::lemma_stored(state.assembly_kits, state.merged_kit(row));
    table::lemma_filtered(state.assembly_kits, kit_of_other_project(removed));
    lemma_lookup_key(state.assembly_kits);
}

/// What is found under a key has that key.
proof fn lemma_lookup_key<R: table::Keyed>(rows: Seq<R>)
    ensures
        forall|key: Seq<char>|
            #![trigger table::lookup(rows, key)]
            table::lookup(rows, key) matches Some(row) ==> row.key_text() == key,
{
}

proof fn lemma_latest_of_filtered(jobs: Seq<JobRow>, removed: Seq<char>, project_id: Seq<char>)
    ensures
        latest_of(jobs.filter(job_of_other_project(removed)), project_id) == (if project_id
            == removed {
            None
        } else {
            latest_of(jobs, project_id)
        }),
    decreases jobs.len(),
{
    reveal(Seq::filter);
    let keep = job_of_other_project(removed);
    if jobs.len() > 0 {
        let init = jobs.drop_last();
        lemma_latest_of_filtered(init, removed, project_id);
        if keep(jobs.last()) {
            assert(jobs.filter(keep) == init.filter(keep).push(jobs.last()));
            assert(jobs.filter(keep).drop_last() =~= init.filter(keep));
        }
    }
}

proof fn lemma_filter_filter<R>(
    rows: Seq<R>,
    keep: spec_fn(R) -> bool,
    pick: spec_fn(R) -> bool,
    kept: bool,
)
    requires
        forall|i: int| 0 <= i < rows.len() && pick(#[trigger] rows[i]) ==> keep(rows[i]) == kept,
    ensures
        kept ==> rows.filter(keep).filter(pick) == rows.filter(pick),
        !kept ==> rows.filter(keep).filter(pick).len() == 0,
    decreases rows.len(),
{
    reveal(Seq::filter);
    if rows.len() > 0 {
        let init = rows.drop_last();
        let last = rows.last();
        assert(rows[rows.len() - 1] == last);
        assert forall|i: int| 0 <= i < init.len() && pick(#[trigger] init[i]) implies keep(init[i])
            == kept by {
            assert(rows[i] == init[i]);
        }
        lemma_filter_filter(init, keep, pick, kept);
        if keep(last) {
            assert(rows.filter(keep) == init.filter(keep).push(last));
            assert(rows.filter(keep).drop_last() =~= init.filter(keep));
        }
    }
}

/// Removing a project removes all that hangs on it: it is no longer there, it
/// has no latest job, none of its jobs has an artifact, and it has no assembly.
/// The projects, jobs, artifacts and assemblies of every other project stay,
/// and so do the settings and the cache.
pub proof fn law_delete_cascades(state: DbState, id: Seq<char>)
    requires
        state.wf(),
    ensures
        state.without_project(id).wf(),
        state.without_project(id).project(id) is None,
        latest_of(state.without_project(id).jobs, id) is None,
        forall|i: int|
            0 <= i < state.jobs.len() && (#[trigger] state.jobs[i]).project_id@ == id
                ==> state.without_project(id).artifacts.filter(
                artifact_of_job(state.jobs[i].id@),
            ).len() == 0,
        table::lookup(state.without_project(id).assembly_kits, id) is None,
        forall|other: Seq<char>|
            other != id ==> #[trigger] state.without_project(id).project(other) == state.project(
                other,
            ),
        forall|other: Seq<char>|
            other != id ==> #[trigger] latest_of(state.without_project(id).jobs, other)
                == latest_of(state.jobs, other),
        forall|i: int|
            0 <= i < state.jobs.len() && (#[trigger] state.jobs[i]).project_id@ != id
                ==> state.without_project(id).artifacts.filter(artifact_of_job(state.jobs[i].id@))
                == state.artifacts.filter(artifact_of_job(state.jobs[i].id@)),
        forall|other: Seq<char>|
            other != id ==> #[trigger] table::lookup(
                state.without_project(id).assembly_kits,
                other,
            ) == table::lookup(state.assembly_kits, other),
        state.without_project(id).settings == state.settings,
        state.without_project(id).tts_cache == state.tts_cache,
{
    lemma_without_project_wf(state, id);
    table::lemma_filtered(state.projects, other_project(id));
    table::lemma_filtered(state.assembly_kits, kit_of_other_project(id));
    lemma_lookup_key(state.projects);
    lemma_lookup_key(state.assembly_kits);
    lemma_latest_of_filtered(state.jobs, id, id);
    assert forall|other: Seq<char>| other != id implies #[trigger] latest_of(
        state.without_project(id).jobs,
        other,
    ) == latest_of(state.jobs, other) by {
        lemma_latest_of_filtered(state.jobs, id, other);
    }
    let keep = artifact_of_other_project(state.jobs, id);
    assert forall|i: int| 0 <= i < state.jobs.len() implies (if (
    #[trigger] state.jobs[i]).project_id@ == id {
        state.without_project(id).artifacts.filter(artifact_of_job(state.jobs[i].id@)).len() == 0
    } else {
        state.without_project(id).artifacts.filter(artifact_of_job(state.jobs[i].id@))
            == state.artifacts.filter(artifact_of_job(state.jobs[i].id@))
    }) by {
        let job = state.jobs[i];
        let pick = artifact_of_job(job.id@);
        table::lemma_position(state.jobs, i);
        assert forall|k: int|
            0 <= k < state.artifacts.len() && pick(#[trigger] state.artifacts[k]) implies keep(
            state.artifacts[k],
        ) == (job.project_id@ != id) by {
            assert(state.artifacts[k].job_id@ == job.id@);
        }
        lemma_filter_filter(state.artifacts, keep, pick, job.project_id@ != id);
    }
}

/// A new job becomes the latest of its project unless a job of the project was
/// created after it; the latest job of every other project stays.
pub proof fn law_new_job_is_latest(state: DbState, row: JobRow)
    requires
        state.wf(),
        table::lookup(state.jobs, row.id@) is None,
    ensures
        latest_of(state.with_job(row).jobs, row.project_id@) == (match latest_of(
            state.jobs,
            row.project_id@,
        ) {
            Some(best) => if best.created_at > row.created_at {
                Some(best)
            } else {
                Some(row)
            },
            None => Some(row),
        }),
        forall|other: Seq<char>|
            other != row.project_id@ ==> #[trigger] latest_of(state.with_job(row).jobs, other)
                == latest_of(state.jobs, other),
{
    let after = state.with_job(row).jobs;
    assert(after == state.jobs.push(row));
    assert(after.drop_last() =~= state.jobs);
    assert(after.last() == row);
}

/// A new artifact gets a number that no artifact of the store has, and comes
/// last among the artifacts of its job; those of every other job stay.
pub proof fn law_new_artifact_is_listed(state: DbState, row: ArtifactRow, job_id: Seq<char>)
    requires
        state.wf(),
    ensures
        forall|i: int|
            0 <= i < state.artifacts.len() ==> (#[trigger] state.artifacts[i]).id
                != state.next_artifact_id,
        state.with_new_artifact(row).artifacts.filter(artifact_of_job(job_id)) == (if job_id
            == row.job_id@ {
            state.artifacts.filter(artifact_of_job(job_id)).push(
                ArtifactRow { id: state.next_artifact_id as i64, ..row },
            )
        } else {
            state.artifacts.filter(artifact_of_job(job_id))
        }),
{
    reveal(Seq::filter);
    let after = state.with_new_artifact(row).artifacts;
    assert(after.drop_last() =~= state.artifacts);
    assert(after.last() == (ArtifactRow { id: state.next_artifact_id as i64, ..row }));
}

/// A cache entry is read back as it was stored; stored over an entry that was
/// there it has that entry's time of creation and one use more. The entries
/// under other keys stay, and the cache grows by one exactly where there was no
/// entry.
pub proof fn law_tts_upsert_then_lookup(state: DbState, row: TtsCacheRow)
    requires
        state.wf(),
    ensures
        table::lookup(state.with_tts(row).tts_cache, row.cache_key@) == Some(
            state.merged_tts(row),
        ),
        table::lookup(state.tts_cache, row.cache_key@) is None ==> state.merged_tts(row) == row,
        table::lookup(state.tts_cache, row.cache_key@) matches Some(existing)
            ==> state.merged_tts(row).audio_path == row.audio_path && state.merged_tts(
            row,
        ).access_count == one_more(existing.access_count),
        forall|other: Seq<char>|
            other != row.cache_key@ ==> #[trigger] table::lookup(
                state.with_tts(row).tts_cache,
                other,
            ) == table::lookup(state.tts_cache, other),
        state.with_tts(row).tts_cache.len() == state.tts_cache.len() + (if table::has_key(
            state.tts_cache,
            row.cache_key@,
        ) {
            0int
        } else {
            1
        }),
{
    table::lemma_stored(state.tts_cache, state.merged_tts(row));
}

/// Noting uses neither adds nor removes an entry. An entry has one use more for
/// each time that its key was among the keys, and the time of the last one; all
/// else of it stays.
pub proof fn law_touch_notes_uses(cache: Seq<TtsCacheRow>, keys: Seq<String>, now: i64)
    requires
        table::unique_keys(cache),
    ensures
        table::unique_keys(touched_all(cache, keys, now)),
        touched_all(cache, keys, now).len() == cache.len(),
        forall|key: Seq<char>|
            #![trigger table::lookup(touched_all(cache, keys, now), key)]
            table::lookup(touched_all(cache, keys, now), key) == (match table::lookup(cache, key) {
                Some(row) => Some(used(row, uses(keys, key), now)),
                None => None,
            }),
    decreases keys.len(),
{
    if keys.len() > 0 {
        let earlier = touched_all(cache, keys.drop_last(), now);
        law_touch_notes_uses(cache, keys.drop_last(), now);
        let key = keys.last()@;
        lemma_lookup_key(earlier);
        if let Some(row) = table::lookup(earlier, key) {
            let after = touched_all(cache, keys, now);
            let again = TtsCacheRow {
                accessed_at: now,
                access_count: one_more(row.access_count),
                ..row
            };
            table::lemma_stored(earlier, again);
            assert(after == table::stored(earlier, again));
            assert(again == used(table::lookup(cache, key)->0, uses(keys, key), now));
        }
    }
}

/// Clearing the cache removes exactly the entries created before the cutoff.
pub proof fn law_clear_expired(cache: Seq<TtsCacheRow>, cutoff: i64, key: Seq<char>)
    requires
        table::unique_keys(cache),
    ensures
        table::lookup(cache.filter(created_since(cutoff)), key) == (match table::lookup(
            cache,
            key,
        ) {
            Some(row) => if row.created_at >= cutoff {
                Some(row)
            } else {
                None
            },
            None => None,
        }),
{
    table::lemma_filtered(cache, created_since(cutoff));
}

/// An empty store has no rows, the third schema, and one as its next number.
pub proof fn law_empty_store()
    ensures
        DbState::empty().schema_version == 3,
        DbState::empty().projects.len() == 0,
        DbState::empty().jobs.len() == 0,
        DbState::empty().artifacts.len() == 0,
        DbState::empty().next_artifact_id == 1,
        DbState::empty().settings.len() == 0,
        DbState::empty().tts_cache.len() == 0,
        DbState::empty().assembly_kits.len() == 0,
        DbState::empty().wf(),
{
}

/// Storing a project leaves all else in the store as it was, and the number of
/// projects too where the id was there already.
pub proof fn law_upsert_leaves_the_rest(state: DbState, row: ProjectRow)
    requires
        state.wf(),
    ensures
        state.with_project(row) == (DbState {
            projects: state.with_project(row).projects,
            ..state
        }),
        state.project(row.id@) is Some ==> state.with_project(row).projects.len()
            == state.projects.len(),
        state.project(row.id@) is None ==> state.with_project(row).projects == state.projects.push(
            row,
        ),
{
}

/// A stored job is found under its id with every field as it was stored, but for
/// the time of creation of a job that was there already, which stays. Every other
/// job stays, and so does all else in the store.
pub proof fn law_job_upsert_then_lookup(state: DbState, row: JobRow)
    requires
        state.wf(),
    ensures
        table::lookup(state.jobs, row.id@) is None ==> table::lookup(
            state.with_job(row).jobs,
            row.id@,
        ) == Some(row),
        table::lookup(state.jobs, row.id@) matches Some(existing) ==> table::lookup(
            state.with_job(row).jobs,
            row.id@,
        ) == Some(JobRow { created_at: existing.created_at, ..row }),
        forall|other: Seq<char>|
            other != row.id@ ==> #[trigger] table::lookup(state.with_job(row).jobs, other)
                == table::lookup(state.jobs, other),
        state.with_job(row) == (DbState { jobs: state.with_job(row).jobs, ..state }),
{
    table::lemma_stored(state.jobs, state.merged_job(row));
}

/// A stored assembly is found under its project with every field as it was stored,
/// but for the time of creation of an assembly that was there already, which
/// stays. All else in the store stays.
pub proof fn law_kit_is_stored_whole(state: DbState, row: AssemblyKitRow)
    requires
        state.wf(),
    ensures
        table::lookup(state.assembly_kits, row.project_id@) is None ==> table::lookup(
            state.with_kit(row).assembly_kits,
            row.project_id@,
        ) == Some(row),
        table::lookup(state.assembly_kits, row.project_id@) matches Some(existing)
            ==> table::lookup(state.with_kit(row).assembly_kits, row.project_id@) == Some(
            AssemblyKitRow { created_at: existing.created_at, ..row },
        ),
        state.with_kit(row) == (DbState {
            assembly_kits: state.with_kit(row).assembly_kits,
            ..state
        }),
{
    table::lemma_stored(state.assembly_kits, state.merged_kit(row));
}

/// A stored cache entry is found under its key with every field as it was stored,
/// but for an entry that was there already: then the time of creation stays and
/// the number of uses is one higher, up to the largest number. All else in the
/// store stays.
pub proof fn law_tts_is_stored_whole(state: DbState, row: TtsCacheRow)
    requires
        state.wf(),
    ensures
        table::lookup(state.tts_cache, row.cache_key@) is None ==> table::lookup(
            state.with_tts(row).tts_cache,
            row.cache_key@,
        ) == Some(row),
        table::lookup(state.tts_cache, row.cache_key@) matches Some(existing) ==> table::lookup(
            state.with_tts(row).tts_cache,
            row.cache_key@,
        ) == Some(
            TtsCacheRow {
                created_at: existing.created_at,
                access_count: if existing.access_count < i64::MAX {
                    (existing.access_count + 1) as i64
                } else {
                    i64::MAX
                },
                ..row
            },
        ),
        state.with_tts(row) == (DbState { tts_cache: state.with_tts(row).tts_cache, ..state }),
{
    table::lemma_stored(state.tts_cache, state.merged_tts(row));
}

/// Noting uses at a time: an entry whose key is among the keys was last used at
/// that time, and one use is counted for each time that the key is there, up to
/// the largest number; no other field changes, and no other entry does.
pub proof fn law_touch_field_by_field(
    cache: Seq<TtsCacheRow>,
    keys: Seq<String>,
    now: i64,
    key: Seq<char>,
)
    requires
        table::unique_keys(cache),
    ensures
        table::lookup(cache, key) is None ==> table::lookup(touched_all(cache, keys, now), key)
            is None,
        table::lookup(cache, key) matches Some(row) ==> {
            &&& table::lookup(touched_all(cache, keys, now), key) matches Some(after)
            &&& after == (TtsCacheRow {
                accessed_at: after.accessed_at,
                access_count: after.access_count,
                ..row
            })
            &&& (exists|i: int| 0 <= i < keys.len() && (#[trigger] keys[i])@ == key)
                ==> after.accessed_at == now
            &&& (forall|i: int| 0 <= i < keys.len() ==> (#[trigger] keys[i])@ != key) ==> after
                == row
            &&& after.access_count == (if row.access_count + keys.filter(
                text_is(key),
            ).len() <= i64::MAX {
                row.access_count + keys.filter(text_is(key)).len()
            } else {
                i64::MAX as int
            })
        },
{
    law_touch_notes_uses(cache, keys, now);
    lemma_uses_counts(keys, key);
}

/// Which texts are the given one.
pub open spec fn text_is(key: Seq<char>) -> spec_fn(String) -> bool {
    |text: String| text@ == key
}

proof fn lemma_uses_counts(keys: Seq<String>, key: Seq<char>)
    ensures
        uses(keys, key) == keys.filter(text_is(key)).len(),
        uses(keys, key) > 0 <==> exists|i: int| 0 <= i < keys.len() && (#[trigger] keys[i])@ == key,
    decreases keys.len(),
{
    reveal(Seq::filter);
    if keys.len() > 0 {
        let init = keys.drop_last();
        lemma_uses_counts(init, key);
        if uses(init, key) > 0 {
            let i = choose|i: int| 0 <= i < init.len() && (#[trigger] init[i])@ == key;
            assert(keys[i]@ == key);
        }
        if keys.last()@ == key {
            assert(keys[keys.len() - 1]@ == key);
        }
        if exists|i: int| 0 <= i < keys.len() && (#[trigger] keys[i])@ == key {
            let i = choose|i: int| 0 <= i < keys.len() && (#[trigger] keys[i])@ == key;
            if i < init.len() {
                assert(init[i]@ == key);
            }
        }
    }
}

/// Which keys some entry of the cache has.
pub open spec fn text_in(cache: Seq<TtsCacheRow>) -> spec_fn(String) -> bool {
    |text: String|
        exists|i: int| 0 <= i < cache.len() && (#[trigger] cache[i]).cache_key@ == text@
}

/// As many uses are told as there are keys, each as often as it occurs, that some
/// entry has.
pub proof fn law_hits_count_known_keys(cache: Seq<TtsCacheRow>, keys: Seq<String>)
    ensures
        hits(cache, keys) == keys.filter(text_in(cache)).len(),
    decreases keys.len(),
{
    reveal(Seq::filter);
    if keys.len() > 0 {
        law_hits_count_known_keys(cache, keys.drop_last());
        let key = keys.last()@;
        assert(table::has_key(cache, key) <==> text_in(cache)(keys.last())) by {
            if table::has_key(cache, key) {
                let p = table::position(cache, key);
                assert(cache[p].cache_key@ == key);
            }
            if text_in(cache)(keys.last()) {
                let i = choose|i: int|
                    0 <= i < cache.len() && (#[trigger] cache[i]).cache_key@ == key;
                assert(cache[i].key_text() == key);
            }
        }
    }
}

/// An artifact that is stored over the one with its number takes its place; every
/// other artifact stays, and so does all else in the store.
pub proof fn law_artifact_takes_the_place(state: DbState, row: ArtifactRow)
    requires
        state.wf(),
    ensures
        artifact_at(state.artifacts, row.id) is None <==> forall|i: int|
            0 <= i < state.artifacts.len() ==> (#[trigger] state.artifacts[i]).id != row.id,
        artifact_at(state.artifacts, row.id) matches Some(at) ==> {
            &&& 0 <= at < state.artifacts.len()
            &&& state.with_artifact(at, row).artifacts.len() == state.artifacts.len()
            &&& forall|i: int|
                #![trigger state.artifacts[i]]
                0 <= i < state.artifacts.len() ==> state.with_artifact(at, row).artifacts[i] == (
                if state.artifacts[i].id == row.id {
                    row
                } else {
                    state.artifacts[i]
                })
            &&& state.with_artifact(at, row) == (DbState {
                artifacts: state.with_artifact(at, row).artifacts,
                ..state
            })
        },
{
}

/// A new artifact comes last in the store, with the next number, and the number
/// after it is the next one; all else in the store stays.
pub proof fn law_new_artifact_is_added(state: DbState, row: ArtifactRow)
    ensures
        state.with_new_artifact(row).artifacts == state.artifacts.push(
            ArtifactRow { id: state.next_artifact_id as i64, ..row },
        ),
        state.with_new_artifact(row).next_artifact_id == state.next_artifact_id + 1,
        state.with_new_artifact(row) == (DbState {
            artifacts: state.with_new_artifact(row).artifacts,
            next_artifact_id: state.with_new_artifact(row).next_artifact_id,
            ..state
        }),
{
}

proof fn lemma_filter_contains<R>(rows: Seq<R>, keep: spec_fn(R) -> bool, i: int)
    requires
        0 <= i < rows.len(),
        keep(rows[i]),
    ensures
        rows.filter(keep).contains(rows[i]),
    decreases rows.len(),
{
    reveal(Seq::filter);
    let init = rows.drop_last();
    if i < init.len() {
        assert(init[i] == rows[i]);
        lemma_filter_contains(init, keep, i);
        let k = init.filter(keep).index_of(rows[i]);
        assert(rows.filter(keep)[k] == rows[i]);
    } else {
        let kept = rows.filter(keep);
        assert(kept == init.filter(keep).push(rows.last()));
        assert(kept[kept.len() - 1] == rows[i]);
    }
}

/// The artifacts of a job are those of the store that name the job, and all of
/// them.
pub proof fn law_artifacts_of_a_job(artifacts: Seq<ArtifactRow>, job_id: Seq<char>)
    ensures
        forall|i: int|
            #![trigger artifacts.filter(artifact_of_job(job_id))[i]]
            0 <= i < artifacts.filter(artifact_of_job(job_id)).len() ==> artifacts.filter(
                artifact_of_job(job_id),
            )[i].job_id@ == job_id && artifacts.contains(
                artifacts.filter(artifact_of_job(job_id))[i],
            ),
        forall|i: int|
            0 <= i < artifacts.len() && (#[trigger] artifacts[i]).job_id@ == job_id
                ==> artifacts.filter(artifact_of_job(job_id)).contains(artifacts[i]),
{
    let keep = artifact_of_job(job_id);
    lemma_filter_elements(artifacts, keep);
    assert forall|i: int|
        0 <= i < artifacts.len() && (#[trigger] artifacts[i]).job_id@ == job_id implies artifacts.filter(
        keep,
    ).contains(artifacts[i]) by {
        lemma_filter_contains(artifacts, keep, i);
    }
}

/// Removing a project keeps the jobs of all other projects as they are, the schema,
/// and the next number, so that no number is given twice.
pub proof fn law_delete_keeps_other_jobs(state: DbState, id: Seq<char>, job_id: Seq<char>)
    requires
        state.wf(),
    ensures
        table::lookup(state.without_project(id).jobs, job_id) == (match table::lookup(
            state.jobs,
            job_id,
        ) {
            Some(job) => if job.project_id@ == id {
                None
            } else {
                Some(job)
            },
            None => None,
        }),
        state.without_project(id).next_artifact_id == state.next_artifact_id,
        state.without_project(id).schema_version == state.schema_version,
{
    table::lemma_filtered(state.jobs, job_of_other_project(id));
}

/// A setting has the value of the row with its key, and none where no row has it.
pub proof fn law_setting_is_the_row(state: DbState, key: Seq<char>)
    requires
        state.wf(),
    ensures
        forall|i: int|
            0 <= i < state.settings.len() && (#[trigger] state.settings[i]).key@ == key
                ==> state.setting(key) == Some(state.settings[i].value@),
        (forall|i: int| 0 <= i < state.settings.len() ==> (#[trigger] state.settings[i]).key@ != key)
            ==> state.setting(key) is None,
{
    assert forall|i: int|
        0 <= i < state.settings.len() && (#[trigger] state.settings[i]).key@
            == key implies state.setting(key) == Some(state.settings[i].value@) by {
        table::lemma_position(state.settings, i);
    }
}

/// A project is the row with its id, and there is none where no row has it.
pub proof fn law_project_is_the_row(state: DbState, id: Seq<char>)
    requires
        state.wf(),
    ensures
        forall|i: int|
            0 <= i < state.projects.len() && (#[trigger] state.projects[i]).id@ == id
                ==> state.project(id) == Some(state.projects[i]),
        (forall|i: int| 0 <= i < state.projects.len() ==> (#[trigger] state.projects[i]).id@ != id)
            ==> state.project(id) is None,
{
    assert forall|i: int|
        0 <= i < state.projects.len() && (#[trigger] state.projects[i]).id@
            == id implies state.project(id) == Some(state.projects[i]) by {
        table::lemma_position(state.projects, i);
    }
}

/// In a store whose rows fit together the project of every job is there, and the job
/// of every artifact.
pub proof fn law_rows_fit_together(state: DbState)
    requires
        state.wf(),
    ensures
        forall|i: int|
            #![trigger state.jobs[i]]
            0 <= i < state.jobs.len() ==> exists|p: int|
                0 <= p < state.projects.len() && (#[trigger] state.projects[p]).id@
                    == state.jobs[i].project_id@,
        forall|i: int|
            #![trigger state.artifacts[i]]
            0 <= i < state.artifacts.len() ==> exists|j: int|
                0 <= j < state.jobs.len() && (#[trigger] state.jobs[j]).id@
                    == state.artifacts[i].job_id@,
{
    assert forall|i: int| #![trigger state.jobs[i]] 0 <= i < state.jobs.len() implies exists|p: int|
        0 <= p < state.projects.len() && (#[trigger] state.projects[p]).id@
            == state.jobs[i].project_id@ by {
        let key = state.jobs[i].project_id@;
        assert(table::has_key(state.projects, key));
        let p = table::position(state.projects, key);
        assert(state.projects[p].key_text() == key);
        assert(state.projects[p].id@ == key);
    }
    assert forall|i: int|
        #![trigger state.artifacts[i]]
        0 <= i < state.artifacts.len() implies exists|j: int|
        0 <= j < state.jobs.len() && (#[trigger] state.jobs[j]).id@ == state.artifacts[i].job_id@ by {
        let key = state.artifacts[i].job_id@;
        assert(table::has_key(state.jobs, key));
        let j = table::position(state.jobs, key);
        assert(state.jobs[j].key_text() == key);
        assert(state.jobs[j].id@ == key);
    }
}

/// In a store whose rows fit together the project of every assembly is there.
pub proof fn law_assemblies_have_projects(state: DbState, i: int)
    requires
        state.wf(),
        0 <= i < state.assembly_kits.len(),
    ensures
        exists|p: int|
            0 <= p < state.projects.len() && (#[trigger] state.projects[p]).id@
                == state.assembly_kits[i].project_id@,
{
    let key = state.assembly_kits[i].project_id@;
    assert(table::has_key(state.projects, key));
    let p = table::position(state.projects, key);
    assert(state.projects[p].key_text() == key);
    assert(state.projects[p].id@ == key);
}

/// In a store whose rows fit together no two projects, jobs, settings, cache entries
/// or assemblies share a key, and no two artifacts a number.
pub proof fn law_keys_are_unique(state: DbState)
    requires
        state.wf(),
    ensures
        forall|i: int, j: int|
            #![trigger state.projects[i], state.projects[j]]
            0 <= i < j < state.projects.len() ==> state.projects[i].id@ != state.projects[j].id@,
        forall|i: int, j: int|
            #![trigger state.jobs[i], state.jobs[j]]
            0 <= i < j < state.jobs.len() ==> state.jobs[i].id@ != state.jobs[j].id@,
        forall|i: int, j: int|
            #![trigger state.settings[i], state.settings[j]]
            0 <= i < j < state.settings.len() ==> state.settings[i].key@ != state.settings[j].key@,
        forall|i: int, j: int|
            #![trigger state.tts_cache[i], state.tts_cache[j]]
            0 <= i < j < state.tts_cache.len() ==> state.tts_cache[i].cache_key@
                != state.tts_cache[j].cache_key@,
        forall|i: int, j: int|
            #![trigger state.assembly_kits[i], state.assembly_kits[j]]
            0 <= i < j < state.assembly_kits.len() ==> state.assembly_kits[i].project_id@
                != state.assembly_kits[j].project_id@,
        forall|i: int, j: int|
            #![trigger state.artifacts[i], state.artifacts[j]]
            0 <= i < j < state.artifacts.len() ==> state.artifacts[i].id != state.artifacts[j].id,
{
    assert forall|i: int, j: int|
        #![trigger state.projects[i], state.projects[j]]
        0 <= i < j < state.projects.len() implies state.projects[i].id@ != state.projects[j].id@ by {
        assert(state.projects[i].key_text() != state.projects[j].key_text());
    }
    assert forall|i: int, j: int|
        #![trigger state.jobs[i], state.jobs[j]]
        0 <= i < j < state.jobs.len() implies state.jobs[i].id@ != state.jobs[j].id@ by {
        assert(state.jobs[i].key_text() != state.jobs[j].key_text());
    }
    assert forall|i: int, j: int|
        #![trigger state.settings[i], state.settings[j]]
        0 <= i < j < state.settings.len() implies state.settings[i].key@
        != state.settings[j].key@ by {
        assert(state.settings[i].key_text() != state.settings[j].key_text());
    }
    assert forall|i: int, j: int|
        #![trigger state.tts_cache[i], state.tts_cache[j]]
        0 <= i < j < state.tts_cache.len() implies state.tts_cache[i].cache_key@
        != state.tts_cache[j].cache_key@ by {
        assert(state.tts_cache[i].key_text() != state.tts_cache[j].key_text());
    }
    assert forall|i: int, j: int|
        #![trigger state.assembly_kits[i], state.assembly_kits[j]]
        0 <= i < j < state.assembly_kits.len() implies state.assembly_kits[i].project_id@
        != state.assembly_kits[j].project_id@ by {
        assert(state.assembly_kits[i].key_text() != state.assembly_kits[j].key_text());
    }
}

} // verus!
