//! Projects: what the user interface creates, lists, loads, saves and deletes.

use crate::calendar;
use crate::calendar::unix_to_iso;
use crate::clock;
use crate::clock::now_unix;
use crate::db;
use crate::db::Db;
use crate::db::DbState;
use crate::error::stringify_err;
use crate::error::DbError;
use crate::error::DbErrorView;
use crate::error::DbResult;
use crate::ids;
use crate::ids::unique_id;
use crate::intent;
use crate::intent::default_intent_config;
use crate::intent::intent_to_json;
use crate::intent::ContentIntent;
use crate::intent::IntentConfig;
use crate::json;
use crate::json::parse;
use crate::json::sqlx_err;
use crate::rows::F32Bits;
use crate::rows::F64Bits;
use crate::rows::JobRow;
use crate::rows::ProjectRow;
use crate::table;
use crate::text;
use serde_json::Error;
use serde_json::Value;
use std::time::SystemTime;
use vstd::prelude::*;

verus! {

/// The state of a job, for the user interface.
#[derive(Debug)]
pub struct JobDto {
    pub id: String,
    pub project_id: String,
    pub phase: String,
    pub phase_status: Value,
    pub progress_pct: F32Bits,
    pub error: Option<String>,
    pub created_at: String,
    pub updated_at: String,
}

impl Clone for JobDto {
    fn clone(&self) -> (copy: Self)
        ensures
            copy == *self,
    {
        JobDto {
            id: self.id.clone(),
            project_id: self.project_id.clone(),
            phase: self.phase.clone(),
            phase_status: self.phase_status.clone(),
            progress_pct: self.progress_pct,
            error: self.error.clone(),
            created_at: self.created_at.clone(),
            updated_at: self.updated_at.clone(),
        }
    }
}

/// A project with the state of its latest job, for the user interface.
#[derive(Debug)]
pub struct ProjectDto {
    pub id: String,
    pub name: String,
    pub intent: IntentConfig,
    pub video_path: String,
    pub subtitle_path: Option<String>,
    pub created_at: String,
    pub updated_at: String,
    pub latest_job: Option<JobDto>,
}

impl Clone for ProjectDto {
    fn clone(&self) -> (copy: Self)
        ensures
            copy == *self,
    {
        ProjectDto {
            id: self.id.clone(),
            name: self.name.clone(),
            intent: self.intent,
            video_path: self.video_path.clone(),
            subtitle_path: self.subtitle_path.clone(),
            created_at: self.created_at.clone(),
            updated_at: self.updated_at.clone(),
            latest_job: self.latest_job.clone(),
        }
    }
}

/// A file that a job produced, for the user interface.
#[derive(Debug)]
pub struct ArtifactDto {
    pub id: i64,
    pub job_id: String,
    pub phase: String,
    pub artifact_type: String,
    pub path: String,
    pub metadata: Option<Value>,
    pub created_at: String,
}

impl Clone for ArtifactDto {
    fn clone(&self) -> (copy: Self)
        ensures
            copy == *self,
    {
        ArtifactDto {
            id: self.id,
            job_id: self.job_id.clone(),
            phase: self.phase.clone(),
            artifact_type: self.artifact_type.clone(),
            path: self.path.clone(),
            metadata: self.metadata.clone(),
            created_at: self.created_at.clone(),
        }
    }
}

/// What a new project is made from. Duration and metadata are taken along for
/// the production that is assembled later; the store does not hold them.
#[derive(Debug)]
pub struct CreateProjectInput {
    pub id: Option<String>,
    pub name: String,
    pub video_path: String,
    pub duration_secs: F64Bits,
    pub metadata: Value,
    pub intent: Option<IntentConfig>,
}

impl Clone for CreateProjectInput {
    fn clone(&self) -> (copy: Self)
        ensures
            copy == *self,
    {
        CreateProjectInput {
            id: self.id.clone(),
            name: self.name.clone(),
            video_path: self.video_path.clone(),
            duration_secs: self.duration_secs,
            metadata: self.metadata.clone(),
            intent: self.intent,
        }
    }
}

/// What is stored of a project that is there already.
#[derive(Debug)]
pub struct SaveProjectInput {
    pub id: String,
    pub name: String,
    pub intent: IntentConfig,
    pub video_path: String,
    pub subtitle_path: Option<String>,
}

impl Clone for SaveProjectInput {
    fn clone(&self) -> (copy: Self)
        ensures
            copy == *self,
    {
        SaveProjectInput {
            id: self.id.clone(),
            name: self.name.clone(),
            intent: self.intent,
            video_path: self.video_path.clone(),
            subtitle_path: self.subtitle_path.clone(),
        }
    }
}

/// The content of a job's state.
pub struct JobDtoView {
    pub id: Seq<char>,
    pub project_id: Seq<char>,
    pub phase: Seq<char>,
    pub phase_status: Value,
    pub progress_pct: F32Bits,
    pub error: Option<Seq<char>>,
    pub created_at: Seq<char>,
    pub updated_at: Seq<char>,
}

/// The content of a project with the state of its latest job.
pub struct ProjectDtoView {
    pub id: Seq<char>,
    pub name: Seq<char>,
    pub intent: IntentConfig,
    pub video_path: Seq<char>,
    pub subtitle_path: Option<Seq<char>>,
    pub created_at: Seq<char>,
    pub updated_at: Seq<char>,
    pub latest_job: Option<JobDtoView>,
}

/// The content of an optional text.
pub open spec fn optional_text(text: Option<String>) -> Option<Seq<char>> {
    match text {
        Some(text) => Some(text@),
        None => None,
    }
}

impl View for JobDto {
    type V = JobDtoView;

    open spec fn view(&self) -> JobDtoView {
        JobDtoView {
            id: self.id@,
            project_id: self.project_id@,
            phase: self.phase@,
            phase_status: self.phase_status,
            progress_pct: self.progress_pct,
            error: optional_text(self.error),
            created_at: self.created_at@,
            updated_at: self.updated_at@,
        }
    }
}

impl View for ProjectDto {
    type V = ProjectDtoView;

    open spec fn view(&self) -> ProjectDtoView {
        ProjectDtoView {
            id: self.id@,
            name: self.name@,
            intent: self.intent,
            video_path: self.video_path@,
            subtitle_path: optional_text(self.subtitle_path),
            created_at: self.created_at@,
            updated_at: self.updated_at@,
            latest_job: match self.latest_job {
                Some(job) => Some(job@),
                None => None,
            },
        }
    }
}

/// The outcome of a store operation that yields a project.
pub open spec fn outcome(result: DbResult<ProjectDto>) -> Result<ProjectDtoView, DbErrorView> {
    match result {
        Ok(dto) => Ok(dto@),
        Err(e) => Err(e@),
    }
}

/// The outcome of a store operation that yields a job.
pub open spec fn job_outcome(result: DbResult<JobDto>) -> Result<JobDtoView, DbErrorView> {
    match result {
        Ok(dto) => Ok(dto@),
        Err(e) => Err(e@),
    }
}

/// The contents of some projects.
pub open spec fn dto_views(dtos: Seq<ProjectDto>) -> Seq<ProjectDtoView> {
    dtos.map_values(|dto: ProjectDto| dto@)
}

/// The outcome of a store operation that yields projects.
pub open spec fn list_outcome(result: DbResult<Vec<ProjectDto>>) -> Result<
    Seq<ProjectDtoView>,
    DbErrorView,
> {
    match result {
        Ok(list) => Ok(dto_views(list@)),
        Err(e) => Err(e@),
    }
}

/// What the user interface is told for an outcome: the message of an error.
pub open spec fn told<T>(outcome: Result<T, DbErrorView>) -> Result<T, Seq<char>> {
    match outcome {
        Ok(value) => Ok(value),
        Err(e) => Err(e.message()),
    }
}

/// What the user interface is told when it asked for a project.
pub open spec fn told_project(result: Result<ProjectDto, String>) -> Result<
    ProjectDtoView,
    Seq<char>,
> {
    match result {
        Ok(dto) => Ok(dto@),
        Err(message) => Err(message@),
    }
}

/// What the user interface is told when it asked for the projects.
pub open spec fn told_list(result: Result<Vec<ProjectDto>, String>) -> Result<
    Seq<ProjectDtoView>,
    Seq<char>,
> {
    match result {
        Ok(list) => Ok(dto_views(list@)),
        Err(message) => Err(message@),
    }
}

/// The state of a job, or the error where its phase status is no JSON.
pub open spec fn job_dto(job: JobRow) -> Result<JobDtoView, DbErrorView> {
    match json::json_parsed(job.phase_status_json@) {
        Err(e) => Err(json::json_db_error(e)),
        Ok(phase_status) => Ok(
            JobDtoView {
                id: job.id@,
                project_id: job.project_id@,
                phase: job.phase@,
                phase_status,
                progress_pct: job.progress_pct,
                error: optional_text(job.error_json),
                created_at: calendar::iso_text(job.created_at),
                updated_at: calendar::iso_text(job.updated_at),
            },
        ),
    }
}

/// The state of a project's latest job, if it has one.
pub open spec fn latest_job_dto(state: DbState, id: Seq<char>) -> Result<
    Option<JobDtoView>,
    DbErrorView,
> {
    match db::latest_of(state.jobs, id) {
        None => Ok(None),
        Some(job) => match job_dto(job) {
            Ok(dto) => Ok(Some(dto)),
            Err(e) => Err(e),
        },
    }
}

/// A project row, whose intent was read as `read`, with the state of its latest
/// job. It fails where the intent could not be read, else where the phase status
/// of the latest job cannot.
pub open spec fn project_dto(
    state: DbState,
    row: ProjectRow,
    read: Result<IntentConfig, Error>,
) -> Result<ProjectDtoView, DbErrorView> {
    match read {
        Err(e) => Err(json::json_db_error(e)),
        Ok(intent) => match latest_job_dto(state, row.id@) {
            Err(e) => Err(e),
            Ok(latest_job) => Ok(
                ProjectDtoView {
                    id: row.id@,
                    name: row.name@,
                    intent,
                    video_path: row.video_path@,
                    subtitle_path: optional_text(row.subtitle_path),
                    created_at: calendar::iso_text(row.created_at),
                    updated_at: calendar::iso_text(row.updated_at),
                    latest_job,
                },
            ),
        },
    }
}

/// The projects of some rows, whose intents were read as `reads`, in their
/// order, or the first error.
pub open spec fn project_dtos(
    state: DbState,
    rows: Seq<ProjectRow>,
    reads: Seq<Result<IntentConfig, Error>>,
) -> Result<Seq<ProjectDtoView>, DbErrorView>
    decreases rows.len(),
{
    if rows.len() == 0 {
        Ok(Seq::empty())
    } else {
        match project_dtos(state, rows.drop_last(), reads.drop_last()) {
            Err(e) => Err(e),
            Ok(earlier) => match project_dto(state, rows.last(), reads.last()) {
                Err(e) => Err(e),
                Ok(dto) => Ok(earlier.push(dto)),
            },
        }
    }
}

/// The store, the running number of project ids, and the function that reads
/// the intent of a project from its JSON text.
pub struct ProjectService<P> {
    db: Db,
    next_number: u64,
    read_intent: P,
}

/// The content of a project service.
pub struct ServiceState<P> {
    pub db: DbState,
    pub next_number: u64,
    pub read_intent: P,
}

impl<P> View for ProjectService<P> {
    type V = ServiceState<P>;

    closed spec fn view(&self) -> ServiceState<P> {
        ServiceState {
            db: self.db@,
            next_number: self.next_number,
            read_intent: self.read_intent,
        }
    }
}

impl<P: Fn(&str) -> Result<IntentConfig, Error>> ServiceState<P> {
    /// Whether every text can be handed to the function that reads intents.
    pub open spec fn reads_all(self) -> bool {
        forall|s: &str| call_requires(self.read_intent, (s,))
    }

    /// Whether the service can be used.
    pub open spec fn wf(self) -> bool {
        self.db.wf() && self.reads_all()
    }
}

impl<P> ProjectService<P> {
    /// A service over a store; its ids start with the running number zero. The
    /// running numbers of two services are not kept apart: a process holds one
    /// service. Intents are read by `read_intent`.
    pub fn new(db: Db, read_intent: P) -> (service: ProjectService<P>)
        ensures
            service@ == (ServiceState { db: db@, next_number: 0, read_intent }),
    {
        ProjectService { db, next_number: 0, read_intent }
    }

    /// The store.
    pub fn db(&self) -> (db: &Db)
        ensures
            db@ == self@.db,
    {
        &self.db
    }

    /// The store, to change it.
    pub fn db_mut(&mut self) -> (db: &mut Db)
        ensures
            db@ == old(self)@.db,
            final(self)@ == (ServiceState { db: final(db)@, ..old(self)@ }),
    {
        &mut self.db
    }
}

/// Whether a service may answer so when it is asked for the project under an id:
/// with an error where there is none, else with the project as its intent was
/// read.
pub open spec fn loads<P: Fn(&str) -> Result<IntentConfig, Error>>(
    service: ServiceState<P>,
    id: Seq<char>,
    result: Result<ProjectDtoView, DbErrorView>,
) -> bool {
    match service.db.project(id) {
        None => result == Result::<ProjectDtoView, DbErrorView>::Err(DbErrorView::NotFound(id)),
        Some(row) => shows(service, row, result),
    }
}

/// Whether a service may show a row so.
pub open spec fn shows<P: Fn(&str) -> Result<IntentConfig, Error>>(
    service: ServiceState<P>,
    row: ProjectRow,
    result: Result<ProjectDtoView, DbErrorView>,
) -> bool {
    exists|read: Result<IntentConfig, Error>| #[trigger]
        intent::may_read(service.read_intent, row.intent_json@, read) && result == project_dto(
            service.db,
            row,
            read,
        )
}

/// Whether a service may answer so when it is asked for its projects, having
/// read their intents as `reads`, one after the other up to the first error.
pub open spec fn lists<P: Fn(&str) -> Result<IntentConfig, Error>>(
    service: ServiceState<P>,
    reads: Seq<Result<IntentConfig, Error>>,
    result: Result<Seq<ProjectDtoView>, DbErrorView>,
) -> bool {
    let rows = service.db.projects;
    &&& reads.len() <= rows.len()
    &&& forall|i: int|
        0 <= i < reads.len() ==> intent::may_read(
            service.read_intent,
            rows[i].intent_json@,
            #[trigger] reads[i],
        )
    &&& result == project_dtos(service.db, rows.take(reads.len() as int), reads)
    &&& reads.len() < rows.len() ==> result is Err
}

/// The intent of a new project.
pub open spec fn given_intent(input: CreateProjectInput) -> IntentConfig {
    match input.intent {
        Some(config) => config,
        None => intent::default_intent(),
    }
}

/// Whether `row` is what a new project with an id is stored as at a time.
pub open spec fn is_new_row(
    row: ProjectRow,
    input: CreateProjectInput,
    id: Seq<char>,
    now: i64,
) -> bool {
    &&& row.id@ == id
    &&& row.name@ == input.name@
    &&& row.intent_json@ == intent::intent_text(given_intent(input))
    &&& row.video_path@ == input.video_path@
    &&& row.subtitle_path is None
    &&& row.created_at == now
    &&& row.updated_at == now
}

/// Whether `row` is what a project is saved as at a time.
pub open spec fn is_saved_row(
    row: ProjectRow,
    input: SaveProjectInput,
    existing: ProjectRow,
    now: i64,
) -> bool {
    &&& row.id@ == input.id@
    &&& row.name@ == input.name@
    &&& row.intent_json@ == intent::intent_text(input.intent)
    &&& row.video_path@ == input.video_path@
    &&& optional_text(row.subtitle_path) == optional_text(input.subtitle_path)
    &&& row.created_at == existing.created_at
    &&& row.updated_at == now
}

/// Whether creating a project under an id at a time leads from one service to
/// another, with this outcome: the row is stored, and the project is shown as
/// the row says.
pub open spec fn creates<P: Fn(&str) -> Result<IntentConfig, Error>>(
    before: ServiceState<P>,
    after: ServiceState<P>,
    input: CreateProjectInput,
    id: Seq<char>,
    now: i64,
    result: Result<ProjectDtoView, DbErrorView>,
) -> bool {
    &&& after.read_intent == before.read_intent
    &&& exists|row: ProjectRow|
        #![trigger before.db.with_project(row)]
        {
            &&& is_new_row(row, input, id, now)
            &&& after.db == before.db.with_project(row)
            &&& shows(after, row, result)
        }
}

/// Whether creating a project at some time of the clock leads from one service
/// to another, with this outcome. The project has the id of the input, or else
/// an id of some time of the clock and the running number, which then moves on.
pub open spec fn creates_now<P: Fn(&str) -> Result<IntentConfig, Error>>(
    before: ServiceState<P>,
    after: ServiceState<P>,
    input: CreateProjectInput,
    result: Result<ProjectDtoView, DbErrorView>,
) -> bool {
    match input.id {
        Some(id) => {
            &&& after.next_number == before.next_number
            &&& exists|time: SystemTime|
                creates(before, after, input, id@, #[trigger] clock::seconds_at(time), result)
        },
        None => {
            &&& after.next_number == ids::next_number(before.next_number)
            &&& exists|time: SystemTime, named: SystemTime|
                creates(
                    before,
                    after,
                    input,
                    ids::project_id_text(#[trigger] clock::millis_at(named), before.next_number),
                    #[trigger] clock::seconds_at(time),
                    result,
                )
        },
    }
}

/// Whether saving a project at a time leads from one service to another, with
/// this outcome: a project that is not there is an error and nothing changes,
/// else the row is stored, and the project is shown as the row says.
pub open spec fn saves<P: Fn(&str) -> Result<IntentConfig, Error>>(
    before: ServiceState<P>,
    after: ServiceState<P>,
    input: SaveProjectInput,
    now: i64,
    result: Result<ProjectDtoView, DbErrorView>,
) -> bool {
    &&& after.read_intent == before.read_intent
    &&& after.next_number == before.next_number
    &&& match before.db.project(input.id@) {
        None => after.db == before.db && result == Result::<ProjectDtoView, DbErrorView>::Err(
            DbErrorView::NotFound(input.id@),
        ),
        Some(existing) => exists|row: ProjectRow|
            #![trigger before.db.with_project(row)]
            {
                &&& is_saved_row(row, input, existing, now)
                &&& after.db == before.db.with_project(row)
                &&& shows(after, row, result)
            },
    }
}

/// The state of a job, for the user interface.
pub fn job_to_dto(j: JobRow) -> (dto: DbResult<JobDto>)
    ensures
        job_outcome(dto) == job_dto(j),
{
    match parse(j.phase_status_json.as_str()) {
        Err(e) => Err(sqlx_err(e)),
        Ok(phase_status) => Ok(
            JobDto {
                id: j.id,
                project_id: j.project_id,
                phase: j.phase,
                phase_status,
                progress_pct: j.progress_pct,
                error: j.error_json,
                created_at: unix_to_iso(j.created_at),
                updated_at: unix_to_iso(j.updated_at),
            },
        ),
    }
}

/// A project row with the state of its latest job, for the user interface.
pub fn load_by_row<P: Fn(&str) -> Result<IntentConfig, Error>>(
    service: &ProjectService<P>,
    row: ProjectRow,
) -> (dto: DbResult<ProjectDto>)
    requires
        service@.reads_all(),
    ensures
        shows(service@, row, outcome(dto)),
{
    let read: Result<IntentConfig, Error> = (service.read_intent)(row.intent_json.as_str());
    assert(intent::may_read(service@.read_intent, row.intent_json@, read));
    let intent: IntentConfig = match read {
        Ok(intent) => intent,
        Err(e) => {
            return Err(sqlx_err(e));
        },
    };
    let latest_job: Option<JobDto> = match service.db().latest_job(row.id.as_str()) {
        Ok(Some(job)) => match job_to_dto(job) {
            Ok(dto) => Some(dto),
            Err(e) => {
                return Err(e);
            },
        },
        Ok(None) => None,
        Err(e) => {
            return Err(e);
        },
    };
    Ok(
        ProjectDto {
            id: row.id,
            name: row.name,
            intent,
            video_path: row.video_path,
            subtitle_path: row.subtitle_path,
            created_at: unix_to_iso(row.created_at),
            updated_at: unix_to_iso(row.updated_at),
            latest_job,
        },
    )
}

/// Creates a project under an id at a time.
pub fn create_at<P: Fn(&str) -> Result<IntentConfig, Error>>(
    service: &mut ProjectService<P>,
    input: CreateProjectInput,
    id: String,
    now: i64,
) -> (dto: DbResult<ProjectDto>)
    requires
        old(service)@.wf(),
    ensures
        creates(old(service)@, final(service)@, input, id@, now, outcome(dto)),
        final(service)@.wf(),
        final(service)@.next_number == old(service)@.next_number,
{
    let config: IntentConfig = match input.intent {
        Some(config) => config,
        None => default_intent_config(),
    };
    let intent_json: String = match intent_to_json(&config) {
        Ok(text) => text,
        Err(e) => {
            return Err(e);
        },
    };
    let row = ProjectRow {
        id,
        name: input.name,
        intent_json,
        video_path: input.video_path,
        subtitle_path: None,
        created_at: now,
        updated_at: now,
    };
    let ghost stored = row;
    match service.db_mut().upsert_project(&row) {
        Ok(_) => {},
        Err(e) => {
            return Err(e);
        },
    }
    assert(is_new_row(stored, input, id@, now));
    assert(service@.db == old(service)@.db.with_project(stored));
    load_by_row(service, row)
}

/// Creates a project at the current time. Without an id in the input it gets a
/// new one.
pub fn create<P: Fn(&str) -> Result<IntentConfig, Error>>(
    service: &mut ProjectService<P>,
    input: CreateProjectInput,
) -> (dto: DbResult<ProjectDto>)
    requires
        old(service)@.wf(),
    ensures
        final(service)@.wf(),
        creates_now(old(service)@, final(service)@, input, outcome(dto)),
{
    let now: i64 = now_unix();
    let id: String = match &input.id {
        Some(id) => id.clone(),
        None => unique_id(&mut service.next_number),
    };
    let ghost chosen = id@;
    let ghost number = old(service)@.next_number;
    let ghost named = service@;
    assert(named.db == old(service)@.db && named.read_intent == old(service)@.read_intent);
    let dto = create_at(service, input, id, now);
    proof {
        assert(creates(named, service@, input, chosen, now, outcome(dto)));
        assert(creates(old(service)@, service@, input, chosen, now, outcome(dto)));
        let time = choose|time: SystemTime| now == #[trigger] clock::seconds_at(time);
        assert(now == clock::seconds_at(time));
        if input.id is None {
            let named = choose|named: SystemTime|
                chosen == ids::project_id_text(#[trigger] clock::millis_at(named), number);
            assert(chosen == ids::project_id_text(clock::millis_at(named), number));
        }
    }
    dto
}

/// All projects, in the order in which they were first stored.
pub fn list<P: Fn(&str) -> Result<IntentConfig, Error>>(service: &ProjectService<P>) -> (dtos:
    DbResult<Vec<ProjectDto>>)
    requires
        service@.reads_all(),
    ensures
        exists|reads: Seq<Result<IntentConfig, Error>>|
            lists(service@, reads, list_outcome(dtos)),
{
    let rows: Vec<ProjectRow> = match service.db().list_projects() {
        Ok(rows) => rows,
        Err(e) => {
            return Err(e);
        },
    };
    let mut out: Vec<ProjectDto> = Vec::with_capacity(rows.len());
    let mut i: usize = 0;
    let ghost mut reads: Seq<Result<IntentConfig, Error>> = Seq::empty();
    assert(dto_views(out@) =~= Seq::<ProjectDtoView>::empty());
    while i < rows.len()
        invariant
            i <= rows@.len(),
            rows@ == service@.db.projects,
            service@.reads_all(),
            reads.len() == i,
            forall|j: int|
                0 <= j < i ==> intent::may_read(
                    service@.read_intent,
                    rows@[j].intent_json@,
                    #[trigger] reads[j],
                ),
            project_dtos(service@.db, rows@.take(i as int), reads) == Result::<
                Seq<ProjectDtoView>,
                DbErrorView,
            >::Ok(dto_views(out@)),
        decreases rows@.len() - i,
    {
        assert(rows@.take(i + 1).drop_last() =~= rows@.take(i as int));
        assert(rows@.take(i + 1).last() == rows@[i as int]);
        let loaded = load_by_row(service, rows[i].clone());
        let ghost read = choose|read: Result<IntentConfig, Error>| #[trigger]
            intent::may_read(service@.read_intent, rows@[i as int].intent_json@, read) && outcome(
                loaded,
            ) == project_dto(service@.db, rows@[i as int], read);
        proof {
            let earlier = reads;
            reads = earlier.push(read);
            assert(reads.drop_last() =~= earlier);
        }
        match loaded {
            Ok(dto) => {
                let ghost before = out@;
                out.push(dto);
                assert(dto_views(out@) =~= dto_views(before).push(dto@));
            },
            Err(e) => {
                let failed: DbResult<Vec<ProjectDto>> = Err(e);
                assert(lists(service@, reads, list_outcome(failed)));
                return failed;
            },
        }
        i = i + 1;
    }
    assert(rows@.take(i as int) =~= rows@);
    let listed: DbResult<Vec<ProjectDto>> = Ok(out);
    assert(lists(service@, reads, list_outcome(listed)));
    listed
}

/// The project under an id.
pub fn load<P: Fn(&str) -> Result<IntentConfig, Error>>(
    service: &ProjectService<P>,
    id: &str,
) -> (dto: DbResult<ProjectDto>)
    requires
        service@.wf(),
    ensures
        loads(service@, id@, outcome(dto)),
{
    match service.db().get_project(id) {
        Ok(row) => load_by_row(service, row),
        Err(e) => Err(e),
    }
}

/// Saves a project at a time.
pub fn save_at<P: Fn(&str) -> Result<IntentConfig, Error>>(
    service: &mut ProjectService<P>,
    input: SaveProjectInput,
    now: i64,
) -> (dto: DbResult<ProjectDto>)
    requires
        old(service)@.wf(),
    ensures
        saves(old(service)@, final(service)@, input, now, outcome(dto)),
        final(service)@.wf(),
{
    let existing: ProjectRow = match service.db().get_project(input.id.as_str()) {
        Ok(row) => row,
        Err(e) => {
            return Err(e);
        },
    };
    let intent_json: String = match intent_to_json(&input.intent) {
        Ok(text) => text,
        Err(e) => {
            return Err(e);
        },
    };
    let row = ProjectRow {
        id: input.id,
        name: input.name,
        intent_json,
        video_path: input.video_path,
        subtitle_path: input.subtitle_path,
        created_at: existing.created_at,
        updated_at: now,
    };
    let ghost stored = row;
    match service.db_mut().upsert_project(&row) {
        Ok(_) => {},
        Err(e) => {
            return Err(e);
        },
    }
    assert(is_saved_row(stored, input, existing, now));
    assert(service@.db == old(service)@.db.with_project(stored));
    load_by_row(service, row)
}

/// Saves a project at the current time.
pub fn save<P: Fn(&str) -> Result<IntentConfig, Error>>(
    service: &mut ProjectService<P>,
    input: SaveProjectInput,
) -> (dto: DbResult<ProjectDto>)
    requires
        old(service)@.wf(),
    ensures
        exists|time: SystemTime|
            saves(
                old(service)@,
                final(service)@,
                input,
                #[trigger] clock::seconds_at(time),
                outcome(dto),
            ),
        final(service)@.wf(),
{
    save_at(service, input, now_unix())
}

/// Creates a project for the user interface.
pub fn project_create<P: Fn(&str) -> Result<IntentConfig, Error>>(
    input: CreateProjectInput,
    service: &mut ProjectService<P>,
) -> (answer: Result<ProjectDto, String>)
    requires
        old(service)@.wf(),
    ensures
        final(service)@.wf(),
        exists|result: Result<ProjectDtoView, DbErrorView>|
            creates_now(old(service)@, final(service)@, input, result) && told_project(answer)
                == told(result),
{
    let created = create(service, input);
    let ghost result = outcome(created);
    let answer = match created {
        Ok(dto) => Ok(dto),
        Err(e) => Err(stringify_err(e)),
    };
    assert(creates_now(old(service)@, service@, input, result));
    assert(told_project(answer) == told(result));
    answer
}

/// Lists all projects for the user interface.
pub fn project_list<P: Fn(&str) -> Result<IntentConfig, Error>>(
    service: &ProjectService<P>,
) -> (answer: Result<Vec<ProjectDto>, String>)
    requires
        service@.reads_all(),
    ensures
        exists|
            reads: Seq<Result<IntentConfig, Error>>,
            result: Result<Seq<ProjectDtoView>, DbErrorView>,
        |
            lists(service@, reads, result) && told_list(answer) == told(result),
{
    let listed = list(service);
    let ghost result = list_outcome(listed);
    let answer = match listed {
        Ok(dtos) => Ok(dtos),
        Err(e) => Err(stringify_err(e)),
    };
    assert(told_list(answer) == told(result));
    answer
}

/// Loads a project for the user interface.
pub fn project_load<P: Fn(&str) -> Result<IntentConfig, Error>>(
    id: String,
    service: &ProjectService<P>,
) -> (answer: Result<ProjectDto, String>)
    requires
        service@.wf(),
    ensures
        exists|result: Result<ProjectDtoView, DbErrorView>|
            loads(service@, id@, result) && told_project(answer) == told(result),
{
    let loaded = load(service, id.as_str());
    let ghost result = outcome(loaded);
    let answer = match loaded {
        Ok(dto) => Ok(dto),
        Err(e) => Err(stringify_err(e)),
    };
    assert(told_project(answer) == told(result));
    answer
}

/// Saves a project for the user interface.
pub fn project_save<P: Fn(&str) -> Result<IntentConfig, Error>>(
    input: SaveProjectInput,
    service: &mut ProjectService<P>,
) -> (answer: Result<ProjectDto, String>)
    requires
        old(service)@.wf(),
    ensures
        final(service)@.wf(),
        exists|time: SystemTime, result: Result<ProjectDtoView, DbErrorView>|
            saves(
                old(service)@,
                final(service)@,
                input,
                #[trigger] clock::seconds_at(time),
                result,
            ) && told_project(answer) == #[trigger] told(result),
{
    let saved = save(service, input);
    let ghost result = outcome(saved);
    let answer = match saved {
        Ok(dto) => Ok(dto),
        Err(e) => Err(stringify_err(e)),
    };
    assert(told_project(answer) == told(result));
    answer
}

/// Deletes a project, with its jobs and artifacts, for the user interface.
pub fn project_delete<P>(id: String, service: &mut ProjectService<P>) -> (answer: Result<
    (),
    String,
>)
    requires
        old(service)@.db.wf(),
    ensures
        answer == Result::<(), String>::Ok(()),
        final(service)@ == (ServiceState {
            db: old(service)@.db.without_project(id@),
            ..old(service)@
        }),
        final(service)@.db.wf(),
{
    match service.db_mut().delete_project(id.as_str()) {
        Ok(_) => Ok(()),
        Err(e) => Err(stringify_err(e)),
    }
}

/// What is shown of a row rests on the row, on how its intent was read, and on
/// the jobs alone.
proof fn lemma_dtos_rest_on_jobs(
    a: DbState,
    b: DbState,
    rows: Seq<ProjectRow>,
    reads: Seq<Result<IntentConfig, Error>>,
)
    requires
        a.jobs == b.jobs,
    ensures
        project_dtos(a, rows, reads) == project_dtos(b, rows, reads),
    decreases rows.len(),
{
    if rows.len() > 0 {
        lemma_dtos_rest_on_jobs(a, b, rows.drop_last(), reads.drop_last());
    }
}

/// A row is shown the same by two services that read intents the same way and
/// have the same latest job for it.
proof fn lemma_shown_the_same<P: Fn(&str) -> Result<IntentConfig, Error>>(
    a: ServiceState<P>,
    b: ServiceState<P>,
    row: ProjectRow,
)
    requires
        a.read_intent == b.read_intent,
        db::latest_of(a.db.jobs, row.id@) == db::latest_of(b.db.jobs, row.id@),
    ensures
        forall|result: Result<ProjectDtoView, DbErrorView>|
            #![trigger shows(a, row, result)]
            #![trigger shows(b, row, result)]
            shows(a, row, result) <==> shows(b, row, result),
{
    assert forall|read: Result<IntentConfig, Error>| #[trigger]
        project_dto(a.db, row, read) == project_dto(b.db, row, read) by {}
    assert forall|result: Result<ProjectDtoView, DbErrorView>|
        #![trigger shows(a, row, result)]
        #![trigger shows(b, row, result)]
        shows(a, row, result) <==> shows(b, row, result) by {
        if shows(a, row, result) {
            let read = choose|read: Result<IntentConfig, Error>| #[trigger]
                intent::may_read(a.read_intent, row.intent_json@, read) && result == project_dto(
                    a.db,
                    row,
                    read,
                );
            assert(intent::may_read(b.read_intent, row.intent_json@, read));
        }
        if shows(b, row, result) {
            let read = choose|read: Result<IntentConfig, Error>| #[trigger]
                intent::may_read(b.read_intent, row.intent_json@, read) && result == project_dto(
                    b.db,
                    row,
                    read,
                );
            assert(project_dto(a.db, row, read) == project_dto(b.db, row, read));
            assert(intent::may_read(a.read_intent, row.intent_json@, read));
        }
    }
}

/// A project that is created under an id that no project has, with a reader that
/// gives back what is written: creating it succeeds and shows what was given,
/// without a subtitle and without a job, created and updated at that time;
/// loading it afterwards shows the same; the list of the projects has it at its
/// end; every other project is as it was.
pub proof fn law_create_then_load<P: Fn(&str) -> Result<IntentConfig, Error>>(
    before: ServiceState<P>,
    after: ServiceState<P>,
    input: CreateProjectInput,
    id: Seq<char>,
    now: i64,
    result: Result<ProjectDtoView, DbErrorView>,
)
    requires
        before.wf(),
        intent::gives_back(before.read_intent),
        before.db.project(id) is None,
        creates(before, after, input, id, now, result),
    ensures
        result == Result::<ProjectDtoView, DbErrorView>::Ok(
            ProjectDtoView {
                id,
                name: input.name@,
                intent: given_intent(input),
                video_path: input.video_path@,
                subtitle_path: None,
                created_at: calendar::iso_text(now),
                updated_at: calendar::iso_text(now),
                latest_job: None,
            },
        ),
        forall|answer: Result<ProjectDtoView, DbErrorView>| #[trigger]
            loads(after, id, answer) ==> answer == result,
        forall|reads: Seq<Result<IntentConfig, Error>>|
            reads.len() == before.db.projects.len() ==> #[trigger] project_dtos(
                after.db,
                after.db.projects,
                reads.push(Ok(given_intent(input))),
            ) == (match project_dtos(before.db, before.db.projects, reads) {
                Ok(list) => Result::<Seq<ProjectDtoView>, DbErrorView>::Ok(list.push(result->Ok_0)),
                Err(e) => Err(e),
            }),
        forall|other: Seq<char>, answer: Result<ProjectDtoView, DbErrorView>|
            other != id ==> (#[trigger] loads(after, other, answer) <==> loads(
                before,
                other,
                answer,
            )),
{
    let row = choose|row: ProjectRow|
        #![trigger before.db.with_project(row)]
        {
            &&& is_new_row(row, input, id, now)
            &&& after.db == before.db.with_project(row)
            &&& shows(after, row, result)
        };
    let old_db = before.db;
    let new_db = after.db;
    table::lemma_stored(old_db.projects, row);
    db::law_latest_job(old_db.jobs, id);
    if db::latest_of(old_db.jobs, id) is Some {
        let i = choose|i: int|
            0 <= i < old_db.jobs.len() && #[trigger] old_db.jobs[i] == db::latest_of(
                old_db.jobs,
                id,
            )->0;
        assert(table::has_key(old_db.projects, old_db.jobs[i].project_id@));
    }
    assert(new_db.projects =~= old_db.projects.push(row));
    assert(new_db.projects.drop_last() =~= old_db.projects);
    assert forall|reads: Seq<Result<IntentConfig, Error>>|
        reads.len() == old_db.projects.len() implies #[trigger] project_dtos(
        new_db,
        new_db.projects,
        reads.push(Ok(given_intent(input))),
    ) == (match project_dtos(old_db, old_db.projects, reads) {
        Ok(list) => Result::<Seq<ProjectDtoView>, DbErrorView>::Ok(list.push(result->Ok_0)),
        Err(e) => Err(e),
    }) by {
        let all = reads.push(Ok(given_intent(input)));
        assert(all.drop_last() =~= reads);
        lemma_dtos_rest_on_jobs(old_db, new_db, old_db.projects, reads);
    }
    lemma_others_load_the_same(before, after, id);
}

/// Where only the project under one id changed, every other project loads as
/// before.
proof fn lemma_others_load_the_same<P: Fn(&str) -> Result<IntentConfig, Error>>(
    before: ServiceState<P>,
    after: ServiceState<P>,
    id: Seq<char>,
)
    requires
        after.read_intent == before.read_intent,
        forall|other: Seq<char>|
            other != id ==> #[trigger] after.db.project(other) == before.db.project(other),
        forall|other: Seq<char>|
            other != id ==> #[trigger] db::latest_of(after.db.jobs, other) == db::latest_of(
                before.db.jobs,
                other,
            ),
    ensures
        forall|other: Seq<char>, answer: Result<ProjectDtoView, DbErrorView>|
            other != id ==> (#[trigger] loads(after, other, answer) <==> loads(
                before,
                other,
                answer,
            )),
{
    assert forall|other: Seq<char>, answer: Result<ProjectDtoView, DbErrorView>|
        other != id implies (#[trigger] loads(after, other, answer) <==> loads(
        before,
        other,
        answer,
    )) by {
        assert(after.db.project(other) == before.db.project(other));
        if let Some(row) = before.db.project(other) {
            assert(row.id@ == other);
            assert(db::latest_of(after.db.jobs, other) == db::latest_of(before.db.jobs, other));
            lemma_shown_the_same(after, before, row);
        }
    }
}

/// Creating a project under the id of one that is there overwrites it: with a
/// reader that gives back what is written, loading it afterwards shows what
/// creating it showed, but for the time of creation, which stays.
pub proof fn law_create_over_existing<P: Fn(&str) -> Result<IntentConfig, Error>>(
    before: ServiceState<P>,
    after: ServiceState<P>,
    input: CreateProjectInput,
    id: Seq<char>,
    now: i64,
    result: Result<ProjectDtoView, DbErrorView>,
)
    requires
        before.wf(),
        intent::gives_back(before.read_intent),
        before.db.project(id) is Some,
        creates(before, after, input, id, now, result),
    ensures
        forall|answer: Result<ProjectDtoView, DbErrorView>| #[trigger]
            loads(after, id, answer) ==> answer == (match result {
                Ok(dto) => Result::<ProjectDtoView, DbErrorView>::Ok(
                    ProjectDtoView {
                        created_at: calendar::iso_text(before.db.project(id)->0.created_at),
                        ..dto
                    },
                ),
                Err(e) => Err(e),
            }),
        after.db.projects.len() == before.db.projects.len(),
        forall|other: Seq<char>, answer: Result<ProjectDtoView, DbErrorView>|
            other != id ==> (#[trigger] loads(after, other, answer) <==> loads(
                before,
                other,
                answer,
            )),
{
    let row = choose|row: ProjectRow|
        #![trigger before.db.with_project(row)]
        {
            &&& is_new_row(row, input, id, now)
            &&& after.db == before.db.with_project(row)
            &&& shows(after, row, result)
        };
    table::lemma_stored(before.db.projects, before.db.merged_project(row));
    lemma_others_load_the_same(before, after, id);
}

/// Saving a project that is there, with a reader that gives back what is
/// written, and loading it afterwards, shows the same: the name, intent, video
/// and subtitle that were saved, the time of creation that it had, and the time
/// at which it was saved. It fails only where the phase status of the latest job
/// cannot be read. Every other project is as it was, and so is the number of
/// projects.
pub proof fn law_save_then_load<P: Fn(&str) -> Result<IntentConfig, Error>>(
    before: ServiceState<P>,
    after: ServiceState<P>,
    input: SaveProjectInput,
    now: i64,
    result: Result<ProjectDtoView, DbErrorView>,
)
    requires
        before.wf(),
        intent::gives_back(before.read_intent),
        before.db.project(input.id@) is Some,
        saves(before, after, input, now, result),
    ensures
        forall|answer: Result<ProjectDtoView, DbErrorView>| #[trigger]
            loads(after, input.id@, answer) ==> answer == result,
        result == (match latest_job_dto(before.db, input.id@) {
            Ok(latest_job) => Result::<ProjectDtoView, DbErrorView>::Ok(
                ProjectDtoView {
                    id: input.id@,
                    name: input.name@,
                    intent: input.intent,
                    video_path: input.video_path@,
                    subtitle_path: optional_text(input.subtitle_path),
                    created_at: calendar::iso_text(before.db.project(input.id@)->0.created_at),
                    updated_at: calendar::iso_text(now),
                    latest_job,
                },
            ),
            Err(e) => Err(e),
        }),
        after.db.projects.len() == before.db.projects.len(),
        forall|other: Seq<char>, answer: Result<ProjectDtoView, DbErrorView>|
            other != input.id@ ==> (#[trigger] loads(after, other, answer) <==> loads(
                before,
                other,
                answer,
            )),
{
    let existing = before.db.project(input.id@)->0;
    let row = choose|row: ProjectRow|
        #![trigger before.db.with_project(row)]
        {
            &&& is_saved_row(row, input, existing, now)
            &&& after.db == before.db.with_project(row)
            &&& shows(after, row, result)
        };
    assert(before.db.merged_project(row) == row);
    table::lemma_stored(before.db.projects, row);
    lemma_others_load_the_same(before, after, input.id@);
}

/// A deleted project cannot be loaded; every other project is as it was.
pub proof fn law_delete_then_load<P: Fn(&str) -> Result<IntentConfig, Error>>(
    before: ServiceState<P>,
    id: Seq<char>,
)
    requires
        before.db.wf(),
    ensures
        forall|answer: Result<ProjectDtoView, DbErrorView>| #[trigger]
            loads(
                (ServiceState { db: before.db.without_project(id), ..before }),
                id,
                answer,
            ) <==> answer == Result::<ProjectDtoView, DbErrorView>::Err(DbErrorView::NotFound(id)),
        forall|other: Seq<char>, answer: Result<ProjectDtoView, DbErrorView>|
            other != id ==> (#[trigger] loads(
                (ServiceState { db: before.db.without_project(id), ..before }),
                other,
                answer,
            ) <==> loads(before, other, answer)),
{
    let after = ServiceState { db: before.db.without_project(id), ..before };
    db::law_delete_cascades(before.db, id);
    lemma_others_load_the_same(before, after, id);
}

/// A project fails to be shown exactly where its intent could not be read, or
/// the phase status of its latest job is no JSON; the error then carries the
/// message of `serde_json`.
pub proof fn law_when_a_project_fails(
    state: DbState,
    row: ProjectRow,
    read: Result<IntentConfig, Error>,
)
    ensures
        project_dto(state, row, read) is Err <==> read is Err || (db::latest_of(
            state.jobs,
            row.id@,
        ) matches Some(job) && json::json_parsed(job.phase_status_json@) is Err),
        read matches Err(e) ==> project_dto(state, row, read) == Result::<
            ProjectDtoView,
            DbErrorView,
        >::Err(DbErrorView::InvalidData("serde_json: "@ + json::json_error_text(e))),
        read is Ok ==> (project_dto(state, row, read) matches Err(error) ==> error
            == DbErrorView::InvalidData(
            "serde_json: "@ + json::json_error_text(
                json::json_parsed(
                    db::latest_of(state.jobs, row.id@)->0.phase_status_json@,
                )->Err_0,
            ),
        )),
{
}

/// The job that is shown is the job that is stored: where its phase status is
/// JSON, id, project, phase, progress and error are those of the row, the phase
/// status is what its text stands for, and the two times are written out. Where
/// it is no JSON, the error tells the reason that `serde_json` gives.
pub proof fn law_job_is_shown_as_stored(job: JobRow, result: DbResult<JobDto>)
    requires
        job_outcome(result) == job_dto(job),
    ensures
        json::json_parsed(job.phase_status_json@) matches Ok(status) ==> {
            &&& result matches Ok(dto)
            &&& dto.id@ == job.id@
            &&& dto.project_id@ == job.project_id@
            &&& dto.phase@ == job.phase@
            &&& dto.phase_status == status
            &&& dto.progress_pct.0 == job.progress_pct.0
            &&& job.error_json matches Some(text) ==> (dto.error matches Some(shown) && shown@
                == text@)
            &&& job.error_json is None ==> dto.error is None
            &&& dto.created_at@ == calendar::iso_text(job.created_at)
            &&& dto.updated_at@ == calendar::iso_text(job.updated_at)
            &&& dto@.id == job.id@
            &&& dto@.project_id == job.project_id@
            &&& dto@.phase == job.phase@
            &&& dto@.phase_status == status
            &&& dto@.progress_pct == job.progress_pct
            &&& dto@.created_at == calendar::iso_text(job.created_at)
            &&& dto@.updated_at == calendar::iso_text(job.updated_at)
        },
        json::json_parsed(job.phase_status_json@) matches Err(e) ==> (result matches Err(
            DbError::InvalidData(message),
        ) && message@ == "serde_json: "@ + json::json_error_text(e)),
{
}

/// The project that is shown is the project that is stored: id, name, video and
/// subtitle are those of the row, the intent is what was read from its text, and
/// the two times are written out. Its latest job is one of its own, none of its
/// jobs was created later, and there is none only where it has no job.
pub proof fn law_project_is_shown_as_stored<P: Fn(&str) -> Result<IntentConfig, Error>>(
    service: ServiceState<P>,
    row: ProjectRow,
    result: DbResult<ProjectDto>,
)
    requires
        shows(service, row, outcome(result)),
    ensures
        result matches Ok(dto) ==> {
            &&& dto.id@ == row.id@
            &&& dto.name@ == row.name@
            &&& exists|s: &str|
                s@ == row.intent_json@ && #[trigger] call_ensures(
                    service.read_intent,
                    (s,),
                    Ok(dto.intent),
                )
            &&& dto.video_path@ == row.video_path@
            &&& row.subtitle_path matches Some(path) ==> (dto.subtitle_path matches Some(shown)
                && shown@ == path@)
            &&& row.subtitle_path is None ==> dto.subtitle_path is None
            &&& dto.created_at@ == calendar::iso_text(row.created_at)
            &&& dto.updated_at@ == calendar::iso_text(row.updated_at)
            &&& dto.latest_job is None <==> forall|i: int|
                0 <= i < service.db.jobs.len() ==> (#[trigger] service.db.jobs[i]).project_id@
                    != row.id@
            &&& dto.latest_job matches Some(job) ==> exists|i: int|
                {
                    &&& 0 <= i < service.db.jobs.len()
                    &&& (#[trigger] service.db.jobs[i]).project_id@ == row.id@
                    &&& forall|j: int|
                        0 <= j < service.db.jobs.len() && (
                        #[trigger] service.db.jobs[j]).project_id@ == row.id@
                            ==> service.db.jobs[j].created_at <= service.db.jobs[i].created_at
                    &&& job.id@ == service.db.jobs[i].id@
                    &&& job.project_id@ == row.id@
                    &&& job.phase@ == service.db.jobs[i].phase@
                    &&& json::json_parsed(service.db.jobs[i].phase_status_json@) == Result::<
                        Value,
                        Error,
                    >::Ok(job.phase_status)
                    &&& job.progress_pct.0 == service.db.jobs[i].progress_pct.0
                    &&& service.db.jobs[i].error_json matches Some(text) ==> (
                    job.error matches Some(shown) && shown@ == text@)
                    &&& service.db.jobs[i].error_json is None ==> job.error is None
                    &&& job.created_at@ == calendar::iso_text(service.db.jobs[i].created_at)
                    &&& job.updated_at@ == calendar::iso_text(service.db.jobs[i].updated_at)
                }
        },
        result matches Err(error) ==> (error matches DbError::InvalidData(message) && ((exists|
            e: Error,
        |
            (exists|s: &str|
                s@ == row.intent_json@ && #[trigger] call_ensures(
                    service.read_intent,
                    (s,),
                    Err(e),
                )) && message@ == "serde_json: "@ + #[trigger] json::json_error_text(e)) || (exists|
            i: int,
        |
            0 <= i < service.db.jobs.len() && (#[trigger] service.db.jobs[i]).project_id@ == row.id@
                && (json::json_parsed(service.db.jobs[i].phase_status_json@) matches Err(e)
                && message@ == "serde_json: "@ + json::json_error_text(e))))),
{
    let read = choose|read: Result<IntentConfig, Error>| #[trigger]
        intent::may_read(service.read_intent, row.intent_json@, read) && outcome(result)
            == project_dto(service.db, row, read);
    db::law_latest_job(service.db.jobs, row.id@);
    match db::latest_of(service.db.jobs, row.id@) {
        None => {},
        Some(job) => {
            let i = choose|i: int|
                0 <= i < service.db.jobs.len() && #[trigger] service.db.jobs[i] == job;
            if let Ok(dto) = result {
                law_job_is_shown_as_stored(job, Ok(dto.latest_job->0));
            }
            assert(service.db.jobs[i].project_id@ == row.id@);
            assert(job_dto(job) is Err <==> json::json_parsed(job.phase_status_json@) is Err);
        },
    }
    if let Err(e) = read {
        let text = json::json_error_text(e);
        assert(result->Err_0->InvalidData_0@ == "serde_json: "@ + text);
    }
}

/// A created project is stored with the id, name and video that were given and
/// without a subtitle. Its intent is the one that was given, or else the short
/// drama; a reader that gives back what is written shows that very intent. It is
/// updated at the time of the call, and created then too unless it was there
/// already. Nothing else in the store changes.
pub proof fn law_created_as_given<P: Fn(&str) -> Result<IntentConfig, Error>>(
    before: ServiceState<P>,
    after: ServiceState<P>,
    input: CreateProjectInput,
    id: Seq<char>,
    now: i64,
    result: DbResult<ProjectDto>,
)
    requires
        before.wf(),
        creates(before, after, input, id, now, outcome(result)),
    ensures
        after.db.project(id) matches Some(row) && {
            &&& row.id@ == id
            &&& row.name@ == input.name@
            &&& input.intent matches Some(config) ==> row.intent_json@ == intent::intent_text(
                config,
            )
            &&& input.intent is None ==> row.intent_json@ == intent::intent_text(
                (IntentConfig { intent: ContentIntent::ShortDrama }),
            )
            &&& row.video_path@ == input.video_path@
            &&& row.subtitle_path is None
            &&& row.updated_at == now
            &&& before.db.project(id) is None ==> row.created_at == now
            &&& before.db.project(id) matches Some(existing) ==> row.created_at
                == existing.created_at
        },
        result matches Ok(dto) ==> {
            &&& dto.id@ == id
            &&& dto.name@ == input.name@
            &&& dto.video_path@ == input.video_path@
            &&& dto.subtitle_path is None
            &&& dto.created_at@ == calendar::iso_text(now)
            &&& dto.updated_at@ == calendar::iso_text(now)
        },
        intent::gives_back(before.read_intent) ==> (result matches Ok(dto) ==> {
            &&& input.intent matches Some(config) ==> dto.intent == config
            &&& input.intent is None ==> dto.intent.intent == ContentIntent::ShortDrama
        }),
        intent::gives_back(before.read_intent) && before.db.project(id) is None ==> result is Ok,
        after.db.schema_version == before.db.schema_version,
        after.db.jobs == before.db.jobs,
        after.db.artifacts == before.db.artifacts,
        after.db.next_artifact_id == before.db.next_artifact_id,
        after.db.settings == before.db.settings,
        after.db.tts_cache == before.db.tts_cache,
        after.db.assembly_kits == before.db.assembly_kits,
        forall|other: Seq<char>|
            other != id ==> #[trigger] after.db.project(other) == before.db.project(other),
{
    let row = choose|row: ProjectRow|
        #![trigger before.db.with_project(row)]
        {
            &&& is_new_row(row, input, id, now)
            &&& after.db == before.db.with_project(row)
            &&& shows(after, row, outcome(result))
        };
    db::law_upsert_then_get(before.db, row);
    law_project_is_shown_as_stored(after, row, result);
    if intent::gives_back(before.read_intent) {
        if before.db.project(id) is None {
            law_create_then_load(before, after, input, id, now, outcome(result));
        }
    }
}

/// A project that is created at the current time stands under the id that was
/// given, and the running number stays; or, without an id, under `project_`, the
/// milliseconds of the clock and the running number, both in hexadecimal, and the
/// running number is one higher, after the highest zero. Its times are seconds of
/// the clock.
pub proof fn law_created_now_as_given<P: Fn(&str) -> Result<IntentConfig, Error>>(
    before: ServiceState<P>,
    after: ServiceState<P>,
    input: CreateProjectInput,
    result: DbResult<ProjectDto>,
)
    requires
        before.wf(),
        creates_now(before, after, input, outcome(result)),
    ensures
        input.id matches Some(id) ==> {
            &&& after.next_number == before.next_number
            &&& exists|time: SystemTime|
                after.db.project(id@) matches Some(row) && row.updated_at
                    == #[trigger] clock::seconds_at(time) && row.name@ == input.name@
            &&& result matches Ok(dto) ==> dto.id@ == id@
        },
        input.id is None ==> {
            &&& after.next_number == (before.next_number + 1) % 0x1_0000_0000_0000_0000
            &&& exists|time: SystemTime, named: SystemTime|
                {
                    let id = "project_"@ + text::numeral(
                        #[trigger] clock::millis_at(named) as nat,
                        16,
                    ) + "_"@ + text::numeral(before.next_number as nat, 16);
                    &&& after.db.project(id) matches Some(row)
                    &&& row.updated_at == #[trigger] clock::seconds_at(time)
                    &&& row.name@ == input.name@
                    &&& result matches Ok(dto) ==> dto.id@ == id
                }
        },
        result matches Ok(dto) ==> {
            &&& dto.name@ == input.name@
            &&& dto.video_path@ == input.video_path@
            &&& dto.subtitle_path is None
            &&& intent::gives_back(before.read_intent) ==> {
                &&& input.intent matches Some(config) ==> dto.intent == config
                &&& input.intent is None ==> dto.intent.intent == ContentIntent::ShortDrama
            }
        },
{
    match input.id {
        Some(id) => {
            let time = choose|time: SystemTime|
                creates(
                    before,
                    after,
                    input,
                    id@,
                    #[trigger] clock::seconds_at(time),
                    outcome(result),
                );
            law_created_as_given(before, after, input, id@, clock::seconds_at(time), result);
        },
        None => {
            let (time, named) = choose|time: SystemTime, named: SystemTime|
                creates(
                    before,
                    after,
                    input,
                    ids::project_id_text(#[trigger] clock::millis_at(named), before.next_number),
                    #[trigger] clock::seconds_at(time),
                    outcome(result),
                );
            let id = ids::project_id_text(clock::millis_at(named), before.next_number);
            ids::law_project_id_parts(clock::millis_at(named), before.next_number);
            ids::law_running_number(before.next_number);
            law_created_as_given(before, after, input, id, clock::seconds_at(time), result);
        },
    }
}

/// A saved project is stored with the name, intent, video and subtitle that were
/// given, under its id, with the time of creation that it had and the time of the
/// call. A project that is not there is not found and nothing changes. Nothing
/// else in the store changes, nor the running number.
pub proof fn law_saved_as_given<P: Fn(&str) -> Result<IntentConfig, Error>>(
    before: ServiceState<P>,
    after: ServiceState<P>,
    input: SaveProjectInput,
    now: i64,
    result: DbResult<ProjectDto>,
)
    requires
        before.wf(),
        saves(before, after, input, now, outcome(result)),
    ensures
        before.db.project(input.id@) is None ==> after == before && (result matches Err(
            DbError::NotFound(key),
        ) && key@ == input.id@),
        before.db.project(input.id@) matches Some(existing) ==> {
            &&& after.db.project(input.id@) matches Some(row)
            &&& row.id@ == input.id@
            &&& row.name@ == input.name@
            &&& row.intent_json@ == intent::intent_text(input.intent)
            &&& row.video_path@ == input.video_path@
            &&& input.subtitle_path matches Some(path) ==> (
            row.subtitle_path matches Some(stored) && stored@ == path@)
            &&& input.subtitle_path is None ==> row.subtitle_path is None
            &&& row.created_at == existing.created_at
            &&& row.updated_at == now
            &&& result matches Ok(dto) ==> {
                &&& dto.id@ == input.id@
                &&& dto.name@ == input.name@
                &&& intent::gives_back(before.read_intent) ==> dto.intent == input.intent
                &&& dto.video_path@ == input.video_path@
                &&& input.subtitle_path matches Some(path) ==> (
                dto.subtitle_path matches Some(shown) && shown@ == path@)
                &&& input.subtitle_path is None ==> dto.subtitle_path is None
                &&& dto.created_at@ == calendar::iso_text(existing.created_at)
                &&& dto.updated_at@ == calendar::iso_text(now)
            }
        },
        after.next_number == before.next_number,
        after.db.schema_version == before.db.schema_version,
        after.db.jobs == before.db.jobs,
        after.db.artifacts == before.db.artifacts,
        after.db.next_artifact_id == before.db.next_artifact_id,
        after.db.settings == before.db.settings,
        after.db.tts_cache == before.db.tts_cache,
        after.db.assembly_kits == before.db.assembly_kits,
        forall|other: Seq<char>|
            other != input.id@ ==> #[trigger] after.db.project(other) == before.db.project(other),
{
    match before.db.project(input.id@) {
        None => {},
        Some(existing) => {
            let row = choose|row: ProjectRow|
                #![trigger before.db.with_project(row)]
                {
                    &&& is_saved_row(row, input, existing, now)
                    &&& after.db == before.db.with_project(row)
                    &&& shows(after, row, outcome(result))
                };
            db::law_upsert_then_get(before.db, row);
            law_project_is_shown_as_stored(after, row, result);
        },
    }
}

/// A project is loaded as the row under its id is shown; where no row has the id
/// the error names the id.
pub proof fn law_loaded_by_id<P: Fn(&str) -> Result<IntentConfig, Error>>(
    service: ServiceState<P>,
    id: Seq<char>,
    result: DbResult<ProjectDto>,
)
    requires
        service.wf(),
        loads(service, id, outcome(result)),
    ensures
        (forall|i: int|
            0 <= i < service.db.projects.len() ==> (#[trigger] service.db.projects[i]).id@ != id)
            ==> (result matches Err(DbError::NotFound(key)) && key@ == id),
        forall|i: int|
            #![trigger service.db.projects[i]]
            0 <= i < service.db.projects.len() && service.db.projects[i].id@ == id ==> {
                &&& shows(service, service.db.projects[i], outcome(result))
                &&& result matches Ok(dto) ==> {
                    &&& dto.id@ == id
                    &&& dto.name@ == service.db.projects[i].name@
                    &&& dto.video_path@ == service.db.projects[i].video_path@
                    &&& dto.created_at@ == calendar::iso_text(service.db.projects[i].created_at)
                    &&& dto.updated_at@ == calendar::iso_text(service.db.projects[i].updated_at)
                }
                &&& result matches Err(e) ==> e is InvalidData
            },
{
    assert forall|i: int|
        #![trigger service.db.projects[i]]
        0 <= i < service.db.projects.len() && service.db.projects[i].id@ == id implies {
        &&& shows(service, service.db.projects[i], outcome(result))
        &&& result matches Ok(dto) ==> {
            &&& dto.id@ == id
            &&& dto.name@ == service.db.projects[i].name@
            &&& dto.video_path@ == service.db.projects[i].video_path@
            &&& dto.created_at@ == calendar::iso_text(service.db.projects[i].created_at)
            &&& dto.updated_at@ == calendar::iso_text(service.db.projects[i].updated_at)
        }
        &&& result matches Err(e) ==> e is InvalidData
    } by {
        table::lemma_position(service.db.projects, i);
        law_project_is_shown_as_stored(service, service.db.projects[i], result);
    }
    if forall|i: int|
        0 <= i < service.db.projects.len() ==> (#[trigger] service.db.projects[i]).id@ != id {
        assert(!table::has_key(service.db.projects, id));
    }
}

proof fn lemma_all_shown(
    state: DbState,
    rows: Seq<ProjectRow>,
    reads: Seq<Result<IntentConfig, Error>>,
)
    requires
        reads.len() == rows.len(),
        project_dtos(state, rows, reads) is Ok,
    ensures
        project_dtos(state, rows, reads)->Ok_0.len() == rows.len(),
        forall|i: int|
            0 <= i < rows.len() ==> project_dto(state, rows[i], reads[i]) == Result::<
                ProjectDtoView,
                DbErrorView,
            >::Ok(#[trigger] project_dtos(state, rows, reads)->Ok_0[i]),
    decreases rows.len(),
{
    if rows.len() > 0 {
        let init = rows.drop_last();
        let init_reads = reads.drop_last();
        lemma_all_shown(state, init, init_reads);
        let earlier = project_dtos(state, init, init_reads)->Ok_0;
        let list = project_dtos(state, rows, reads)->Ok_0;
        assert forall|i: int| 0 <= i < rows.len() implies project_dto(state, rows[i], reads[i])
            == Result::<ProjectDtoView, DbErrorView>::Ok(#[trigger] list[i]) by {
            if i < init.len() {
                assert(list[i] == earlier[i]);
                assert(init[i] == rows[i] && init_reads[i] == reads[i]);
            }
        }
    }
}

proof fn lemma_first_failure(
    state: DbState,
    rows: Seq<ProjectRow>,
    reads: Seq<Result<IntentConfig, Error>>,
) -> (i: int)
    requires
        reads.len() == rows.len(),
        project_dtos(state, rows, reads) is Err,
    ensures
        0 <= i < rows.len(),
        project_dto(state, rows[i], reads[i]) is Err,
        project_dto(state, rows[i], reads[i])->Err_0 == project_dtos(state, rows, reads)->Err_0,
        project_dtos(state, rows.take(i), reads.take(i)) is Ok,
    decreases rows.len(),
{
    let init = rows.drop_last();
    let init_reads = reads.drop_last();
    if project_dtos(state, init, init_reads) is Err {
        let i = lemma_first_failure(state, init, init_reads);
        assert(init.take(i) =~= rows.take(i));
        assert(init_reads.take(i) =~= reads.take(i));
        i
    } else {
        let i = rows.len() - 1;
        assert(rows.take(i) =~= init);
        assert(reads.take(i) =~= init_reads);
        i
    }
}

/// What a row is shown as, with its intent read so, a service may show.
proof fn lemma_may_show<P: Fn(&str) -> Result<IntentConfig, Error>>(
    service: ServiceState<P>,
    row: ProjectRow,
    read: Result<IntentConfig, Error>,
)
    requires
        intent::may_read(service.read_intent, row.intent_json@, read),
    ensures
        shows(service, row, project_dto(service.db, row, read)),
{
}

/// The list of the projects has one entry for each project of the store, in
/// their order, and each is the project as it is shown by itself.
pub proof fn law_listed_one_by_one<P: Fn(&str) -> Result<IntentConfig, Error>>(
    service: ServiceState<P>,
    reads: Seq<Result<IntentConfig, Error>>,
    list: Vec<ProjectDto>,
    i: int,
)
    requires
        lists(service, reads, list_outcome(Ok(list))),
        0 <= i < service.db.projects.len(),
    ensures
        list@.len() == service.db.projects.len(),
        shows(service, service.db.projects[i], outcome(Ok(list@[i]))),
        list@[i].id@ == service.db.projects[i].id@,
        list@[i].name@ == service.db.projects[i].name@,
        list@[i].video_path@ == service.db.projects[i].video_path@,
        list@[i].created_at@ == calendar::iso_text(service.db.projects[i].created_at),
        list@[i].updated_at@ == calendar::iso_text(service.db.projects[i].updated_at),
{
    let projects = service.db.projects;
    assert(projects.take(reads.len() as int) =~= projects);
    lemma_all_shown(service.db, projects, reads);
    let views = dto_views(list@);
    assert(views.len() == list@.len());
    assert(views[i] == list@[i]@);
    assert(views == project_dtos(service.db, projects, reads)->Ok_0);
    assert(project_dto(service.db, projects[i], reads[i]) == Result::<
        ProjectDtoView,
        DbErrorView,
    >::Ok(project_dtos(service.db, projects, reads)->Ok_0[i]));
    lemma_may_show(service, projects[i], reads[i]);
    law_project_is_shown_as_stored(service, projects[i], Ok(list@[i]));
}

/// An empty store has an empty list, and a list has as many entries as there are
/// projects.
pub proof fn law_list_is_complete<P: Fn(&str) -> Result<IntentConfig, Error>>(
    service: ServiceState<P>,
    reads: Seq<Result<IntentConfig, Error>>,
    result: DbResult<Vec<ProjectDto>>,
)
    requires
        lists(service, reads, list_outcome(result)),
    ensures
        service.db.projects.len() == 0 ==> result is Ok,
        result matches Ok(list) ==> list@.len() == service.db.projects.len(),
{
    if let Ok(list) = result {
        let projects = service.db.projects;
        assert(projects.take(reads.len() as int) =~= projects);
        lemma_all_shown(service.db, projects, reads);
        assert(dto_views(list@).len() == list@.len());
    }
}

/// Listing the projects fails only where some project by itself fails, and with the
/// error of the first such one, whose place is told: those before it can be shown.
pub proof fn law_list_fails_with_the_first<P: Fn(&str) -> Result<IntentConfig, Error>>(
    service: ServiceState<P>,
    reads: Seq<Result<IntentConfig, Error>>,
    error: DbError,
    j: int,
) -> (first: int)
    requires
        lists(service, reads, list_outcome(Err(error))),
    ensures
        0 <= first < service.db.projects.len(),
        shows(service, service.db.projects[first], Err(error@)),
        0 <= j < first ==> exists|shown: ProjectDtoView|
            shows(service, service.db.projects[j], Ok(shown)),
{
    let rows = service.db.projects.take(reads.len() as int);
    let first = lemma_first_failure(service.db, rows, reads);
    assert(rows[first] == service.db.projects[first]);
    lemma_may_show(service, rows[first], reads[first]);
    if 0 <= j < first {
        let before = rows.take(first);
        let before_reads = reads.take(first);
        lemma_all_shown(service.db, before, before_reads);
        let shown = project_dtos(service.db, before, before_reads)->Ok_0[j];
        assert(before[j] == service.db.projects[j] && before_reads[j] == reads[j]);
        assert(intent::may_read(
            service.read_intent,
            service.db.projects[j].intent_json@,
            reads[j],
        ));
        lemma_may_show(service, before[j], before_reads[j]);
        assert(shows(service, service.db.projects[j], Ok(shown)));
    }
    first
}

/// The user interface is told the project as it is, or the message of the error:
/// what kind it is, a colon, and what the error carries.
pub proof fn law_told_as_it_is(answer: Result<ProjectDto, String>, result: DbResult<ProjectDto>)
    requires
        told_project(answer) == told(outcome(result)),
    ensures
        result matches Ok(dto) ==> (answer matches Ok(told) && told@ == dto@),
        result matches Err(DbError::NotFound(key)) ==> (answer matches Err(message) && message@
            == "not found: "@ + key@),
        result matches Err(DbError::InvalidData(reason)) ==> (answer matches Err(message)
            && message@ == "invalid data: "@ + reason@),
        result matches Err(DbError::Constraint(key)) ==> (answer matches Err(message) && message@
            == "constraint violated: "@ + key@),
{
}

/// The user interface is told the list as it is, or the message of the error.
pub proof fn law_told_list_as_it_is(
    answer: Result<Vec<ProjectDto>, String>,
    result: DbResult<Vec<ProjectDto>>,
)
    requires
        told_list(answer) == told(list_outcome(result)),
    ensures
        result matches Ok(list) ==> (answer matches Ok(told) && told@.len() == list@.len()
            && forall|i: int| 0 <= i < list@.len() ==> (#[trigger] told@[i])@ == list@[i]@),
        result matches Err(DbError::NotFound(key)) ==> (answer matches Err(message) && message@
            == "not found: "@ + key@),
        result matches Err(DbError::InvalidData(reason)) ==> (answer matches Err(message)
            && message@ == "invalid data: "@ + reason@),
{
    if let Ok(list) = result {
        let told = answer->Ok_0;
        assert(dto_views(told@).len() == dto_views(list@).len());
        assert forall|i: int| 0 <= i < list@.len() implies (#[trigger] told@[i])@ == list@[i]@ by {
            assert(dto_views(told@)[i] == dto_views(list@)[i]);
        }
    }
}

} // verus!
