//! The rows of the store. Times are Unix times in seconds.

use crate::table::Keyed;
use vstd::prelude::*;

verus! {

/// A single-precision number, carried along as its IEEE 754 bit pattern.
#[derive(Debug, Clone, Copy, PartialEq, Eq, Structural)]
pub struct F32Bits(pub u32);

/// A double-precision number, carried along as its IEEE 754 bit pattern.
#[derive(Debug, Clone, Copy, PartialEq, Eq, Structural)]
pub struct F64Bits(pub u64);

/// A project.
#[derive(Debug)]
pub struct ProjectRow {
    pub id: String,
    pub name: String,
    pub intent_json: String,
    pub video_path: String,
    pub subtitle_path: Option<String>,
    pub created_at: i64,
    pub updated_at: i64,
}

impl Clone for ProjectRow {
    fn clone(&self) -> (copy: Self)
        ensures
            copy == *self,
    {
        ProjectRow {
            id: self.id.clone(),
            name: self.name.clone(),
            intent_json: self.intent_json.clone(),
            video_path: self.video_path.clone(),
            subtitle_path: self.subtitle_path.clone(),
            created_at: self.created_at,
            updated_at: self.updated_at,
        }
    }
}

impl Keyed for ProjectRow {
    open spec fn key_text(self) -> Seq<char> {
        self.id@
    }

    fn key(&self) -> (key: &String) {
        &self.id
    }
}

/// A job of a project.
#[derive(Debug)]
pub struct JobRow {
    pub id: String,
    pub project_id: String,
    pub phase: String,
    pub phase_status_json: String,
    pub progress_pct: F32Bits,
    pub error_json: Option<String>,
    pub created_at: i64,
    pub updated_at: i64,
}

impl Clone for JobRow {
    fn clone(&self) -> (copy: Self)
        ensures
            copy == *self,
    {
        JobRow {
            id: self.id.clone(),
            project_id: self.project_id.clone(),
            phase: self.phase.clone(),
            phase_status_json: self.phase_status_json.clone(),
            progress_pct: self.progress_pct,
            error_json: self.error_json.clone(),
            created_at: self.created_at,
            updated_at: self.updated_at,
        }
    }
}

impl Keyed for JobRow {
    open spec fn key_text(self) -> Seq<char> {
        self.id@
    }

    fn key(&self) -> (key: &String) {
        &self.id
    }
}

/// A file that a job produced. Its number is zero until the store gives it one.
#[derive(Debug)]
pub struct ArtifactRow {
    pub id: i64,
    pub job_id: String,
    pub phase: String,
    pub artifact_type: String,
    pub path: String,
    pub metadata_json: Option<String>,
    pub created_at: i64,
}

impl Clone for ArtifactRow {
    fn clone(&self) -> (copy: Self)
        ensures
            copy == *self,
    {
        ArtifactRow {
            id: self.id,
            job_id: self.job_id.clone(),
            phase: self.phase.clone(),
            artifact_type: self.artifact_type.clone(),
            path: self.path.clone(),
            metadata_json: self.metadata_json.clone(),
            created_at: self.created_at,
        }
    }
}

/// A setting.
#[derive(Debug)]
pub struct SettingRow {
    pub key: String,
    pub value: String,
}

impl Clone for SettingRow {
    fn clone(&self) -> (copy: Self)
        ensures
            copy == *self,
    {
        SettingRow {
            key: self.key.clone(),
            value: self.value.clone(),
        }
    }
}

impl Keyed for SettingRow {
    open spec fn key_text(self) -> Seq<char> {
        self.key@
    }

    fn key(&self) -> (key: &String) {
        &self.key
    }
}

/// A cached piece of synthesized speech.
#[derive(Debug)]
pub struct TtsCacheRow {
    pub cache_key: String,
    pub audio_path: String,
    pub duration_secs: F64Bits,
    pub text_preview: String,
    pub created_at: i64,
    pub accessed_at: i64,
    pub access_count: i64,
}

impl Clone for TtsCacheRow {
    fn clone(&self) -> (copy: Self)
        ensures
            copy == *self,
    {
        TtsCacheRow {
            cache_key: self.cache_key.clone(),
            audio_path: self.audio_path.clone(),
            duration_secs: self.duration_secs,
            text_preview: self.text_preview.clone(),
            created_at: self.created_at,
            accessed_at: self.accessed_at,
            access_count: self.access_count,
        }
    }
}

impl Keyed for TtsCacheRow {
    open spec fn key_text(self) -> Seq<char> {
        self.cache_key@
    }

    fn key(&self) -> (key: &String) {
        &self.cache_key
    }
}

/// The assembly of a project.
#[derive(Debug)]
pub struct AssemblyKitRow {
    pub project_id: String,
    pub assembly_json: String,
    pub created_at: i64,
    pub updated_at: i64,
}

impl Clone for AssemblyKitRow {
    fn clone(&self) -> (copy: Self)
        ensures
            copy == *self,
    {
        AssemblyKitRow {
            project_id: self.project_id.clone(),
            assembly_json: self.assembly_json.clone(),
            created_at: self.created_at,
            updated_at: self.updated_at,
        }
    }
}

impl Keyed for AssemblyKitRow {
    open spec fn key_text(self) -> Seq<char> {
        self.project_id@
    }

    fn key(&self) -> (key: &String) {
        &self.project_id
    }
}

/// Projects, jobs, settings, cache entries and assemblies are told apart by their
/// ids, their keys, and the project that they belong to.
pub proof fn law_keys(
    project: ProjectRow,
    job: JobRow,
    setting: SettingRow,
    entry: TtsCacheRow,
    kit: AssemblyKitRow,
)
    ensures
        project.key_text() == project.id@,
        job.key_text() == job.id@,
        setting.key_text() == setting.key@,
        entry.key_text() == entry.cache_key@,
        kit.key_text() == kit.project_id@,
{
}

} // verus!
