//! The analysis of a production, stage by stage: metadata, scenes, subtitles,
//! highlights, storyline. The outside work of a stage is done by the caller,
//! who hands its result to the function that leads to the next stage.

use crate::json;
use crate::json::error_text;
use crate::json::write_pretty;
use crate::rows::F64Bits;
use crate::storyline;
use crate::storyline::artifacts_dir;
use crate::storyline::build_storyline_json;
use crate::storyline::DocumentMember;
use crate::storyline::Field;
use crate::storyline::HighlightSegment;
use crate::storyline::Scalar;
use crate::storyline::SubtitleResult;
use crate::storyline::VideoMetadataResult;
use crate::storyline::VideoSegment;
use crate::text;
use crate::text::push_numeral;
use serde_json::Value;
use vstd::prelude::*;

verus! {

/// The event under which progress is reported.
pub const UNDERSTANDING_PROGRESS_EVENT: &'static str = "understanding-progress";

/// The file, in the directory of the artifacts, that holds the storyline.
pub const STORYLINE_FILE: &'static str = "storyline.json";

/// The stages of an analysis.
#[derive(Debug, Clone, Copy, PartialEq, Eq, Structural)]
pub enum UnderstandingStage {
    Metadata,
    Segment,
    Transcribe,
    Highlight,
    Build,
    Done,
}

impl UnderstandingStage {
    /// The name of a stage in progress reports.
    pub open spec fn name(self) -> Seq<char> {
        match self {
            UnderstandingStage::Metadata => "metadata"@,
            UnderstandingStage::Segment => "segment"@,
            UnderstandingStage::Transcribe => "transcribe"@,
            UnderstandingStage::Highlight => "highlight"@,
            UnderstandingStage::Build => "build"@,
            UnderstandingStage::Done => "done"@,
        }
    }

    /// The place of a stage in the order of the stages.
    pub open spec fn rank(self) -> int {
        match self {
            UnderstandingStage::Metadata => 0,
            UnderstandingStage::Segment => 1,
            UnderstandingStage::Transcribe => 2,
            UnderstandingStage::Highlight => 3,
            UnderstandingStage::Build => 4,
            UnderstandingStage::Done => 5,
        }
    }

    /// The name of a stage in progress reports.
    pub fn as_str(&self) -> (name: &'static str)
        ensures
            name@ == self.name(),
    {
        match self {
            UnderstandingStage::Metadata => "metadata",
            UnderstandingStage::Segment => "segment",
            UnderstandingStage::Transcribe => "transcribe",
            UnderstandingStage::Highlight => "highlight",
            UnderstandingStage::Build => "build",
            UnderstandingStage::Done => "done",
        }
    }
}

/// What is to be analyzed.
#[derive(Debug)]
pub struct AnalyzeProductionInput {
    pub production_id: String,
    pub video_path: String,
    pub whisper_model: Option<String>,
    pub language: Option<String>,
}

/// What an analysis ends with.
#[derive(Debug)]
pub struct AnalyzeProductionOutput {
    pub storyline_path: String,
    pub scenes_count: usize,
    pub subtitles_count: usize,
    pub highlights_count: usize,
    pub duration_secs: F64Bits,
}

/// A report of progress, in percent of the whole.
#[derive(Debug)]
pub struct Progress {
    pub stage: UnderstandingStage,
    pub percent: u32,
    pub message: String,
}

/// The content of a report.
pub struct ProgressView {
    pub stage: UnderstandingStage,
    pub percent: int,
    pub message: Seq<char>,
}

impl View for Progress {
    type V = ProgressView;

    open spec fn view(&self) -> ProgressView {
        ProgressView { stage: self.stage, percent: self.percent as int, message: self.message@ }
    }
}

/// The contents of some reports.
pub open spec fn reports(list: Seq<Progress>) -> Seq<ProgressView> {
    list.map_values(|progress: Progress| progress@)
}

/// A report without numbers in it.
pub open spec fn report(
    stage: UnderstandingStage,
    percent: int,
    message: Seq<char>,
) -> ProgressView {
    ProgressView { stage, percent, message }
}

/// A message that tells a number.
pub open spec fn counted(before: Seq<char>, count: int, after: Seq<char>) -> Seq<char> {
    before + text::decimal(count) + after
}

/// The reports before the metadata are read.
pub open spec fn begin_reports() -> Seq<ProgressView> {
    seq![report(UnderstandingStage::Metadata, 5, "正在读取视频元数据..."@)]
}

/// The reports once the metadata are read.
pub open spec fn metadata_reports() -> Seq<ProgressView> {
    seq![
        report(UnderstandingStage::Metadata, 15, "元数据读取完成"@),
        report(UnderstandingStage::Segment, 20, "正在切分场景..."@),
    ]
}

/// The reports once the scenes are cut.
pub open spec fn segment_reports(count: int) -> Seq<ProgressView> {
    seq![
        report(
            UnderstandingStage::Segment,
            40,
            counted("场景切分完成："@, count, " 段"@),
        ),
        report(UnderstandingStage::Transcribe, 45, "正在转录字幕（Whisper）..."@),
    ]
}

/// The reports once the subtitles are transcribed.
pub open spec fn subtitle_reports(count: int) -> Seq<ProgressView> {
    seq![
        report(
            UnderstandingStage::Transcribe,
            70,
            counted("字幕转录完成："@, count, " 条"@),
        ),
        report(UnderstandingStage::Highlight, 75, "正在检测高光片段..."@),
    ]
}

/// The reports once the highlights are found.
pub open spec fn highlight_reports(count: int) -> Seq<ProgressView> {
    seq![
        report(
            UnderstandingStage::Highlight,
            90,
            counted("高光检测完成："@, count, " 段"@),
        ),
        report(UnderstandingStage::Build, 92, "正在构建剧情时间线..."@),
    ]
}

/// The reports once the storyline is written.
pub open spec fn done_reports() -> Seq<ProgressView> {
    seq![report(UnderstandingStage::Done, 100, "剧情时间线构建完成，产物已落盘"@)]
}

/// The video and the production that an analysis is about.
#[derive(Debug)]
pub struct AnalysisTask {
    pub production_id: String,
    pub video_path: String,
    pub whisper_model: Option<String>,
    pub language: Option<String>,
}

/// The metadata of the video are to be read.
#[derive(Debug)]
pub struct MetadataStage {
    pub task: AnalysisTask,
}

/// The video is to be cut into scenes.
#[derive(Debug)]
pub struct SegmentStage {
    pub task: AnalysisTask,
    pub metadata: VideoMetadataResult,
}

/// The subtitles are to be transcribed.
#[derive(Debug)]
pub struct TranscribeStage {
    pub task: AnalysisTask,
    pub metadata: VideoMetadataResult,
    pub segments: Vec<VideoSegment>,
}

/// The highlights are to be found.
#[derive(Debug)]
pub struct HighlightStage {
    pub task: AnalysisTask,
    pub metadata: VideoMetadataResult,
    pub segments: Vec<VideoSegment>,
    pub subtitle: SubtitleResult,
}

/// The storyline is to be built.
#[derive(Debug)]
pub struct BuildStage {
    pub task: AnalysisTask,
    pub metadata: VideoMetadataResult,
    pub segments: Vec<VideoSegment>,
    pub subtitle: SubtitleResult,
    pub highlights: Vec<HighlightSegment>,
}

/// The storyline is to be written, into the file for it in the directory that
/// the components lead to.
#[derive(Debug)]
pub struct WriteStage {
    pub components: Vec<String>,
    pub document: Vec<DocumentMember>,
    pub scenes_count: usize,
    pub subtitles_count: usize,
    pub highlights_count: usize,
    pub duration_secs: F64Bits,
}

/// What can go wrong when the storyline is written, with the reason.
#[derive(Debug)]
pub enum WriteFailure {
    /// The directory of the application's data is not known.
    AppDataDir(String),
    /// The directory of the artifacts could not be made.
    CreateDir(String),
    /// The storyline could not be turned into text.
    Serialize(String),
    /// The file could not be written.
    Write(String),
}

impl WriteFailure {
    /// The message of a failure.
    pub open spec fn text(self) -> Seq<char> {
        match self {
            WriteFailure::AppDataDir(reason) => "无法获取 AppData 目录: "@ + reason@,
            WriteFailure::CreateDir(reason) => "创建产物目录失败: "@ + reason@,
            WriteFailure::Serialize(reason) => "序列化 storyline 失败: "@ + reason@,
            WriteFailure::Write(reason) => "写入 storyline.json 失败: "@ + reason@,
        }
    }

    /// The message of a failure.
    pub fn message(&self) -> (message: String)
        ensures
            message@ == self.text(),
    {
        match self {
            WriteFailure::AppDataDir(reason) => {
                "无法获取 AppData 目录: ".to_owned().concat(reason.as_str())
            },
            WriteFailure::CreateDir(reason) => {
                "创建产物目录失败: ".to_owned().concat(reason.as_str())
            },
            WriteFailure::Serialize(reason) => {
                "序列化 storyline 失败: ".to_owned().concat(reason.as_str())
            },
            WriteFailure::Write(reason) => {
                "写入 storyline.json 失败: ".to_owned().concat(reason.as_str())
            },
        }
    }
}

fn progress(stage: UnderstandingStage, percent: u32, message: &str) -> (progress: Progress)
    ensures
        progress@ == report(stage, percent as int, message@),
{
    Progress { stage, percent, message: message.to_owned() }
}

fn counted_message(before: &str, count: usize, after: &str) -> (message: String)
    ensures
        message@ == counted(before@, count as int, after@),
{
    let mut message: String = before.to_owned();
    push_numeral(&mut message, count as u64, 10);
    message.append(after);
    assert(message@ =~= counted(before@, count as int, after@));
    message
}

/// Begins an analysis. The path of the video, without the white space around
/// it, and the id of the production must not be empty; the id is kept as it was
/// given.
pub fn begin_analysis(input: AnalyzeProductionInput) -> (begun: Result<
    (Vec<Progress>, MetadataStage),
    String,
>)
    ensures
        match begun {
            Ok((list, next)) => {
                &&& !text::blank(input.video_path@)
                &&& !text::blank(input.production_id@)
                &&& reports(list@) == begin_reports()
                &&& next.task.video_path@ == text::trimmed(input.video_path@)
                &&& next.task.production_id == input.production_id
                &&& next.task.whisper_model == input.whisper_model
                &&& next.task.language == input.language
            },
            Err(message) => if text::blank(input.video_path@) {
                message@ == "视频路径不能为空"@
            } else {
                text::blank(input.production_id@) && message@ == "productionId 不能为空"@
            },
        },
{
    proof {
        text::law_trimmed(input.video_path@);
        text::law_trimmed(input.production_id@);
    }
    let video_path: String = input.video_path.as_str().trim().to_owned();
    if video_path.as_str().is_empty() {
        return Err("视频路径不能为空".to_owned());
    }
    if input.production_id.as_str().trim().is_empty() {
        return Err("productionId 不能为空".to_owned());
    }
    let mut list: Vec<Progress> = Vec::new();
    list.push(progress(UnderstandingStage::Metadata, 5, "正在读取视频元数据..."));
    assert(reports(list@) =~= begin_reports());
    let task = AnalysisTask {
        production_id: input.production_id,
        video_path,
        whisper_model: input.whisper_model,
        language: input.language,
    };
    Ok((list, MetadataStage { task }))
}

/// The metadata were read; a failure ends the analysis.
pub fn metadata_read(stage: MetadataStage, outcome: Result<VideoMetadataResult, String>) -> (next:
    Result<(Vec<Progress>, SegmentStage), String>)
    ensures
        match outcome {
            Ok(metadata) => next matches Ok((list, next)) && reports(list@) == metadata_reports()
                && next == (SegmentStage { task: stage.task, metadata }),
            Err(message) => next matches Err(told) && told == message,
        },
{
    let metadata: VideoMetadataResult = match outcome {
        Ok(metadata) => metadata,
        Err(message) => {
            return Err(message);
        },
    };
    let mut list: Vec<Progress> = Vec::new();
    list.push(progress(UnderstandingStage::Metadata, 15, "元数据读取完成"));
    list.push(progress(UnderstandingStage::Segment, 20, "正在切分场景..."));
    assert(reports(list@) =~= metadata_reports());
    Ok((list, SegmentStage { task: stage.task, metadata }))
}

/// The video was cut into scenes.
pub fn segments_cut(stage: SegmentStage, segments: Vec<VideoSegment>) -> (next: (
    Vec<Progress>,
    TranscribeStage,
))
    ensures
        reports(next.0@) == segment_reports(segments@.len() as int),
        next.1 == (TranscribeStage { task: stage.task, metadata: stage.metadata, segments }),
{
    let mut list: Vec<Progress> = Vec::new();
    let message: String = counted_message("场景切分完成：", segments.len(), " 段");
    list.push(progress(UnderstandingStage::Segment, 40, message.as_str()));
    list.push(progress(UnderstandingStage::Transcribe, 45, "正在转录字幕（Whisper）..."));
    assert(reports(list@) =~= segment_reports(segments@.len() as int));
    (list, TranscribeStage { task: stage.task, metadata: stage.metadata, segments })
}

/// The subtitles were transcribed; a failure ends the analysis.
pub fn transcribed(stage: TranscribeStage, outcome: Result<SubtitleResult, String>) -> (next:
    Result<(Vec<Progress>, HighlightStage), String>)
    ensures
        match outcome {
            Ok(subtitle) => next matches Ok((list, next)) && reports(list@) == subtitle_reports(
                subtitle.segments@.len() as int,
            ) && next == (HighlightStage {
                task: stage.task,
                metadata: stage.metadata,
                segments: stage.segments,
                subtitle,
            }),
            Err(message) => next matches Err(told) && told == message,
        },
{
    let subtitle: SubtitleResult = match outcome {
        Ok(subtitle) => subtitle,
        Err(message) => {
            return Err(message);
        },
    };
    let mut list: Vec<Progress> = Vec::new();
    let message: String = counted_message("字幕转录完成：", subtitle.segments.len(), " 条");
    list.push(progress(UnderstandingStage::Transcribe, 70, message.as_str()));
    list.push(progress(UnderstandingStage::Highlight, 75, "正在检测高光片段..."));
    assert(reports(list@) =~= subtitle_reports(subtitle.segments@.len() as int));
    Ok(
        (
            list,
            HighlightStage {
                task: stage.task,
                metadata: stage.metadata,
                segments: stage.segments,
                subtitle,
            },
        ),
    )
}

/// The highlights were found.
pub fn highlights_found(stage: HighlightStage, highlights: Vec<HighlightSegment>) -> (next: (
    Vec<Progress>,
    BuildStage,
))
    ensures
        reports(next.0@) == highlight_reports(highlights@.len() as int),
        next.1 == (BuildStage {
            task: stage.task,
            metadata: stage.metadata,
            segments: stage.segments,
            subtitle: stage.subtitle,
            highlights,
        }),
{
    let mut list: Vec<Progress> = Vec::new();
    let message: String = counted_message("高光检测完成：", highlights.len(), " 段");
    list.push(progress(UnderstandingStage::Highlight, 90, message.as_str()));
    list.push(progress(UnderstandingStage::Build, 92, "正在构建剧情时间线..."));
    assert(reports(list@) =~= highlight_reports(highlights@.len() as int));
    (
        list,
        BuildStage {
            task: stage.task,
            metadata: stage.metadata,
            segments: stage.segments,
            subtitle: stage.subtitle,
            highlights,
        },
    )
}

/// Builds the storyline from what was found, after `elapsed_ms` milliseconds
/// and at the time that `analyzed_at` writes, and says where it goes.
pub fn storyline_built(stage: BuildStage, elapsed_ms: u64, analyzed_at: &str) -> (next: WriteStage)
    ensures
        text::texts(next.components@) == storyline::artifacts_path(stage.task.production_id@),
        storyline::document_view(next.document@) == storyline::storyline(
            stage.metadata,
            stage.segments@,
            stage.subtitle.segments@,
            stage.highlights@,
            elapsed_ms,
            analyzed_at@,
        ),
        next.scenes_count == stage.segments@.len(),
        next.subtitles_count == stage.subtitle.segments@.len(),
        next.highlights_count == stage.highlights@.len(),
        next.duration_secs == stage.metadata.duration,
{
    let document: Vec<DocumentMember> = build_storyline_json(
        &stage.metadata,
        stage.segments.as_slice(),
        &stage.subtitle,
        stage.highlights.as_slice(),
        elapsed_ms,
        analyzed_at,
    );
    WriteStage {
        components: artifacts_dir(stage.task.production_id.as_str()),
        document,
        scenes_count: stage.segments.len(),
        subtitles_count: stage.subtitle.segments.len(),
        highlights_count: stage.highlights.len(),
        duration_secs: stage.metadata.duration,
    }
}

/// The text that is written for a storyline, once the document is a JSON value.
/// Where the value is readable, reading the text gives it back.
pub fn storyline_payload(storyline_json: &Value) -> (payload: Result<String, WriteFailure>)
    ensures
        payload matches Ok(text) && text@ == json::json_pretty(*storyline_json) && (
        json::readable(json::json_content(*storyline_json), json::depth_limit()) ==> (
        json::json_parsed(text@) matches Ok(read) && json::alike(
            json::json_content(*storyline_json),
            json::json_content(read),
            json::depth_limit(),
        ))),
{
    match write_pretty(storyline_json) {
        Ok(text) => Ok(text),
        Err(e) => Err(WriteFailure::Serialize(error_text(&e))),
    }
}

/// The storyline was written to the path that is handed over; a failure ends
/// the analysis with its message.
pub fn storyline_written(stage: WriteStage, outcome: Result<String, WriteFailure>) -> (end: Result<
    (Vec<Progress>, AnalyzeProductionOutput),
    String,
>)
    ensures
        match outcome {
            Ok(path) => end matches Ok((list, output)) && reports(list@) == done_reports()
                && output == (AnalyzeProductionOutput {
                storyline_path: path,
                scenes_count: stage.scenes_count,
                subtitles_count: stage.subtitles_count,
                highlights_count: stage.highlights_count,
                duration_secs: stage.duration_secs,
            }),
            Err(failure) => end matches Err(message) && message@ == failure.text(),
        },
{
    let storyline_path: String = match outcome {
        Ok(path) => path,
        Err(failure) => {
            return Err(failure.message());
        },
    };
    let mut list: Vec<Progress> = Vec::new();
    list.push(
        progress(UnderstandingStage::Done, 100, "剧情时间线构建完成，产物已落盘"),
    );
    assert(reports(list@) =~= done_reports());
    Ok(
        (
            list,
            AnalyzeProductionOutput {
                storyline_path,
                scenes_count: stage.scenes_count,
                subtitles_count: stage.subtitles_count,
                highlights_count: stage.highlights_count,
                duration_secs: stage.duration_secs,
            },
        ),
    )
}

/// All reports of an analysis that succeeds, in order.
pub open spec fn all_reports(scenes: int, subtitles: int, highlights: int) -> Seq<ProgressView> {
    begin_reports() + metadata_reports() + segment_reports(scenes) + subtitle_reports(subtitles)
        + highlight_reports(highlights) + done_reports()
}

/// The progress of an analysis that succeeds starts above zero, rises with
/// every report, and ends with a hundred percent; the stages come in order and
/// only the last report says that all is done.
pub proof fn law_progress_rises(scenes: int, subtitles: int, highlights: int)
    ensures
        ({
            let all = all_reports(scenes, subtitles, highlights);
            &&& all.len() == 10
            &&& all[0].percent > 0
            &&& all.last().percent == 100
            &&& forall|i: int, j: int|
                #![trigger all[i], all[j]]
                0 <= i < j < all.len() ==> all[i].percent < all[j].percent && all[i].stage.rank()
                    <= all[j].stage.rank()
            &&& forall|i: int|
                0 <= i < all.len() ==> ((#[trigger] all[i]).stage == UnderstandingStage::Done <==> i
                    == all.len() - 1)
        }),
{
    let all = all_reports(scenes, subtitles, highlights);
    assert(all.len() == 10);
    assert(all[0] == begin_reports()[0]);
    assert(all[1] == metadata_reports()[0] && all[2] == metadata_reports()[1]);
    assert(all[3] == segment_reports(scenes)[0] && all[4] == segment_reports(scenes)[1]);
    assert(all[5] == subtitle_reports(subtitles)[0] && all[6] == subtitle_reports(subtitles)[1]);
    assert(all[7] == highlight_reports(highlights)[0] && all[8] == highlight_reports(
        highlights,
    )[1]);
    assert(all[9] == done_reports()[0]);
}

/// Before the metadata are read, five percent are reported.
pub proof fn law_begin_is_reported(list: Seq<Progress>)
    requires
        reports(list) == begin_reports(),
    ensures
        list.len() == 1,
        list[0].stage == UnderstandingStage::Metadata,
        list[0].percent == 5,
        list[0].message@ == "正在读取视频元数据..."@,
{
    assert(reports(list).len() == list.len());
    assert(reports(list)[0] == list[0]@);
}

/// Once the metadata are read, fifteen percent are reported, and twenty as the
/// cutting of the scenes begins.
pub proof fn law_metadata_are_reported(list: Seq<Progress>)
    requires
        reports(list) == metadata_reports(),
    ensures
        list.len() == 2,
        list[0].stage == UnderstandingStage::Metadata,
        list[0].percent == 15,
        list[0].message@ == "元数据读取完成"@,
        list[1].stage == UnderstandingStage::Segment,
        list[1].percent == 20,
        list[1].message@ == "正在切分场景..."@,
{
    assert(reports(list).len() == list.len());
    assert(reports(list)[0] == list[0]@);
    assert(reports(list)[1] == list[1]@);
}

/// Once the scenes are cut, forty percent are reported with the number of scenes,
/// and forty-five as the transcription begins.
pub proof fn law_scenes_are_reported(list: Seq<Progress>, count: int)
    requires
        reports(list) == segment_reports(count),
    ensures
        list.len() == 2,
        list[0].stage == UnderstandingStage::Segment,
        list[0].percent == 40,
        list[0].message@ == "场景切分完成："@ + text::decimal(count) + " 段"@,
        list[1].stage == UnderstandingStage::Transcribe,
        list[1].percent == 45,
        list[1].message@ == "正在转录字幕（Whisper）..."@,
{
    assert(reports(list).len() == list.len());
    assert(reports(list)[0] == list[0]@);
    assert(reports(list)[1] == list[1]@);
}

/// Once the subtitles are transcribed, seventy percent are reported with the
/// number of subtitles, and seventy-five as the search for highlights begins.
pub proof fn law_subtitles_are_reported(list: Seq<Progress>, count: int)
    requires
        reports(list) == subtitle_reports(count),
    ensures
        list.len() == 2,
        list[0].stage == UnderstandingStage::Transcribe,
        list[0].percent == 70,
        list[0].message@ == "字幕转录完成："@ + text::decimal(count) + " 条"@,
        list[1].stage == UnderstandingStage::Highlight,
        list[1].percent == 75,
        list[1].message@ == "正在检测高光片段..."@,
{
    assert(reports(list).len() == list.len());
    assert(reports(list)[0] == list[0]@);
    assert(reports(list)[1] == list[1]@);
}

/// Once the highlights are found, ninety percent are reported with the number of
/// highlights, and ninety-two as the storyline is built.
pub proof fn law_highlights_are_reported(list: Seq<Progress>, count: int)
    requires
        reports(list) == highlight_reports(count),
    ensures
        list.len() == 2,
        list[0].stage == UnderstandingStage::Highlight,
        list[0].percent == 90,
        list[0].message@ == "高光检测完成："@ + text::decimal(count) + " 段"@,
        list[1].stage == UnderstandingStage::Build,
        list[1].percent == 92,
        list[1].message@ == "正在构建剧情时间线..."@,
{
    assert(reports(list).len() == list.len());
    assert(reports(list)[0] == list[0]@);
    assert(reports(list)[1] == list[1]@);
}

/// Once the storyline is written, a hundred percent are reported.
pub proof fn law_end_is_reported(list: Seq<Progress>)
    requires
        reports(list) == done_reports(),
    ensures
        list.len() == 1,
        list[0].stage == UnderstandingStage::Done,
        list[0].percent == 100,
        list[0].message@ == "剧情时间线构建完成，产物已落盘"@,
{
    assert(reports(list).len() == list.len());
    assert(reports(list)[0] == list[0]@);
}

/// The stages have six names, one for each.
pub proof fn law_stage_names(stage: UnderstandingStage)
    ensures
        stage is Metadata ==> stage.name() == "metadata"@,
        stage is Segment ==> stage.name() == "segment"@,
        stage is Transcribe ==> stage.name() == "transcribe"@,
        stage is Highlight ==> stage.name() == "highlight"@,
        stage is Build ==> stage.name() == "build"@,
        stage is Done ==> stage.name() == "done"@,
{
}

/// A failure to write tells what failed, and then the reason as it was given.
pub proof fn law_write_failures_tell_their_reason(failure: WriteFailure)
    ensures
        failure matches WriteFailure::AppDataDir(reason) ==> failure.text()
            == "无法获取 AppData 目录: "@ + reason@,
        failure matches WriteFailure::CreateDir(reason) ==> failure.text()
            == "创建产物目录失败: "@ + reason@,
        failure matches WriteFailure::Serialize(reason) ==> failure.text()
            == "序列化 storyline 失败: "@ + reason@,
        failure matches WriteFailure::Write(reason) ==> failure.text()
            == "写入 storyline.json 失败: "@ + reason@,
{
}

/// The counts and the duration that an analysis ends with are those of the
/// storyline that it wrote: as many scenes, subtitles and highlights as the
/// document holds, and the duration that it tells.
pub proof fn law_output_agrees_with_the_storyline(
    stage: BuildStage,
    elapsed_ms: u64,
    analyzed_at: Seq<char>,
    built: WriteStage,
)
    requires
        storyline::document_view(built.document@) == storyline::storyline(
            stage.metadata,
            stage.segments@,
            stage.subtitle.segments@,
            stage.highlights@,
            elapsed_ms,
            analyzed_at,
        ),
        built.scenes_count == stage.segments@.len(),
        built.subtitles_count == stage.subtitle.segments@.len(),
        built.highlights_count == stage.highlights@.len(),
        built.duration_secs == stage.metadata.duration,
    ensures
        built.document@[1].key@ == "scenes"@,
        built.document@[1].value matches Field::Objects(list) && list@.len() == built.scenes_count,
        built.document@[2].key@ == "subtitles"@,
        built.document@[2].value matches Field::Objects(list) && list@.len()
            == built.subtitles_count,
        built.document@[3].key@ == "highlights"@,
        built.document@[3].value matches Field::Objects(list) && list@.len()
            == built.highlights_count,
        built.document@[9].key@ == "durationSecs"@,
        built.document@[9].value == Field::Scalar(Scalar::Real(built.duration_secs)),
{
    storyline::law_storyline_fields(
        built.document@,
        stage.metadata,
        stage.segments@,
        stage.subtitle.segments@,
        stage.highlights@,
        elapsed_ms,
        analyzed_at,
    );
}

/// Progress is reported under `understanding-progress`, and the storyline is
/// written to `storyline.json`.
pub proof fn law_event_and_file()
    ensures
        UNDERSTANDING_PROGRESS_EVENT@ == "understanding-progress"@,
        STORYLINE_FILE@ == "storyline.json"@,
{
}

} // verus!
