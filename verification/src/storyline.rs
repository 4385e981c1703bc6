//! The storyline of a production: the document that its analysis leaves behind.

use crate::rows::F64Bits;
use crate::text;
use crate::text::push_numeral;
use vstd::prelude::*;

verus! {

/// What is known of a video file.
#[derive(Debug)]
pub struct VideoMetadataResult {
    pub duration: F64Bits,
    pub width: u32,
    pub height: u32,
    pub fps: F64Bits,
    pub codec: String,
}

/// A scene of a video, with its times in milliseconds.
#[derive(Debug)]
pub struct VideoSegment {
    pub start_ms: u64,
    pub end_ms: u64,
    pub duration_ms: u64,
    pub segment_type: String,
    pub confidence: F64Bits,
}

/// A subtitle, with its times in milliseconds.
#[derive(Debug)]
pub struct SubtitleSegment {
    pub start_ms: u64,
    pub end_ms: u64,
    pub text: String,
    pub probability: F64Bits,
}

/// The subtitles of a video.
#[derive(Debug)]
pub struct SubtitleResult {
    pub segments: Vec<SubtitleSegment>,
}

/// A highlight of a video, with its times in milliseconds.
#[derive(Debug)]
pub struct HighlightSegment {
    pub start_ms: u64,
    pub end_ms: u64,
    pub score: F64Bits,
    pub reason: String,
}

/// A JSON value without parts.
#[derive(Debug)]
pub enum Scalar {
    /// A whole number.
    Integer(u64),
    /// A number of seconds, given as thousandths of a second.
    Seconds(u64),
    /// A number, given by its bit pattern.
    Real(F64Bits),
    /// A text.
    Text(String),
}

/// A member of a JSON object, whose value has no parts.
#[derive(Debug)]
pub struct Member {
    pub key: String,
    pub value: Scalar,
}

/// A value in a document.
#[derive(Debug)]
pub enum Field {
    /// A value without parts.
    Scalar(Scalar),
    /// An array of objects.
    Objects(Vec<Vec<Member>>),
}

/// A member of a document.
#[derive(Debug)]
pub struct DocumentMember {
    pub key: String,
    pub value: Field,
}

/// The content of a value without parts.
pub enum ScalarView {
    Integer(int),
    Seconds(int),
    Real(F64Bits),
    Text(Seq<char>),
}

/// The content of an object: its members in order.
pub type ObjectView = Seq<(Seq<char>, ScalarView)>;

/// The content of a value in a document.
pub enum FieldView {
    Scalar(ScalarView),
    Objects(Seq<ObjectView>),
}

/// The content of a document: its members in order.
pub type DocumentView = Seq<(Seq<char>, FieldView)>;

impl View for Scalar {
    type V = ScalarView;

    open spec fn view(&self) -> ScalarView {
        match self {
            Scalar::Integer(n) => ScalarView::Integer(*n as int),
            Scalar::Seconds(ms) => ScalarView::Seconds(*ms as int),
            Scalar::Real(bits) => ScalarView::Real(*bits),
            Scalar::Text(text) => ScalarView::Text(text@),
        }
    }
}

impl View for Member {
    type V = (Seq<char>, ScalarView);

    open spec fn view(&self) -> (Seq<char>, ScalarView) {
        (self.key@, self.value@)
    }
}

/// The content of an object.
pub open spec fn object_view(members: Seq<Member>) -> ObjectView {
    members.map_values(|member: Member| member@)
}

/// The contents of some objects.
pub open spec fn object_views(objects: Seq<Vec<Member>>) -> Seq<ObjectView> {
    objects.map_values(|object: Vec<Member>| object_view(object@))
}

impl View for Field {
    type V = FieldView;

    open spec fn view(&self) -> FieldView {
        match self {
            Field::Scalar(scalar) => FieldView::Scalar(scalar@),
            Field::Objects(objects) => FieldView::Objects(object_views(objects@)),
        }
    }
}

impl View for DocumentMember {
    type V = (Seq<char>, FieldView);

    open spec fn view(&self) -> (Seq<char>, FieldView) {
        (self.key@, self.value@)
    }
}

/// The content of a document.
pub open spec fn document_view(members: Seq<DocumentMember>) -> DocumentView {
    members.map_values(|member: DocumentMember| member@)
}

/// The scene type that the user interface knows for a kind of segment.
pub open spec fn scene_type(segment_type: Seq<char>) -> Seq<char> {
    if segment_type == "dialogue"@ {
        "dialog"@
    } else if segment_type == "action"@ || segment_type == "transition"@ {
        "action"@
    } else {
        "text"@
    }
}

/// The scene type that the user interface knows for a segment.
pub fn scene_type_of(segment: &VideoSegment) -> (name: &'static str)
    ensures
        name@ == scene_type(segment.segment_type@),
{
    if segment.segment_type == "dialogue".to_owned() {
        "dialog"
    } else if segment.segment_type == "action".to_owned() {
        "action"
    } else if segment.segment_type == "transition".to_owned() {
        "action"
    } else {
        "text"
    }
}

/// The object of the scene with a number.
pub open spec fn scene_object(number: int, segment: VideoSegment) -> ObjectView {
    seq![
        ("id"@, ScalarView::Text("scene-"@ + text::decimal(number))),
        ("startTime"@, ScalarView::Seconds(segment.start_ms as int)),
        ("endTime"@, ScalarView::Seconds(segment.end_ms as int)),
        ("type"@, ScalarView::Text(scene_type(segment.segment_type@))),
        ("score"@, ScalarView::Real(segment.confidence)),
        ("duration"@, ScalarView::Seconds(segment.duration_ms as int)),
        ("confidence"@, ScalarView::Real(segment.confidence)),
    ]
}

/// The object of the subtitle with a number.
pub open spec fn subtitle_object(number: int, segment: SubtitleSegment) -> ObjectView {
    seq![
        ("id"@, ScalarView::Text("subtitle-"@ + text::decimal(number))),
        ("startTime"@, ScalarView::Seconds(segment.start_ms as int)),
        ("endTime"@, ScalarView::Seconds(segment.end_ms as int)),
        ("text"@, ScalarView::Text(segment.text@)),
        ("confidence"@, ScalarView::Real(segment.probability)),
    ]
}

/// The object of a highlight.
pub open spec fn highlight_object(highlight: HighlightSegment) -> ObjectView {
    seq![
        ("startTime"@, ScalarView::Seconds(highlight.start_ms as int)),
        ("endTime"@, ScalarView::Seconds(highlight.end_ms as int)),
        ("score"@, ScalarView::Real(highlight.score)),
        ("reason"@, ScalarView::Text(highlight.reason@)),
    ]
}

/// The confidence of every storyline, four fifths, as a bit pattern.
pub const STORYLINE_CONFIDENCE: u64 = 0x3fe9_9999_9999_999a;

/// The storyline of a production.
pub open spec fn storyline(
    metadata: VideoMetadataResult,
    segments: Seq<VideoSegment>,
    subtitles: Seq<SubtitleSegment>,
    highlights: Seq<HighlightSegment>,
    elapsed_ms: u64,
    analyzed_at: Seq<char>,
) -> DocumentView {
    seq![
        ("version"@, FieldView::Scalar(ScalarView::Integer(1))),
        (
            "scenes"@,
            FieldView::Objects(
                Seq::new(segments.len(), |i: int| scene_object(i, segments[i])),
            ),
        ),
        (
            "subtitles"@,
            FieldView::Objects(
                Seq::new(subtitles.len(), |i: int| subtitle_object(i, subtitles[i])),
            ),
        ),
        (
            "highlights"@,
            FieldView::Objects(
                Seq::new(highlights.len(), |i: int| highlight_object(highlights[i])),
            ),
        ),
        ("summary"@, FieldView::Scalar(ScalarView::Text(""@))),
        ("keyPoints"@, FieldView::Objects(Seq::empty())),
        ("confidence"@, FieldView::Scalar(ScalarView::Real(F64Bits(STORYLINE_CONFIDENCE)))),
        ("analyzeMs"@, FieldView::Scalar(ScalarView::Integer(elapsed_ms as int))),
        ("analyzedAt"@, FieldView::Scalar(ScalarView::Text(analyzed_at))),
        ("durationSecs"@, FieldView::Scalar(ScalarView::Real(metadata.duration))),
        ("width"@, FieldView::Scalar(ScalarView::Integer(metadata.width as int))),
        ("height"@, FieldView::Scalar(ScalarView::Integer(metadata.height as int))),
        ("fps"@, FieldView::Scalar(ScalarView::Real(metadata.fps))),
        ("codec"@, FieldView::Scalar(ScalarView::Text(metadata.codec@))),
    ]
}

fn member(key: &str, value: Scalar) -> (member: Member)
    ensures
        member@ == (key@, value@),
{
    Member { key: key.to_owned(), value }
}

fn document_member(key: &str, value: Field) -> (member: DocumentMember)
    ensures
        member@ == (key@, value@),
{
    DocumentMember { key: key.to_owned(), value }
}

fn numbered(prefix: &str, number: usize) -> (id: String)
    ensures
        id@ == prefix@ + text::decimal(number as int),
{
    let mut id: String = prefix.to_owned();
    push_numeral(&mut id, number as u64, 10);
    assert(id@ =~= prefix@ + text::decimal(number as int));
    id
}

fn scene(number: usize, segment: &VideoSegment) -> (object: Vec<Member>)
    ensures
        object_view(object@) == scene_object(number as int, *segment),
{
    let mut object: Vec<Member> = Vec::new();
    object.push(member("id", Scalar::Text(numbered("scene-", number))));
    object.push(member("startTime", Scalar::Seconds(segment.start_ms)));
    object.push(member("endTime", Scalar::Seconds(segment.end_ms)));
    object.push(member("type", Scalar::Text(scene_type_of(segment).to_owned())));
    object.push(member("score", Scalar::Real(segment.confidence)));
    object.push(member("duration", Scalar::Seconds(segment.duration_ms)));
    object.push(member("confidence", Scalar::Real(segment.confidence)));
    assert(object_view(object@) =~= scene_object(number as int, *segment));
    object
}

fn subtitle_entry(number: usize, segment: &SubtitleSegment) -> (object: Vec<Member>)
    ensures
        object_view(object@) == subtitle_object(number as int, *segment),
{
    let mut object: Vec<Member> = Vec::new();
    object.push(member("id", Scalar::Text(numbered("subtitle-", number))));
    object.push(member("startTime", Scalar::Seconds(segment.start_ms)));
    object.push(member("endTime", Scalar::Seconds(segment.end_ms)));
    object.push(member("text", Scalar::Text(segment.text.clone())));
    object.push(member("confidence", Scalar::Real(segment.probability)));
    assert(object_view(object@) =~= subtitle_object(number as int, *segment));
    object
}

fn highlight_entry(highlight: &HighlightSegment) -> (object: Vec<Member>)
    ensures
        object_view(object@) == highlight_object(*highlight),
{
    let mut object: Vec<Member> = Vec::new();
    object.push(member("startTime", Scalar::Seconds(highlight.start_ms)));
    object.push(member("endTime", Scalar::Seconds(highlight.end_ms)));
    object.push(member("score", Scalar::Real(highlight.score)));
    object.push(member("reason", Scalar::Text(highlight.reason.clone())));
    assert(object_view(object@) =~= highlight_object(*highlight));
    object
}

/// Builds the storyline of a production, analyzed in `elapsed_ms` milliseconds
/// at the time that `analyzed_at` writes.
pub fn build_storyline_json(
    metadata: &VideoMetadataResult,
    segments: &[VideoSegment],
    subtitle: &SubtitleResult,
    highlights: &[HighlightSegment],
    elapsed_ms: u64,
    analyzed_at: &str,
) -> (document: Vec<DocumentMember>)
    ensures
        document_view(document@) == storyline(
            *metadata,
            segments@,
            subtitle.segments@,
            highlights@,
            elapsed_ms,
            analyzed_at@,
        ),
{
    let mut scenes: Vec<Vec<Member>> = Vec::new();
    let mut i: usize = 0;
    while i < segments.len()
        invariant
            i <= segments@.len(),
            object_views(scenes@) == Seq::new(
                i as nat,
                |j: int| scene_object(j, segments@[j]),
            ),
        decreases segments@.len() - i,
    {
        let ghost before = object_views(scenes@);
        let object = scene(i, &segments[i]);
        let ghost added = object_view(object@);
        scenes.push(object);
        assert(object_views(scenes@) =~= before.push(added));
        i = i + 1;
        assert(object_views(scenes@) =~= Seq::new(i as nat, |j: int| scene_object(j, segments@[j])));
    }
    let mut subtitles: Vec<Vec<Member>> = Vec::new();
    let mut k: usize = 0;
    while k < subtitle.segments.len()
        invariant
            k <= subtitle.segments@.len(),
            object_views(subtitles@) == Seq::new(
                k as nat,
                |j: int| subtitle_object(j, subtitle.segments@[j]),
            ),
        decreases subtitle.segments@.len() - k,
    {
        let ghost before = object_views(subtitles@);
        let object = subtitle_entry(k, &subtitle.segments[k]);
        let ghost added = object_view(object@);
        subtitles.push(object);
        assert(object_views(subtitles@) =~= before.push(added));
        k = k + 1;
        assert(object_views(subtitles@) =~= Seq::new(
            k as nat,
            |j: int| subtitle_object(j, subtitle.segments@[j]),
        ));
    }
    let mut highlights_json: Vec<Vec<Member>> = Vec::new();
    let mut h: usize = 0;
    while h < highlights.len()
        invariant
            h <= highlights@.len(),
            object_views(highlights_json@) == Seq::new(
                h as nat,
                |j: int| highlight_object(highlights@[j]),
            ),
        decreases highlights@.len() - h,
    {
        let ghost before = object_views(highlights_json@);
        let object = highlight_entry(&highlights[h]);
        let ghost added = object_view(object@);
        highlights_json.push(object);
        assert(object_views(highlights_json@) =~= before.push(added));
        h = h + 1;
        assert(object_views(highlights_json@) =~= Seq::new(
            h as nat,
            |j: int| highlight_object(highlights@[j]),
        ));
    }
    let key_points: Vec<Vec<Member>> = Vec::new();
    assert(object_views(key_points@) =~= Seq::<ObjectView>::empty());
    let mut document: Vec<DocumentMember> = Vec::new();
    document.push(document_member("version", Field::Scalar(Scalar::Integer(1))));
    document.push(document_member("scenes", Field::Objects(scenes)));
    document.push(document_member("subtitles", Field::Objects(subtitles)));
    document.push(document_member("highlights", Field::Objects(highlights_json)));
    document.push(document_member("summary", Field::Scalar(Scalar::Text("".to_owned()))));
    document.push(document_member("keyPoints", Field::Objects(key_points)));
    document.push(
        document_member("confidence", Field::Scalar(Scalar::Real(F64Bits(STORYLINE_CONFIDENCE)))),
    );
    document.push(document_member("analyzeMs", Field::Scalar(Scalar::Integer(elapsed_ms))));
    document.push(
        document_member("analyzedAt", Field::Scalar(Scalar::Text(analyzed_at.to_owned()))),
    );
    document.push(document_member("durationSecs", Field::Scalar(Scalar::Real(metadata.duration))));
    document.push(document_member("width", Field::Scalar(Scalar::Integer(metadata.width as u64))));
    document.push(
        document_member("height", Field::Scalar(Scalar::Integer(metadata.height as u64))),
    );
    document.push(document_member("fps", Field::Scalar(Scalar::Real(metadata.fps))));
    document.push(document_member("codec", Field::Scalar(Scalar::Text(metadata.codec.clone()))));
    assert(document_view(document@) =~= storyline(
        *metadata,
        segments@,
        subtitle.segments@,
        highlights@,
        elapsed_ms,
        analyzed_at@,
    ));
    document
}

/// The directories, below the one of the application's data, that lead to the
/// artifacts of a production.
pub open spec fn artifacts_path(production_id: Seq<char>) -> Seq<Seq<char>> {
    seq!["Fablr"@, "productions"@, production_id, "artifacts"@]
}

/// The directories, below the one of the application's data, that lead to the
/// artifacts of a production.
pub fn artifacts_dir(production_id: &str) -> (components: Vec<String>)
    ensures
        text::texts(components@) == artifacts_path(production_id@),
{
    let mut components: Vec<String> = Vec::new();
    components.push("Fablr".to_owned());
    components.push("productions".to_owned());
    components.push(production_id.to_owned());
    components.push("artifacts".to_owned());
    assert(text::texts(components@) =~= artifacts_path(production_id@));
    components
}

proof fn lemma_numbered_ids_differ(prefix: Seq<char>, a: int, b: int)
    requires
        0 <= a < b,
    ensures
        prefix + text::decimal(a) != prefix + text::decimal(b),
{
    let x = prefix + text::decimal(a);
    let y = prefix + text::decimal(b);
    if x == y {
        assert(x.skip(prefix.len() as int) =~= text::numeral(a as nat, 10));
        assert(y.skip(prefix.len() as int) =~= text::numeral(b as nat, 10));
        text::lemma_numeral_injective(a as nat, b as nat, 10);
    }
}

/// A storyline has one scene object per segment, one subtitle object per
/// subtitle and one highlight object per highlight, in their order; no two
/// scenes and no two subtitles share an id.
pub proof fn law_storyline_entries(
    metadata: VideoMetadataResult,
    segments: Seq<VideoSegment>,
    subtitles: Seq<SubtitleSegment>,
    highlights: Seq<HighlightSegment>,
    elapsed_ms: u64,
    analyzed_at: Seq<char>,
)
    ensures
        ({
            let document = storyline(
                metadata,
                segments,
                subtitles,
                highlights,
                elapsed_ms,
                analyzed_at,
            );
            &&& document[1].1 matches FieldView::Objects(scenes) && scenes.len() == segments.len()
                && (forall|i: int|
                0 <= i < scenes.len() ==> #[trigger] scenes[i] == scene_object(i, segments[i]))
                && (forall|i: int, j: int|
                #![trigger scenes[i], scenes[j]]
                0 <= i < j < scenes.len() ==> scenes[i][0].1 != scenes[j][0].1)
            &&& document[2].1 matches FieldView::Objects(lines) && lines.len() == subtitles.len()
                && (forall|i: int|
                0 <= i < lines.len() ==> #[trigger] lines[i] == subtitle_object(i, subtitles[i]))
                && (forall|i: int, j: int|
                #![trigger lines[i], lines[j]]
                0 <= i < j < lines.len() ==> lines[i][0].1 != lines[j][0].1)
            &&& document[3].1 matches FieldView::Objects(marks) && marks.len()
                == highlights.len() && (forall|i: int|
                0 <= i < marks.len() ==> #[trigger] marks[i] == highlight_object(highlights[i]))
        }),
{
    let document = storyline(metadata, segments, subtitles, highlights, elapsed_ms, analyzed_at);
    let scenes = document[1].1->Objects_0;
    assert forall|i: int, j: int|
        #![trigger scenes[i], scenes[j]]
        0 <= i < j < scenes.len() implies scenes[i][0].1 != scenes[j][0].1 by {
        lemma_numbered_ids_differ("scene-"@, i, j);
        assert(scenes[i][0].1->Text_0 != scenes[j][0].1->Text_0);
    }
    let lines = document[2].1->Objects_0;
    assert forall|i: int, j: int|
        #![trigger lines[i], lines[j]]
        0 <= i < j < lines.len() implies lines[i][0].1 != lines[j][0].1 by {
        lemma_numbered_ids_differ("subtitle-"@, i, j);
        assert(lines[i][0].1->Text_0 != lines[j][0].1->Text_0);
    }
}

/// No two members of a storyline share a key.
pub proof fn law_storyline_keys_differ(
    metadata: VideoMetadataResult,
    segments: Seq<VideoSegment>,
    subtitles: Seq<SubtitleSegment>,
    highlights: Seq<HighlightSegment>,
    elapsed_ms: u64,
    analyzed_at: Seq<char>,
    i: int,
    j: int,
)
    requires
        0 <= i < j < 14,
    ensures
        storyline(metadata, segments, subtitles, highlights, elapsed_ms, analyzed_at).len() == 14,
        storyline(metadata, segments, subtitles, highlights, elapsed_ms, analyzed_at)[i].0
            != storyline(
            metadata,
            segments,
            subtitles,
            highlights,
            elapsed_ms,
            analyzed_at,
        )[j].0,
{
    reveal_strlit("version");
    reveal_strlit("scenes");
    reveal_strlit("subtitles");
    reveal_strlit("highlights");
    reveal_strlit("summary");
    reveal_strlit("keyPoints");
    reveal_strlit("confidence");
    reveal_strlit("analyzeMs");
    reveal_strlit("analyzedAt");
    reveal_strlit("durationSecs");
    reveal_strlit("width");
    reveal_strlit("height");
    reveal_strlit("fps");
    reveal_strlit("codec");
    let document = storyline(metadata, segments, subtitles, highlights, elapsed_ms, analyzed_at);
    let a = document[i].0;
    let b = document[j].0;
    assert(a.len() != b.len() || a[0] != b[0] || a[1] != b[1] || a[8] != b[8]);
}

/// The scene with a number tells the times and the length of the segment with
/// that number, the scene type of its kind, and its confidence, twice.
pub proof fn law_scene_fields(
    document: Seq<DocumentMember>,
    metadata: VideoMetadataResult,
    segments: Seq<VideoSegment>,
    subtitles: Seq<SubtitleSegment>,
    highlights: Seq<HighlightSegment>,
    elapsed_ms: u64,
    analyzed_at: Seq<char>,
    i: int,
)
    requires
        0 <= i < segments.len(),
        document_view(document) == storyline(
            metadata,
            segments,
            subtitles,
            highlights,
            elapsed_ms,
            analyzed_at,
        ),
    ensures
        document[1].key@ == "scenes"@,
        document[1].value is Objects,
        document[1].value->Objects_0@.len() == segments.len(),
        ({
            let scene = document[1].value->Objects_0@[i]@;
            &&& scene.len() == 7
            &&& scene[0].key@ == "id"@
            &&& scene[0].value matches Scalar::Text(text) && text@ == "scene-"@ + text::decimal(i)
            &&& scene[1].key@ == "startTime"@
            &&& scene[1].value == Scalar::Seconds(segments[i].start_ms)
            &&& scene[2].key@ == "endTime"@
            &&& scene[2].value == Scalar::Seconds(segments[i].end_ms)
            &&& scene[3].key@ == "type"@
            &&& scene[3].value matches Scalar::Text(text) && text@ == (
            if segments[i].segment_type@ == "dialogue"@ {
                "dialog"@
            } else if segments[i].segment_type@ == "action"@ || segments[i].segment_type@
                == "transition"@ {
                "action"@
            } else {
                "text"@
            })
            &&& scene[4].key@ == "score"@
            &&& scene[4].value == Scalar::Real(segments[i].confidence)
            &&& scene[5].key@ == "duration"@
            &&& scene[5].value == Scalar::Seconds(segments[i].duration_ms)
            &&& scene[6].key@ == "confidence"@
            &&& scene[6].value == Scalar::Real(segments[i].confidence)
        }),
{
    let views = document_view(document);
    assert(views.len() == document.len());
    assert(views[1] == document[1]@);
    let objects = document[1].value->Objects_0;
    assert(object_views(objects@).len() == objects@.len());
    let scene = objects@[i]@;
    let shown = object_view(scene);
    assert(object_views(objects@)[i] == shown);
    assert(shown.len() == scene.len());
    assert(shown[0] == scene[0]@);
    assert(shown[1] == scene[1]@);
    assert(shown[2] == scene[2]@);
    assert(shown[3] == scene[3]@);
    assert(shown[4] == scene[4]@);
    assert(shown[5] == scene[5]@);
    assert(shown[6] == scene[6]@);
}

/// The subtitle with a number tells the start, the end, the text and the
/// probability of the subtitle with that number.
pub proof fn law_subtitle_fields(
    document: Seq<DocumentMember>,
    metadata: VideoMetadataResult,
    segments: Seq<VideoSegment>,
    subtitles: Seq<SubtitleSegment>,
    highlights: Seq<HighlightSegment>,
    elapsed_ms: u64,
    analyzed_at: Seq<char>,
    i: int,
)
    requires
        0 <= i < subtitles.len(),
        document_view(document) == storyline(
            metadata,
            segments,
            subtitles,
            highlights,
            elapsed_ms,
            analyzed_at,
        ),
    ensures
        document[2].key@ == "subtitles"@,
        document[2].value is Objects,
        document[2].value->Objects_0@.len() == subtitles.len(),
        ({
            let line = document[2].value->Objects_0@[i]@;
            &&& line.len() == 5
            &&& line[0].key@ == "id"@
            &&& line[0].value matches Scalar::Text(text) && text@ == "subtitle-"@ + text::decimal(i)
            &&& line[1].key@ == "startTime"@
            &&& line[1].value == Scalar::Seconds(subtitles[i].start_ms)
            &&& line[2].key@ == "endTime"@
            &&& line[2].value == Scalar::Seconds(subtitles[i].end_ms)
            &&& line[3].key@ == "text"@
            &&& line[3].value matches Scalar::Text(text) && text@ == subtitles[i].text@
            &&& line[4].key@ == "confidence"@
            &&& line[4].value == Scalar::Real(subtitles[i].probability)
        }),
{
    let views = document_view(document);
    assert(views.len() == document.len());
    assert(views[2] == document[2]@);
    let objects = document[2].value->Objects_0;
    assert(object_views(objects@).len() == objects@.len());
    let line = objects@[i]@;
    let shown = object_view(line);
    assert(object_views(objects@)[i] == shown);
    assert(shown.len() == line.len());
    assert(shown[0] == line[0]@);
    assert(shown[1] == line[1]@);
    assert(shown[2] == line[2]@);
    assert(shown[3] == line[3]@);
    assert(shown[4] == line[4]@);
}

/// The highlight at a place tells the start, the end, the score and the reason
/// of the highlight at that place.
pub proof fn law_highlight_fields(
    document: Seq<DocumentMember>,
    metadata: VideoMetadataResult,
    segments: Seq<VideoSegment>,
    subtitles: Seq<SubtitleSegment>,
    highlights: Seq<HighlightSegment>,
    elapsed_ms: u64,
    analyzed_at: Seq<char>,
    i: int,
)
    requires
        0 <= i < highlights.len(),
        document_view(document) == storyline(
            metadata,
            segments,
            subtitles,
            highlights,
            elapsed_ms,
            analyzed_at,
        ),
    ensures
        document[3].key@ == "highlights"@,
        document[3].value is Objects,
        document[3].value->Objects_0@.len() == highlights.len(),
        ({
            let mark = document[3].value->Objects_0@[i]@;
            &&& mark.len() == 4
            &&& mark[0].key@ == "startTime"@
            &&& mark[0].value == Scalar::Seconds(highlights[i].start_ms)
            &&& mark[1].key@ == "endTime"@
            &&& mark[1].value == Scalar::Seconds(highlights[i].end_ms)
            &&& mark[2].key@ == "score"@
            &&& mark[2].value == Scalar::Real(highlights[i].score)
            &&& mark[3].key@ == "reason"@
            &&& mark[3].value matches Scalar::Text(text) && text@ == highlights[i].reason@
        }),
{
    let views = document_view(document);
    assert(views.len() == document.len());
    assert(views[3] == document[3]@);
    let objects = document[3].value->Objects_0;
    assert(object_views(objects@).len() == objects@.len());
    let mark = objects@[i]@;
    let shown = object_view(mark);
    assert(object_views(objects@)[i] == shown);
    assert(shown.len() == mark.len());
    assert(shown[0] == mark[0]@);
    assert(shown[1] == mark[1]@);
    assert(shown[2] == mark[2]@);
    assert(shown[3] == mark[3]@);
}

/// A storyline tells, besides its three lists, its version, an empty summary, no
/// key points, a confidence of four fifths, how long the analysis took and when it
/// was made, and the duration, size, frame rate and codec of the video.
pub proof fn law_storyline_fields(
    document: Seq<DocumentMember>,
    metadata: VideoMetadataResult,
    segments: Seq<VideoSegment>,
    subtitles: Seq<SubtitleSegment>,
    highlights: Seq<HighlightSegment>,
    elapsed_ms: u64,
    analyzed_at: Seq<char>,
)
    requires
        document_view(document) == storyline(
            metadata,
            segments,
            subtitles,
            highlights,
            elapsed_ms,
            analyzed_at,
        ),
    ensures
        document.len() == 14,
        document[0].key@ == "version"@,
        document[0].value == Field::Scalar(Scalar::Integer(1)),
        document[1].key@ == "scenes"@,
        document[1].value matches Field::Objects(list) && list@.len() == segments.len(),
        document[2].key@ == "subtitles"@,
        document[2].value matches Field::Objects(list) && list@.len() == subtitles.len(),
        document[3].key@ == "highlights"@,
        document[3].value matches Field::Objects(list) && list@.len() == highlights.len(),
        document[4].key@ == "summary"@,
        document[4].value matches Field::Scalar(Scalar::Text(text)) && text@ == ""@,
        document[5].key@ == "keyPoints"@,
        document[5].value matches Field::Objects(list) && list@.len() == 0,
        document[6].key@ == "confidence"@,
        document[6].value == Field::Scalar(Scalar::Real(F64Bits(0x3fe9_9999_9999_999a))),
        document[7].key@ == "analyzeMs"@,
        document[7].value == Field::Scalar(Scalar::Integer(elapsed_ms)),
        document[8].key@ == "analyzedAt"@,
        document[8].value matches Field::Scalar(Scalar::Text(text)) && text@ == analyzed_at,
        document[9].key@ == "durationSecs"@,
        document[9].value == Field::Scalar(Scalar::Real(metadata.duration)),
        document[10].key@ == "width"@,
        document[10].value == Field::Scalar(Scalar::Integer(metadata.width as u64)),
        document[11].key@ == "height"@,
        document[11].value == Field::Scalar(Scalar::Integer(metadata.height as u64)),
        document[12].key@ == "fps"@,
        document[12].value == Field::Scalar(Scalar::Real(metadata.fps)),
        document[13].key@ == "codec"@,
        document[13].value matches Field::Scalar(Scalar::Text(text)) && text@ == metadata.codec@,
{
    let views = document_view(document);
    assert(views.len() == document.len());
    assert(views[0] == document[0]@);
    assert(views[4] == document[4]@);
    assert(views[5] == document[5]@);
    assert(views[6] == document[6]@);
    assert(views[7] == document[7]@);
    assert(views[8] == document[8]@);
    assert(views[9] == document[9]@);
    assert(views[10] == document[10]@);
    assert(views[11] == document[11]@);
    assert(views[12] == document[12]@);
    assert(views[13] == document[13]@);
    assert(views[1] == document[1]@);
    assert(views[2] == document[2]@);
    assert(views[3] == document[3]@);
    let scenes = document[1].value->Objects_0;
    let lines = document[2].value->Objects_0;
    let marks = document[3].value->Objects_0;
    let points = document[5].value->Objects_0;
    assert(object_views(scenes@).len() == scenes@.len());
    assert(object_views(lines@).len() == lines@.len());
    assert(object_views(marks@).len() == marks@.len());
    assert(object_views(points@).len() == points@.len());
}

/// Dialogue is shown as a dialog, action and transitions as action, and every
/// other kind of segment as text.
pub proof fn law_scene_types(segment_type: Seq<char>)
    ensures
        segment_type == "dialogue"@ ==> scene_type(segment_type) == "dialog"@,
        segment_type == "action"@ ==> scene_type(segment_type) == "action"@,
        segment_type == "transition"@ ==> scene_type(segment_type) == "action"@,
        segment_type != "dialogue"@ && segment_type != "action"@ && segment_type != "transition"@
            ==> scene_type(segment_type) == "text"@,
{
    reveal_strlit("dialogue");
    reveal_strlit("action");
    reveal_strlit("transition");
    assert("dialogue"@.len() == 8 && "action"@.len() == 6 && "transition"@.len() == 10);
}

/// The artifacts of a production lie in `Fablr`, in `productions`, in a directory
/// with the id of the production as it is, in `artifacts`.
pub proof fn law_artifacts_lie_below_their_production(
    components: Seq<String>,
    production_id: Seq<char>,
)
    requires
        text::texts(components) == artifacts_path(production_id),
    ensures
        components.len() == 4,
        components[0]@ == "Fablr"@,
        components[1]@ == "productions"@,
        components[2]@ == production_id,
        components[3]@ == "artifacts"@,
{
    let all = text::texts(components);
    assert(all.len() == components.len());
    assert(all[0] == components[0]@ && all[1] == components[1]@);
    assert(all[2] == components[2]@ && all[3] == components[3]@);
}

} // verus!
