//! Storylines as JSON values, and what is read back of them. Numbers with a
//! fraction are made by the caller.

use crate::json;
use crate::json::array_value;
use crate::json::empty_object;
use crate::json::integer_value;
use crate::json::set_member;
use crate::json::text_value;
use crate::json::JsonView;
use crate::rows::F64Bits;
use crate::storyline;
use crate::storyline::DocumentMember;
use crate::storyline::DocumentView;
use crate::storyline::Field;
use crate::storyline::FieldView;
use crate::storyline::HighlightSegment;
use crate::storyline::Member;
use crate::storyline::ObjectView;
use crate::storyline::Scalar;
use crate::storyline::ScalarView;
use crate::storyline::SubtitleSegment;
use crate::storyline::VideoMetadataResult;
use crate::storyline::VideoSegment;
use serde_json::Value;
use vstd::prelude::*;

verus! {

/// What a number with a fraction may be in JSON.
pub type Fraction = spec_fn(ScalarView, JsonView) -> bool;

/// Whether a member has the key.
pub open spec fn keyed<T>(members: Seq<(Seq<char>, T)>, key: Seq<char>) -> bool {
    exists|i: int| 0 <= i < members.len() && (#[trigger] members[i]).0 == key
}

/// Whether no later member has the key of the member at `i`.
pub open spec fn last_of_its_key<T>(members: Seq<(Seq<char>, T)>, i: int) -> bool {
    forall|j: int| i < j < members.len() ==> (#[trigger] members[j]).0 != members[i].0
}

/// Whether a content is an object with just the keys of the members, and shows
/// under each key the value of the last member that has it.
pub open spec fn members_shown<T>(
    content: JsonView,
    members: Seq<(Seq<char>, T)>,
    shown: spec_fn(JsonView, T) -> bool,
) -> bool {
    &&& content is Object
    &&& forall|key: Seq<char>| #[trigger]
        content->Object_0.contains_key(key) <==> keyed(members, key)
    &&& forall|i: int|
        0 <= i < members.len() && last_of_its_key(members, i) ==> shown(
            json::member(content, (#[trigger] members[i]).0),
            members[i].1,
        )
}

/// How a value without parts is shown: whole numbers and texts as they are, and
/// numbers with a fraction as `fraction` says.
pub open spec fn scalar_shown(fraction: Fraction) -> spec_fn(JsonView, ScalarView) -> bool {
    |content: JsonView, scalar: ScalarView|
        match scalar {
            ScalarView::Integer(n) => content == JsonView::Integer(n),
            ScalarView::Text(text) => content == JsonView::Text(text),
            _ => fraction(scalar, content),
        }
}

/// How a value in a document is shown: an array has one object for each object.
pub open spec fn field_shown(fraction: Fraction) -> spec_fn(JsonView, FieldView) -> bool {
    |content: JsonView, field: FieldView|
        match field {
            FieldView::Scalar(scalar) => scalar_shown(fraction)(content, scalar),
            FieldView::Objects(objects) => objects_shown(content, objects, fraction),
        }
}

/// Whether a content is an array that shows the objects in their order.
pub open spec fn objects_shown(
    content: JsonView,
    objects: Seq<ObjectView>,
    fraction: Fraction,
) -> bool {
    &&& content is Array
    &&& content->Array_0.len() == objects.len()
    &&& forall|i: int|
        0 <= i < objects.len() ==> members_shown(
            #[trigger] content->Array_0[i],
            objects[i],
            scalar_shown(fraction),
        )
}

/// Whether a content shows a document.
pub open spec fn document_shown(
    content: JsonView,
    document: DocumentView,
    fraction: Fraction,
) -> bool {
    members_shown(content, document, field_shown(fraction))
}

/// Numbers with a fraction as two functions make them, from thousandths of a
/// second and from bit patterns.
pub open spec fn made_by<S: Fn(u64) -> Value, R: Fn(F64Bits) -> Value>(
    seconds: S,
    real_number: R,
) -> Fraction {
    |scalar: ScalarView, content: JsonView|
        match scalar {
            ScalarView::Seconds(ms) => exists|value: Value|
                call_ensures(seconds, (ms as u64,), value) && content
                    == #[trigger] json::json_content(value),
            ScalarView::Real(bits) => exists|value: Value|
                call_ensures(real_number, (bits,), value) && content
                    == #[trigger] json::json_content(value),
            _ => false,
        }
}

/// Numbers, or null for what is no number.
pub open spec fn any_number() -> Fraction {
    |_scalar: ScalarView, content: JsonView| content is Real || content is Null
}

/// Numbers that are not of extreme size, or null for what is no number.
pub open spec fn ordinary_number() -> Fraction {
    |_scalar: ScalarView, content: JsonView|
        (content is Real && json::ordinary_size(content->Real_0)) || content is Null
}

/// Numbers that JSON holds as they were given, that are not of extreme size, and
/// that are read as they were written.
pub open spec fn exact_number() -> Fraction {
    |scalar: ScalarView, content: JsonView|
        {
            &&& content is Real
            &&& json::ordinary_size(content->Real_0)
            &&& json::json_reread(content->Real_0) == content->Real_0
            &&& scalar matches ScalarView::Real(bits) ==> content == JsonView::Real(bits)
        }
}

proof fn lemma_no_members<T>(shown: spec_fn(JsonView, T) -> bool)
    ensures
        members_shown(JsonView::Object(Map::empty()), Seq::<(Seq<char>, T)>::empty(), shown),
{
}

/// Setting a member shows one member more.
proof fn lemma_member_set<T>(
    content: JsonView,
    members: Seq<(Seq<char>, T)>,
    shown: spec_fn(JsonView, T) -> bool,
    key: Seq<char>,
    added: JsonView,
    value: T,
)
    requires
        members_shown(content, members, shown),
        shown(added, value),
    ensures
        members_shown(
            JsonView::Object(content->Object_0.insert(key, added)),
            members.push((key, value)),
            shown,
        ),
{
    let after = JsonView::Object(content->Object_0.insert(key, added));
    let all = members.push((key, value));
    assert(all[members.len() as int] == (key, value));
    assert forall|k: Seq<char>| #[trigger] after->Object_0.contains_key(k) <==> keyed(all, k) by {
        if keyed(members, k) {
            let i = choose|i: int| 0 <= i < members.len() && (#[trigger] members[i]).0 == k;
            assert(all[i].0 == k);
        }
        if keyed(all, k) && k != key {
            let i = choose|i: int| 0 <= i < all.len() && (#[trigger] all[i]).0 == k;
            assert(members[i].0 == k);
        }
    }
    assert forall|i: int| 0 <= i < all.len() && last_of_its_key(all, i) implies shown(
        json::member(after, (#[trigger] all[i]).0),
        all[i].1,
    ) by {
        if i < members.len() {
            assert(all[i] == members[i]);
            assert(all[members.len() as int].0 != all[i].0);
            assert forall|j: int| i < j < members.len() implies (#[trigger] members[j]).0
                != members[i].0 by {
                assert(all[j] == members[j]);
            }
        }
    }
}

fn scalar_value<S: Fn(u64) -> Value, R: Fn(F64Bits) -> Value>(
    scalar: &Scalar,
    seconds: &S,
    real_number: &R,
) -> (value: Value)
    requires
        forall|ms: u64| call_requires(*seconds, (ms,)),
        forall|bits: F64Bits| call_requires(*real_number, (bits,)),
    ensures
        scalar_shown(made_by(*seconds, *real_number))(json::json_content(value), scalar@),
{
    match scalar {
        Scalar::Integer(n) => integer_value(*n),
        Scalar::Seconds(ms) => {
            let value: Value = seconds(*ms);
            assert(made_by(*seconds, *real_number)(scalar@, json::json_content(value)));
            value
        },
        Scalar::Real(bits) => {
            let value: Value = real_number(*bits);
            assert(made_by(*seconds, *real_number)(scalar@, json::json_content(value)));
            value
        },
        Scalar::Text(text) => text_value(text.as_str()),
    }
}

fn object_value<S: Fn(u64) -> Value, R: Fn(F64Bits) -> Value>(
    members: &Vec<Member>,
    seconds: &S,
    real_number: &R,
) -> (value: Value)
    requires
        forall|ms: u64| call_requires(*seconds, (ms,)),
        forall|bits: F64Bits| call_requires(*real_number, (bits,)),
    ensures
        members_shown(
            json::json_content(value),
            storyline::object_view(members@),
            scalar_shown(made_by(*seconds, *real_number)),
        ),
{
    let ghost shown = scalar_shown(made_by(*seconds, *real_number));
    let mut object: Value = empty_object();
    let mut i: usize = 0;
    proof {
        lemma_no_members(shown);
        assert(storyline::object_view(members@.take(0)) =~= Seq::empty());
    }
    while i < members.len()
        invariant
            i <= members@.len(),
            shown == scalar_shown(made_by(*seconds, *real_number)),
            forall|ms: u64| call_requires(*seconds, (ms,)),
            forall|bits: F64Bits| call_requires(*real_number, (bits,)),
            members_shown(
                json::json_content(object),
                storyline::object_view(members@.take(i as int)),
                shown,
            ),
        decreases members@.len() - i,
    {
        let value: Value = scalar_value(&members[i].value, seconds, real_number);
        proof {
            lemma_member_set(
                json::json_content(object),
                storyline::object_view(members@.take(i as int)),
                shown,
                members@[i as int].key@,
                json::json_content(value),
                members@[i as int].value@,
            );
            assert(storyline::object_view(members@.take(i + 1)) =~= storyline::object_view(
                members@.take(i as int),
            ).push((members@[i as int].key@, members@[i as int].value@)));
        }
        set_member(&mut object, members[i].key.as_str(), value);
        i = i + 1;
    }
    assert(members@.take(i as int) =~= members@);
    object
}

fn objects_value<S: Fn(u64) -> Value, R: Fn(F64Bits) -> Value>(
    objects: &Vec<Vec<Member>>,
    seconds: &S,
    real_number: &R,
) -> (value: Value)
    requires
        forall|ms: u64| call_requires(*seconds, (ms,)),
        forall|bits: F64Bits| call_requires(*real_number, (bits,)),
    ensures
        objects_shown(
            json::json_content(value),
            storyline::object_views(objects@),
            made_by(*seconds, *real_number),
        ),
{
    let ghost shown = scalar_shown(made_by(*seconds, *real_number));
    let mut items: Vec<Value> = Vec::new();
    let mut i: usize = 0;
    while i < objects.len()
        invariant
            i <= objects@.len(),
            items@.len() == i,
            shown == scalar_shown(made_by(*seconds, *real_number)),
            forall|ms: u64| call_requires(*seconds, (ms,)),
            forall|bits: F64Bits| call_requires(*real_number, (bits,)),
            forall|j: int|
                0 <= j < i ==> members_shown(
                    json::json_content(#[trigger] items@[j]),
                    storyline::object_view(objects@[j]@),
                    shown,
                ),
        decreases objects@.len() - i,
    {
        items.push(object_value(&objects[i], seconds, real_number));
        i = i + 1;
    }
    let ghost contents = json::contents(items@);
    assert forall|j: int| 0 <= j < objects@.len() implies members_shown(
        #[trigger] contents[j],
        storyline::object_views(objects@)[j],
        shown,
    ) by {
        assert(contents[j] == json::json_content(items@[j]));
    }
    array_value(items)
}

/// The JSON value of a document. Seconds are made by `seconds` from their
/// thousandths, other numbers with a fraction by `real_number` from their bit
/// pattern.
pub fn document_value<S: Fn(u64) -> Value, R: Fn(F64Bits) -> Value>(
    document: &Vec<DocumentMember>,
    seconds: &S,
    real_number: &R,
) -> (value: Value)
    requires
        forall|ms: u64| call_requires(*seconds, (ms,)),
        forall|bits: F64Bits| call_requires(*real_number, (bits,)),
    ensures
        document_shown(
            json::json_content(value),
            storyline::document_view(document@),
            made_by(*seconds, *real_number),
        ),
{
    let ghost shown = field_shown(made_by(*seconds, *real_number));
    let mut object: Value = empty_object();
    let mut i: usize = 0;
    proof {
        lemma_no_members(shown);
        assert(storyline::document_view(document@.take(0)) =~= Seq::empty());
    }
    while i < document.len()
        invariant
            i <= document@.len(),
            shown == field_shown(made_by(*seconds, *real_number)),
            forall|ms: u64| call_requires(*seconds, (ms,)),
            forall|bits: F64Bits| call_requires(*real_number, (bits,)),
            members_shown(
                json::json_content(object),
                storyline::document_view(document@.take(i as int)),
                shown,
            ),
        decreases document@.len() - i,
    {
        let value: Value = match &document[i].value {
            Field::Scalar(scalar) => scalar_value(scalar, seconds, real_number),
            Field::Objects(objects) => objects_value(objects, seconds, real_number),
        };
        proof {
            lemma_member_set(
                json::json_content(object),
                storyline::document_view(document@.take(i as int)),
                shown,
                document@[i as int].key@,
                json::json_content(value),
                document@[i as int].value@,
            );
            assert(storyline::document_view(document@.take(i + 1)) =~= storyline::document_view(
                document@.take(i as int),
            ).push((document@[i as int].key@, document@[i as int].value@)));
        }
        set_member(&mut object, document[i].key.as_str(), value);
        i = i + 1;
    }
    assert(document@.take(i as int) =~= document@);
    object
}

/// Under a key that some member has there is a last member that has it.
proof fn lemma_last_of_key<T>(members: Seq<(Seq<char>, T)>, i: int) -> (last: int)
    requires
        0 <= i < members.len(),
    ensures
        i <= last < members.len(),
        members[last].0 == members[i].0,
        last_of_its_key(members, last),
    decreases members.len() - i,
{
    if last_of_its_key(members, i) {
        i
    } else {
        let j = choose|j: int|
            i < j < members.len() && (#[trigger] members[j]).0 == members[i].0;
        lemma_last_of_key(members, j)
    }
}

proof fn lemma_members_readable<T>(
    content: JsonView,
    members: Seq<(Seq<char>, T)>,
    shown: spec_fn(JsonView, T) -> bool,
    below: nat,
)
    requires
        members_shown(content, members, shown),
        forall|i: int|
            0 <= i < members.len() && (#[trigger] members[i]).0.len() > 0 ==> members[i].0[0]
                != '$',
        forall|c: JsonView, i: int|
            #![trigger shown(c, members[i].1)]
            0 <= i < members.len() && shown(c, members[i].1) ==> json::readable(c, below),
    ensures
        json::readable(content, below + 1),
{
    let map = content->Object_0;
    assert forall|key: Seq<char>| #[trigger] map.contains_key(key) implies (key.len() > 0
        ==> key[0] != '$') && json::readable(map[key], below) by {
        assert(keyed(members, key));
        let i = choose|i: int| 0 <= i < members.len() && (#[trigger] members[i]).0 == key;
        let last = lemma_last_of_key(members, i);
        assert(shown(json::member(content, members[last].0), members[last].1));
    }
}

proof fn lemma_members_kept<T>(
    written: JsonView,
    read: JsonView,
    members: Seq<(Seq<char>, T)>,
    shown: spec_fn(JsonView, T) -> bool,
    kept: spec_fn(JsonView, T) -> bool,
    below: nat,
)
    requires
        members_shown(written, members, shown),
        json::alike(written, read, below + 1),
        forall|c: JsonView, d: JsonView, t: T|
            #![trigger shown(c, t), json::alike(c, d, below)]
            shown(c, t) && json::alike(c, d, below) ==> kept(d, t),
    ensures
        members_shown(read, members, kept),
{
    let a = written->Object_0;
    let b = read->Object_0;
    assert forall|key: Seq<char>| #[trigger] b.contains_key(key) <==> keyed(members, key) by {
        assert(a.contains_key(key) <==> b.contains_key(key));
    }
    assert forall|i: int| 0 <= i < members.len() && last_of_its_key(members, i) implies kept(
        json::member(read, (#[trigger] members[i]).0),
        members[i].1,
    ) by {
        let key = members[i].0;
        assert(keyed(members, key));
        assert(a.contains_key(key));
        assert(shown(json::member(written, key), members[i].1));
        assert(json::alike(a[key], b[key], below));
    }
}

/// The scalars of an object are read back as they were written, but for the
/// exact values of numbers with a fraction.
proof fn lemma_scalar_kept(c: JsonView, d: JsonView, scalar: ScalarView, depth: nat)
    requires
        scalar_shown(ordinary_number())(c, scalar),
        json::alike(c, d, depth),
    ensures
        scalar_shown(any_number())(d, scalar),
{
}

proof fn lemma_field_kept(c: JsonView, d: JsonView, field: FieldView, below: nat)
    requires
        field_shown(ordinary_number())(c, field),
        json::alike(c, d, below + 2),
    ensures
        field_shown(any_number())(d, field),
{
    match field {
        FieldView::Scalar(scalar) => {
            lemma_scalar_kept(c, d, scalar, below + 2);
        },
        FieldView::Objects(objects) => {
            let shown = scalar_shown(ordinary_number());
            let kept = scalar_shown(any_number());
            assert forall|x: JsonView, y: JsonView, t: ScalarView|
                #![trigger shown(x, t), json::alike(x, y, below)]
                shown(x, t) && json::alike(x, y, below) implies kept(y, t) by {
                lemma_scalar_kept(x, y, t, below);
            }
            assert forall|i: int| 0 <= i < objects.len() implies members_shown(
                #[trigger] d->Array_0[i],
                objects[i],
                kept,
            ) by {
                assert(json::alike(c->Array_0[i], d->Array_0[i], below + 1));
                lemma_members_kept(c->Array_0[i], d->Array_0[i], objects[i], shown, kept, below);
            }
        },
    }
}

/// What is read back of a document shows the same document.
proof fn lemma_document_kept(written: JsonView, read: JsonView, document: DocumentView, below: nat)
    requires
        document_shown(written, document, ordinary_number()),
        json::alike(written, read, below + 3),
    ensures
        document_shown(read, document, any_number()),
{
    let shown = field_shown(ordinary_number());
    let kept = field_shown(any_number());
    assert forall|c: JsonView, d: JsonView, t: FieldView|
        #![trigger shown(c, t), json::alike(c, d, below + 2)]
        shown(c, t) && json::alike(c, d, below + 2) implies kept(d, t) by {
        lemma_field_kept(c, d, t, below);
    }
    lemma_members_kept(written, read, document, shown, kept, below + 2);
}

/// Whether no key begins with a dollar sign.
spec fn plain_keys<T>(members: Seq<(Seq<char>, T)>) -> bool {
    forall|i: int|
        0 <= i < members.len() && (#[trigger] members[i]).0.len() > 0 ==> members[i].0[0] != '$'
}

proof fn lemma_objects_readable(content: JsonView, objects: Seq<ObjectView>, below: nat)
    requires
        objects_shown(content, objects, ordinary_number()),
        forall|i: int| 0 <= i < objects.len() ==> plain_keys(#[trigger] objects[i]),
    ensures
        json::readable(content, below + 2),
{
    let shown = scalar_shown(ordinary_number());
    assert forall|i: int| 0 <= i < objects.len() implies json::readable(
        #[trigger] content->Array_0[i],
        below + 1,
    ) by {
        assert(plain_keys(objects[i]));
        lemma_members_readable(content->Array_0[i], objects[i], shown, below);
    }
}

proof fn lemma_entry_keys(
    i: int,
    segment: VideoSegment,
    line: SubtitleSegment,
    mark: HighlightSegment,
)
    ensures
        plain_keys(storyline::scene_object(i, segment)),
        plain_keys(storyline::subtitle_object(i, line)),
        plain_keys(storyline::highlight_object(mark)),
{
    reveal_strlit("id");
    reveal_strlit("startTime");
    reveal_strlit("endTime");
    reveal_strlit("type");
    reveal_strlit("score");
    reveal_strlit("duration");
    reveal_strlit("confidence");
    reveal_strlit("text");
    reveal_strlit("reason");
}

proof fn lemma_storyline_keys(
    metadata: VideoMetadataResult,
    segments: Seq<VideoSegment>,
    subtitles: Seq<SubtitleSegment>,
    highlights: Seq<HighlightSegment>,
    elapsed_ms: u64,
    analyzed_at: Seq<char>,
)
    ensures
        plain_keys(
            storyline::storyline(
                metadata,
                segments,
                subtitles,
                highlights,
                elapsed_ms,
                analyzed_at,
            ),
        ),
{
    reveal_strlit("version");
    reveal_strlit("scenes");
    reveal_strlit("subtitles");
    reveal_strlit("highlights");
    reveal_strlit("summary");
    reveal_strlit("keyPoints");
    reveal_strlit("confidence");
    reveal_strlit("analyzeMs");
    reveal_strlit("analyzedAt");
    reveal_strlit("durationSecs");
    reveal_strlit("width");
    reveal_strlit("height");
    reveal_strlit("fps");
    reveal_strlit("codec");
}

proof fn lemma_storyline_readable(
    written: JsonView,
    metadata: VideoMetadataResult,
    segments: Seq<VideoSegment>,
    subtitles: Seq<SubtitleSegment>,
    highlights: Seq<HighlightSegment>,
    elapsed_ms: u64,
    analyzed_at: Seq<char>,
)
    requires
        document_shown(
            written,
            storyline::storyline(
                metadata,
                segments,
                subtitles,
                highlights,
                elapsed_ms,
                analyzed_at,
            ),
            ordinary_number(),
        ),
    ensures
        json::readable(written, json::depth_limit()),
{
    let document = storyline::storyline(
        metadata,
        segments,
        subtitles,
        highlights,
        elapsed_ms,
        analyzed_at,
    );
    lemma_storyline_keys(metadata, segments, subtitles, highlights, elapsed_ms, analyzed_at);
    let below = (json::depth_limit() - 1) as nat;
    let shown = field_shown(ordinary_number());
    assert forall|c: JsonView, i: int|
        #![trigger shown(c, document[i].1)]
        0 <= i < document.len() && shown(c, document[i].1) implies json::readable(c, below) by {
        match document[i].1 {
            FieldView::Scalar(_) => {},
            FieldView::Objects(objects) => {
                assert forall|k: int| 0 <= k < objects.len() implies plain_keys(
                    #[trigger] objects[k],
                ) by {
                    lemma_entry_keys(k, segments[k], subtitles[k], highlights[k]);
                }
                lemma_objects_readable(c, objects, (below - 2) as nat);
            },
        }
    }
    lemma_members_readable(written, document, shown, below);
}

/// Under the key of a member of a storyline stands what that member says.
proof fn lemma_storyline_member(
    content: JsonView,
    metadata: VideoMetadataResult,
    segments: Seq<VideoSegment>,
    subtitles: Seq<SubtitleSegment>,
    highlights: Seq<HighlightSegment>,
    elapsed_ms: u64,
    analyzed_at: Seq<char>,
    fraction: Fraction,
    i: int,
)
    requires
        0 <= i < 14,
        document_shown(
            content,
            storyline::storyline(
                metadata,
                segments,
                subtitles,
                highlights,
                elapsed_ms,
                analyzed_at,
            ),
            fraction,
        ),
    ensures
        ({
            let document = storyline::storyline(
                metadata,
                segments,
                subtitles,
                highlights,
                elapsed_ms,
                analyzed_at,
            );
            &&& json::has_member(content, document[i].0)
            &&& field_shown(fraction)(json::member(content, document[i].0), document[i].1)
        }),
{
    let document = storyline::storyline(
        metadata,
        segments,
        subtitles,
        highlights,
        elapsed_ms,
        analyzed_at,
    );
    assert(keyed(document, document[i].0));
    assert forall|j: int| i < j < document.len() implies (#[trigger] document[j]).0
        != document[i].0 by {
        storyline::law_storyline_keys_differ(
            metadata,
            segments,
            subtitles,
            highlights,
            elapsed_ms,
            analyzed_at,
            i,
            j,
        );
    }
    assert(last_of_its_key(document, i));
}

/// What was written of a storyline can be read, and shows the same storyline:
/// as many scenes, subtitles and highlights as there were, each with the whole
/// numbers and texts that it had, and the number that is read for each number
/// with a fraction. `written` is the content of the value that was written,
/// whose numbers are not of extreme size, and `read` what was read back of it.
pub proof fn law_storyline_reads_back(
    written: JsonView,
    read: JsonView,
    metadata: VideoMetadataResult,
    segments: Seq<VideoSegment>,
    subtitles: Seq<SubtitleSegment>,
    highlights: Seq<HighlightSegment>,
    elapsed_ms: u64,
    analyzed_at: Seq<char>,
)
    requires
        document_shown(
            written,
            storyline::storyline(
                metadata,
                segments,
                subtitles,
                highlights,
                elapsed_ms,
                analyzed_at,
            ),
            ordinary_number(),
        ),
    ensures
        json::readable(written, json::depth_limit()),
        json::alike(written, read, json::depth_limit()) ==> {
            &&& document_shown(
                read,
                storyline::storyline(
                    metadata,
                    segments,
                    subtitles,
                    highlights,
                    elapsed_ms,
                    analyzed_at,
                ),
                any_number(),
            )
            &&& json::member(read, "scenes"@) matches JsonView::Array(scenes) && scenes.len()
                == segments.len()
            &&& json::member(read, "subtitles"@) matches JsonView::Array(lines) && lines.len()
                == subtitles.len()
            &&& json::member(read, "highlights"@) matches JsonView::Array(marks) && marks.len()
                == highlights.len()
            &&& json::member(read, "version"@) == JsonView::Integer(1)
            &&& json::member(read, "analyzeMs"@) == JsonView::Integer(elapsed_ms as int)
            &&& json::member(read, "analyzedAt"@) == JsonView::Text(analyzed_at)
            &&& json::member(read, "width"@) == JsonView::Integer(metadata.width as int)
            &&& json::member(read, "height"@) == JsonView::Integer(metadata.height as int)
            &&& json::member(read, "codec"@) == JsonView::Text(metadata.codec@)
            &&& json::member(read, "durationSecs"@) == (match json::member(
                written,
                "durationSecs"@,
            ) {
                JsonView::Real(bits) => JsonView::Real(json::json_reread(bits)),
                other => other,
            })
        },
{
    lemma_storyline_readable(
        written,
        metadata,
        segments,
        subtitles,
        highlights,
        elapsed_ms,
        analyzed_at,
    );
    let document = storyline::storyline(
        metadata,
        segments,
        subtitles,
        highlights,
        elapsed_ms,
        analyzed_at,
    );
    if json::alike(written, read, json::depth_limit()) {
        lemma_document_kept(written, read, document, (json::depth_limit() - 3) as nat);
        assert forall|i: int| 0 <= i < 14 implies #[trigger] field_shown(any_number())(
            json::member(read, document[i].0),
            document[i].1,
        ) by {
            lemma_storyline_member(
                read,
                metadata,
                segments,
                subtitles,
                highlights,
                elapsed_ms,
                analyzed_at,
                any_number(),
                i,
            );
        }
        let shown = field_shown(any_number());
        assert(shown(json::member(read, document[0].0), document[0].1));
        assert(shown(json::member(read, document[1].0), document[1].1));
        assert(shown(json::member(read, document[2].0), document[2].1));
        assert(shown(json::member(read, document[3].0), document[3].1));
        assert(shown(json::member(read, document[7].0), document[7].1));
        assert(shown(json::member(read, document[8].0), document[8].1));
        assert(shown(json::member(read, document[10].0), document[10].1));
        assert(shown(json::member(read, document[11].0), document[11].1));
        assert(shown(json::member(read, document[13].0), document[13].1));
        lemma_storyline_member(
            written,
            metadata,
            segments,
            subtitles,
            highlights,
            elapsed_ms,
            analyzed_at,
            ordinary_number(),
            9,
        );
        assert(written->Object_0.contains_key("durationSecs"@));
        reveal_with_fuel(json::alike, 2);
    }
}

/// What is shown stays shown where less is asked of the values.
proof fn lemma_members_weaker<T>(
    content: JsonView,
    members: Seq<(Seq<char>, T)>,
    shown: spec_fn(JsonView, T) -> bool,
    weaker: spec_fn(JsonView, T) -> bool,
)
    requires
        members_shown(content, members, shown),
        forall|c: JsonView, t: T| #[trigger] shown(c, t) ==> weaker(c, t),
    ensures
        members_shown(content, members, weaker),
{
    assert forall|i: int| 0 <= i < members.len() && last_of_its_key(members, i) implies weaker(
        json::member(content, (#[trigger] members[i]).0),
        members[i].1,
    ) by {
        assert(shown(json::member(content, members[i].0), members[i].1));
    }
}

proof fn lemma_members_exact<T>(
    content: JsonView,
    members: Seq<(Seq<char>, T)>,
    shown: spec_fn(JsonView, T) -> bool,
    below: nat,
)
    requires
        members_shown(content, members, shown),
        forall|c: JsonView, t: T| #[trigger] shown(c, t) ==> json::exact(c, below),
    ensures
        json::exact(content, below + 1),
{
    let map = content->Object_0;
    assert forall|key: Seq<char>| #[trigger] map.contains_key(key) implies json::exact(
        map[key],
        below,
    ) by {
        assert(keyed(members, key));
        let i = choose|i: int| 0 <= i < members.len() && (#[trigger] members[i]).0 == key;
        let last = lemma_last_of_key(members, i);
        assert(shown(json::member(content, members[last].0), members[last].1));
    }
}

/// A field whose numbers are exact has ordinary numbers, and is exact.
proof fn lemma_field_exact(content: JsonView, field: FieldView, below: nat)
    requires
        field_shown(exact_number())(content, field),
    ensures
        field_shown(ordinary_number())(content, field),
        json::exact(content, below + 2),
{
    if let FieldView::Objects(objects) = field {
        let shown = scalar_shown(exact_number());
        let weaker = scalar_shown(ordinary_number());
        assert forall|c: JsonView, t: ScalarView| #[trigger] shown(c, t) implies weaker(c, t)
            && json::exact(c, below) by {}
        assert forall|i: int| 0 <= i < objects.len() implies members_shown(
            #[trigger] content->Array_0[i],
            objects[i],
            weaker,
        ) && json::exact(content->Array_0[i], below + 1) by {
            assert(members_shown(content->Array_0[i], objects[i], shown));
            lemma_members_weaker(content->Array_0[i], objects[i], shown, weaker);
            lemma_members_exact(content->Array_0[i], objects[i], shown, below);
        }
    }
}

/// Where every number is held by JSON as it was given and is read as it was
/// written, what is read back of a storyline is what was written: as many
/// scenes, subtitles and highlights as there were, and the duration of the
/// video.
pub proof fn law_storyline_reads_back_exactly(
    written: JsonView,
    read: JsonView,
    metadata: VideoMetadataResult,
    segments: Seq<VideoSegment>,
    subtitles: Seq<SubtitleSegment>,
    highlights: Seq<HighlightSegment>,
    elapsed_ms: u64,
    analyzed_at: Seq<char>,
)
    requires
        document_shown(
            written,
            storyline::storyline(
                metadata,
                segments,
                subtitles,
                highlights,
                elapsed_ms,
                analyzed_at,
            ),
            exact_number(),
        ),
    ensures
        json::readable(written, json::depth_limit()),
        json::alike(written, read, json::depth_limit()) ==> {
            &&& read == written
            &&& json::member(read, "scenes"@) matches JsonView::Array(scenes) && scenes.len()
                == segments.len()
            &&& json::member(read, "subtitles"@) matches JsonView::Array(lines) && lines.len()
                == subtitles.len()
            &&& json::member(read, "highlights"@) matches JsonView::Array(marks) && marks.len()
                == highlights.len()
            &&& json::member(read, "durationSecs"@) == JsonView::Real(metadata.duration)
        },
{
    let document = storyline::storyline(
        metadata,
        segments,
        subtitles,
        highlights,
        elapsed_ms,
        analyzed_at,
    );
    let below = (json::depth_limit() - 1) as nat;
    let shown = field_shown(exact_number());
    let weaker = field_shown(ordinary_number());
    assert forall|c: JsonView, t: FieldView| #[trigger] shown(c, t) implies weaker(c, t)
        && json::exact(c, below) by {
        lemma_field_exact(c, t, (below - 2) as nat);
    }
    lemma_members_weaker(written, document, shown, weaker);
    lemma_members_exact(written, document, shown, below);
    law_storyline_reads_back(
        written,
        read,
        metadata,
        segments,
        subtitles,
        highlights,
        elapsed_ms,
        analyzed_at,
    );
    if json::alike(written, read, json::depth_limit()) {
        json::lemma_alike_exact(written, read, json::depth_limit());
        lemma_storyline_member(
            written,
            metadata,
            segments,
            subtitles,
            highlights,
            elapsed_ms,
            analyzed_at,
            exact_number(),
            9,
        );
        assert(shown(json::member(written, document[9].0), document[9].1));
    }
}

/// A JSON value shows a document member by member. Under the key of a member that
/// no later member shares stands its value: a whole number or a text as it is, a
/// number of seconds and any other number as the function for it made them, and a
/// list as an array with as many objects, in their order, each of which again
/// shows its members. No other keys are there.
pub proof fn law_document_is_shown_member_by_member<
    S: Fn(u64) -> Value,
    R: Fn(F64Bits) -> Value,
>(content: JsonView, document: Seq<DocumentMember>, seconds: S, real_number: R, i: int)
    requires
        document_shown(
            content,
            storyline::document_view(document),
            made_by(seconds, real_number),
        ),
        0 <= i < document.len(),
        forall|j: int| i < j < document.len() ==> (#[trigger] document[j]).key@ != document[i].key@,
    ensures
        content is Object,
        forall|key: Seq<char>| #[trigger]
            content->Object_0.contains_key(key) ==> exists|j: int|
                0 <= j < document.len() && (#[trigger] document[j]).key@ == key,
        content->Object_0.contains_key(document[i].key@),
        document[i].value matches Field::Scalar(Scalar::Integer(n))
            ==> content->Object_0[document[i].key@] == JsonView::Integer(n as int),
        document[i].value matches Field::Scalar(Scalar::Text(text))
            ==> content->Object_0[document[i].key@] == JsonView::Text(text@),
        document[i].value matches Field::Scalar(Scalar::Seconds(ms)) ==> exists|value: Value|
            call_ensures(seconds, (ms,), value) && content->Object_0[document[i].key@]
                == #[trigger] json::json_content(value),
        document[i].value matches Field::Scalar(Scalar::Real(bits)) ==> exists|value: Value|
            call_ensures(real_number, (bits,), value) && content->Object_0[document[i].key@]
                == #[trigger] json::json_content(value),
        document[i].value matches Field::Objects(list) ==> {
            &&& content->Object_0[document[i].key@] matches JsonView::Array(items)
            &&& items.len() == list@.len()
            &&& forall|k: int|
                0 <= k < list@.len() ==> members_shown(
                    #[trigger] items[k],
                    storyline::object_view(list@[k]@),
                    scalar_shown(made_by(seconds, real_number)),
                )
        },
{
    let views = storyline::document_view(document);
    assert(views.len() == document.len());
    assert(views[i] == document[i]@);
    assert forall|j: int| i < j < views.len() implies (#[trigger] views[j]).0 != views[i].0 by {
        assert(views[j] == document[j]@);
        assert(document[j].key@ != document[i].key@);
    }
    assert(last_of_its_key(views, i));
    assert(keyed(views, views[i].0));
    assert(content->Object_0.contains_key(views[i].0));
    assert forall|key: Seq<char>| #[trigger] content->Object_0.contains_key(key) implies exists|
        j: int,
    |
        0 <= j < document.len() && (#[trigger] document[j]).key@ == key by {
        assert(keyed(views, key));
        let j = choose|j: int| 0 <= j < views.len() && (#[trigger] views[j]).0 == key;
        assert(views[j] == document[j]@);
        assert(document[j].key@ == key);
    }
    let shown = field_shown(made_by(seconds, real_number));
    assert(shown(json::member(content, views[i].0), views[i].1));
    if let Field::Objects(list) = document[i].value {
        let items = content->Object_0[document[i].key@]->Array_0;
        let objects = storyline::object_views(list@);
        assert(objects.len() == list@.len());
        assert forall|k: int| 0 <= k < list@.len() implies members_shown(
            #[trigger] items[k],
            storyline::object_view(list@[k]@),
            scalar_shown(made_by(seconds, real_number)),
        ) by {
            assert(objects[k] == storyline::object_view(list@[k]@));
        }
    }
}

/// An object in a list of a document shows its members in the same way: whole
/// numbers and texts as they are, and numbers with a fraction as the functions for
/// them made them. No other keys are there.
pub proof fn law_object_is_shown_member_by_member<S: Fn(u64) -> Value, R: Fn(F64Bits) -> Value>(
    content: JsonView,
    members: Seq<Member>,
    seconds: S,
    real_number: R,
    i: int,
)
    requires
        members_shown(
            content,
            storyline::object_view(members),
            scalar_shown(made_by(seconds, real_number)),
        ),
        0 <= i < members.len(),
        forall|j: int| i < j < members.len() ==> (#[trigger] members[j]).key@ != members[i].key@,
    ensures
        content is Object,
        forall|key: Seq<char>| #[trigger]
            content->Object_0.contains_key(key) ==> exists|j: int|
                0 <= j < members.len() && (#[trigger] members[j]).key@ == key,
        content->Object_0.contains_key(members[i].key@),
        members[i].value matches Scalar::Integer(n) ==> content->Object_0[members[i].key@]
            == JsonView::Integer(n as int),
        members[i].value matches Scalar::Text(text) ==> content->Object_0[members[i].key@]
            == JsonView::Text(text@),
        members[i].value matches Scalar::Seconds(ms) ==> exists|value: Value|
            call_ensures(seconds, (ms,), value) && content->Object_0[members[i].key@]
                == #[trigger] json::json_content(value),
        members[i].value matches Scalar::Real(bits) ==> exists|value: Value|
            call_ensures(real_number, (bits,), value) && content->Object_0[members[i].key@]
                == #[trigger] json::json_content(value),
{
    let views = storyline::object_view(members);
    assert(views.len() == members.len());
    assert(views[i] == members[i]@);
    assert forall|j: int| i < j < views.len() implies (#[trigger] views[j]).0 != views[i].0 by {
        assert(views[j] == members[j]@);
        assert(members[j].key@ != members[i].key@);
    }
    assert(last_of_its_key(views, i));
    assert(keyed(views, views[i].0));
    assert(content->Object_0.contains_key(views[i].0));
    assert forall|key: Seq<char>| #[trigger] content->Object_0.contains_key(key) implies exists|
        j: int,
    |
        0 <= j < members.len() && (#[trigger] members[j]).key@ == key by {
        assert(keyed(views, key));
        let j = choose|j: int| 0 <= j < views.len() && (#[trigger] views[j]).0 == key;
        assert(views[j] == members[j]@);
        assert(members[j].key@ == key);
    }
    let shown = scalar_shown(made_by(seconds, real_number));
    assert(shown(json::member(content, views[i].0), views[i].1));
}

} // verus!
