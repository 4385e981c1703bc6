//! Batches of speech to synthesize: their limits, and what the cache already
//! holds.

use crate::db::Db;
use crate::db::DbState;
use crate::rows::F32Bits;
use crate::rows::TtsCacheRow;
use crate::table;
use crate::text;
use crate::text::push_numeral;
use vstd::prelude::*;

verus! {

/// How many pieces of a batch are synthesized at the same time, if nothing else
/// is asked for.
pub const DEFAULT_MAX_CONCURRENCY: usize = 3;

/// How often a piece that failed is tried again, if nothing else is asked for.
pub const DEFAULT_MAX_RETRIES: usize = 2;

/// What is to be spoken.
#[derive(Debug)]
pub enum SpeechContent {
    /// Plain text.
    Text(String),
    /// Speech markup.
    Ssml(String),
}

/// A piece of speech to synthesize.
#[derive(Debug)]
pub struct SpeechRequest {
    pub content: SpeechContent,
    pub voice: String,
    pub speed: F32Bits,
    pub format: String,
    pub backend: String,
}

/// All that decides how a piece of speech sounds.
pub struct SpeechRequestView {
    pub markup: bool,
    pub content: Seq<char>,
    pub voice: Seq<char>,
    pub speed: u32,
    pub format: Seq<char>,
    pub backend: Seq<char>,
}

impl View for SpeechRequest {
    type V = SpeechRequestView;

    open spec fn view(&self) -> SpeechRequestView {
        SpeechRequestView {
            markup: self.content is Ssml,
            content: match self.content {
                SpeechContent::Text(text) => text@,
                SpeechContent::Ssml(text) => text@,
            },
            voice: self.voice@,
            speed: self.speed.0,
            format: self.format@,
            backend: self.backend@,
        }
    }
}

/// A text with its length in front.
pub open spec fn measured(part: Seq<char>) -> Seq<char> {
    text::numeral(part.len(), 10) + seq![':'] + part
}

/// The key under which a piece of speech is cached.
pub open spec fn speech_key(request: SpeechRequestView) -> Seq<char> {
    (if request.markup {
        "ssml:"@
    } else {
        "text:"@
    }) + (measured(request.content) + (measured(request.voice) + (measured(request.format) + (
    measured(request.backend) + text::numeral(request.speed as nat, 16)))))
}

fn push_measured(out: &mut String, part: &str)
    ensures
        final(out)@ == old(out)@ + measured(part@),
{
    let ghost before = out@;
    proof {
        reveal_strlit(":");
    }
    let length: usize = part.unicode_len();
    push_numeral(out, length as u64, 10);
    out.append(":");
    out.append(part);
    assert(out@ =~= before + measured(part@));
}

/// The key under which a piece of speech is cached.
pub fn tts_cache_key(request: &SpeechRequest) -> (key: String)
    ensures
        key@ == speech_key(request@),
{
    let mut key: String = match &request.content {
        SpeechContent::Text(_) => "text:".to_owned(),
        SpeechContent::Ssml(_) => "ssml:".to_owned(),
    };
    match &request.content {
        SpeechContent::Text(content) => push_measured(&mut key, content.as_str()),
        SpeechContent::Ssml(content) => push_measured(&mut key, content.as_str()),
    }
    push_measured(&mut key, request.voice.as_str());
    push_measured(&mut key, request.format.as_str());
    push_measured(&mut key, request.backend.as_str());
    push_numeral(&mut key, request.speed.0 as u64, 16);
    assert(key@ =~= speech_key(request@));
    key
}

/// What is known of a batch before anything is synthesized.
#[derive(Debug)]
pub struct BatchPlan {
    pub max_concurrency: usize,
    pub max_retries: usize,
    /// The cache key of each piece.
    pub keys: Vec<String>,
    /// The cache entry of each piece, where there is one.
    pub cached: Vec<Option<TtsCacheRow>>,
}

/// The cache entry for a piece of speech, if there is one.
pub open spec fn cached_speech(state: DbState, request: SpeechRequestView) -> Option<TtsCacheRow> {
    table::lookup(state.tts_cache, speech_key(request))
}

/// Plans a batch: fills in the limits that were not asked for, and finds the
/// pieces that the cache already holds.
pub fn plan_batch(
    db: &Db,
    requests: &[SpeechRequest],
    max_concurrency: Option<usize>,
    max_retries: Option<usize>,
) -> (plan: BatchPlan)
    requires
        db@.wf(),
    ensures
        plan.max_concurrency == (match max_concurrency {
            Some(n) => n,
            None => DEFAULT_MAX_CONCURRENCY,
        }),
        plan.max_retries == (match max_retries {
            Some(n) => n,
            None => DEFAULT_MAX_RETRIES,
        }),
        plan.keys@.len() == requests@.len(),
        plan.cached@.len() == requests@.len(),
        forall|i: int|
            0 <= i < requests@.len() ==> (#[trigger] plan.keys@[i])@ == speech_key(requests@[i]@),
        forall|i: int|
            0 <= i < requests@.len() ==> #[trigger] plan.cached@[i] == cached_speech(
                db@,
                requests@[i]@,
            ),
        forall|i: int, k: int|
            #![trigger plan.cached@[i], db@.tts_cache[k]]
            0 <= i < requests@.len() && 0 <= k < db@.tts_cache.len()
                && db@.tts_cache[k].cache_key@ == plan.keys@[i]@ ==> plan.cached@[i] == Some(
                db@.tts_cache[k],
            ),
{
    let mut keys: Vec<String> = Vec::new();
    let mut cached: Vec<Option<TtsCacheRow>> = Vec::new();
    let mut i: usize = 0;
    while i < requests.len()
        invariant
            i <= requests@.len(),
            db@.wf(),
            keys@.len() == i,
            cached@.len() == i,
            forall|j: int| 0 <= j < i ==> (#[trigger] keys@[j])@ == speech_key(requests@[j]@),
            forall|j: int|
                0 <= j < i ==> #[trigger] cached@[j] == cached_speech(db@, requests@[j]@),
        decreases requests@.len() - i,
    {
        let key: String = tts_cache_key(&requests[i]);
        match db.lookup_tts_cache(key.as_str()) {
            Ok(entry) => {
                cached.push(entry);
            },
            Err(_) => {
                cached.push(None);
            },
        }
        keys.push(key);
        i = i + 1;
    }
    assert forall|j: int, k: int|
        #![trigger cached@[j], db@.tts_cache[k]]
        0 <= j < requests@.len() && 0 <= k < db@.tts_cache.len() && db@.tts_cache[k].cache_key@
            == keys@[j]@ implies cached@[j] == Some(db@.tts_cache[k]) by {
        table::lemma_position(db@.tts_cache, k);
    }
    BatchPlan {
        max_concurrency: match max_concurrency {
            Some(n) => n,
            None => DEFAULT_MAX_CONCURRENCY,
        },
        max_retries: match max_retries {
            Some(n) => n,
            None => DEFAULT_MAX_RETRIES,
        },
        keys,
        cached,
    }
}

/// The places, in order, of the pieces that the cache does not hold.
pub open spec fn missing(cached: Seq<Option<TtsCacheRow>>) -> Seq<usize>
    decreases cached.len(),
{
    if cached.len() == 0 {
        Seq::empty()
    } else {
        let earlier = missing(cached.drop_last());
        if cached.last() is None {
            earlier.push((cached.len() - 1) as usize)
        } else {
            earlier
        }
    }
}

/// The places of all rounds, one after the other.
pub open spec fn joined(rounds: Seq<Vec<usize>>) -> Seq<usize>
    decreases rounds.len(),
{
    if rounds.len() == 0 {
        Seq::empty()
    } else {
        joined(rounds.drop_last()) + rounds.last()@
    }
}

/// How many pieces a round has at most: at least one.
pub open spec fn round_limit(plan: BatchPlan) -> int {
    if plan.max_concurrency == 0 {
        1
    } else {
        plan.max_concurrency as int
    }
}

/// Divides the pieces that the cache does not hold into rounds, in their order.
/// The pieces of a round are synthesized at the same time; every round but the
/// last is as large as the limit allows.
pub fn batch_rounds(plan: &BatchPlan) -> (rounds: Vec<Vec<usize>>)
    ensures
        joined(rounds@) == missing(plan.cached@),
        forall|r: int|
            0 <= r < rounds@.len() ==> 1 <= (#[trigger] rounds@[r])@.len() <= round_limit(*plan),
        forall|r: int|
            0 <= r < rounds@.len() - 1 ==> (#[trigger] rounds@[r])@.len() == round_limit(*plan),
{
    let limit: usize = if plan.max_concurrency == 0 {
        1
    } else {
        plan.max_concurrency
    };
    let mut rounds: Vec<Vec<usize>> = Vec::new();
    let mut round: Vec<usize> = Vec::new();
    let mut i: usize = 0;
    assert(joined(rounds@) + round@ =~= missing(plan.cached@.take(0)));
    while i < plan.cached.len()
        invariant
            i <= plan.cached@.len(),
            limit == round_limit(*plan),
            limit >= 1,
            round@.len() <= limit,
            round@.len() == 0 ==> rounds@.len() == 0,
            forall|r: int| 0 <= r < rounds@.len() ==> (#[trigger] rounds@[r])@.len() == limit,
            joined(rounds@) + round@ == missing(plan.cached@.take(i as int)),
        decreases plan.cached@.len() - i,
    {
        assert(plan.cached@.take(i + 1).drop_last() =~= plan.cached@.take(i as int));
        assert(plan.cached@.take(i + 1).last() == plan.cached@[i as int]);
        if plan.cached[i].is_none() {
            let ghost so_far = joined(rounds@) + round@;
            if round.len() == limit {
                let ghost before = rounds@;
                rounds.push(round);
                assert(rounds@.drop_last() =~= before);
                round = Vec::new();
                assert(joined(rounds@) + round@ =~= so_far);
            }
            round.push(i);
            assert(joined(rounds@) + round@ =~= so_far.push(i));
        }
        i = i + 1;
    }
    assert(plan.cached@.take(i as int) =~= plan.cached@);
    if round.len() > 0 {
        let ghost before = rounds@;
        rounds.push(round);
        assert(rounds@.drop_last() =~= before);
    } else {
        assert(joined(rounds@) + round@ =~= joined(rounds@));
    }
    rounds
}

/// Whether a piece that failed so many times is tried again.
pub fn tries_again(plan: &BatchPlan, failures: usize) -> (again: bool)
    ensures
        again == (failures <= plan.max_retries),
{
    failures <= plan.max_retries
}

/// The rounds of a batch hold each piece that is not in the cache once, in
/// order, and no other.
pub proof fn law_missing_pieces(cached: Seq<Option<TtsCacheRow>>)
    requires
        cached.len() <= usize::MAX,
    ensures
        forall|i: int|
            0 <= i < cached.len() ==> ((#[trigger] cached[i]) is None <==> missing(cached).contains(
                i as usize,
            )),
        forall|k: int|
            0 <= k < missing(cached).len() ==> (#[trigger] missing(cached)[k]) < cached.len(),
        forall|k: int, l: int|
            #![trigger missing(cached)[k], missing(cached)[l]]
            0 <= k < l < missing(cached).len() ==> missing(cached)[k] < missing(cached)[l],
    decreases cached.len(),
{
    if cached.len() > 0 {
        let init = cached.drop_last();
        let places = missing(cached);
        let earlier = missing(init);
        law_missing_pieces(init);
        if cached.last() is None {
            assert(places == earlier.push((cached.len() - 1) as usize));
            assert(places[earlier.len() as int] == (cached.len() - 1) as usize);
        }
        assert forall|i: int| 0 <= i < cached.len() implies ((#[trigger] cached[i]) is None
            <==> places.contains(i as usize)) by {
            if i < init.len() {
                assert(init[i] == cached[i]);
                if earlier.contains(i as usize) {
                    let k = earlier.index_of(i as usize);
                    assert(places[k] == i as usize);
                }
                if places.contains(i as usize) {
                    let k = places.index_of(i as usize);
                    assert(earlier[k] == i as usize);
                }
            } else if places.contains(i as usize) && cached[i] is Some {
                let k = places.index_of(i as usize);
                assert(earlier[k] < init.len());
            }
        }
    }
}

proof fn lemma_no_colon(n: nat, i: int)
    requires
        0 <= i < text::numeral(n, 10).len(),
    ensures
        text::numeral(n, 10)[i] != ':',
{
    text::lemma_numeral_digits(n, 10, i);
    let d = choose|d: int|
        0 <= d < 10 && text::numeral(n, 10)[i] == #[trigger] text::digit_char(d);
    text::lemma_digit_char_order(d, d);
}

/// Texts with their length in front can be told apart, whatever follows.
proof fn lemma_measured(a: Seq<char>, rest_a: Seq<char>, b: Seq<char>, rest_b: Seq<char>)
    requires
        measured(a) + rest_a == measured(b) + rest_b,
    ensures
        a == b,
        rest_a == rest_b,
{
    let x = measured(a) + rest_a;
    let y = measured(b) + rest_b;
    let na = text::numeral(a.len(), 10);
    let nb = text::numeral(b.len(), 10);
    assert(x[na.len() as int] == ':');
    assert(y[nb.len() as int] == ':');
    if na.len() < nb.len() {
        lemma_no_colon(b.len(), na.len() as int);
        assert(y[na.len() as int] == nb[na.len() as int]);
    } else if nb.len() < na.len() {
        lemma_no_colon(a.len(), nb.len() as int);
        assert(x[nb.len() as int] == na[nb.len() as int]);
    }
    assert(x.take(na.len() as int) =~= na);
    assert(y.take(nb.len() as int) =~= nb);
    text::lemma_numeral_injective(a.len(), b.len(), 10);
    let start = na.len() as int + 1;
    let end = start + a.len() as int;
    assert(x.subrange(start, end) =~= a);
    assert(y.subrange(start, end) =~= b);
    assert(x.skip(end) =~= rest_a);
    assert(y.skip(end) =~= rest_b);
}

/// Two pieces of speech share a cache key exactly if text or markup, voice,
/// speed, format and backend are all the same.
pub proof fn law_same_key_same_speech(a: SpeechRequestView, b: SpeechRequestView)
    ensures
        speech_key(a) == speech_key(b) <==> a == b,
{
    if speech_key(a) == speech_key(b) {
        reveal_strlit("ssml:");
        reveal_strlit("text:");
        let x = speech_key(a);
        let y = speech_key(b);
        assert(x[0] == y[0]);
        assert(a.markup == b.markup);
        let a4 = text::numeral(a.speed as nat, 16);
        let b4 = text::numeral(b.speed as nat, 16);
        let a3 = measured(a.backend) + a4;
        let b3 = measured(b.backend) + b4;
        let a2 = measured(a.format) + a3;
        let b2 = measured(b.format) + b3;
        let a1 = measured(a.voice) + a2;
        let b1 = measured(b.voice) + b2;
        assert(x.skip(5) =~= measured(a.content) + a1);
        assert(y.skip(5) =~= measured(b.content) + b1);
        lemma_measured(a.content, a1, b.content, b1);
        lemma_measured(a.voice, a2, b.voice, b2);
        lemma_measured(a.format, a3, b.format, b3);
        lemma_measured(a.backend, a4, b.backend, b4);
        text::lemma_numeral_injective(a.speed as nat, b.speed as nat, 16);
    }
}

/// Speech that was stored under its key is found by every request for the same
/// speech, and by no other request that did not find something before.
pub proof fn law_stored_speech_is_found(
    state: DbState,
    row: TtsCacheRow,
    stored: SpeechRequestView,
    wanted: SpeechRequestView,
)
    requires
        state.wf(),
        row.cache_key@ == speech_key(stored),
    ensures
        wanted == stored ==> (cached_speech(state.with_tts(row), wanted) matches Some(found)
            && found.audio_path == row.audio_path),
        wanted != stored ==> cached_speech(state.with_tts(row), wanted) == cached_speech(
            state,
            wanted,
        ),
{
    crate::db::law_tts_upsert_then_lookup(state, row);
    law_same_key_same_speech(stored, wanted);
}

/// The plan of a batch hands back, for each piece, the very row of the cache that
/// stands under the key of the piece, and nothing only where no row has that key.
pub proof fn law_plan_hands_back_cached_rows(
    state: DbState,
    requests: Seq<SpeechRequest>,
    plan: BatchPlan,
    i: int,
)
    requires
        state.wf(),
        0 <= i < requests.len(),
        plan.keys@.len() == requests.len(),
        plan.cached@.len() == requests.len(),
        plan.keys@[i]@ == speech_key(requests[i]@),
        plan.cached@[i] == cached_speech(state, requests[i]@),
    ensures
        plan.cached@[i] matches Some(row) ==> row.cache_key@ == plan.keys@[i]@ && exists|k: int|
            0 <= k < state.tts_cache.len() && #[trigger] state.tts_cache[k] == row,
        forall|k: int|
            0 <= k < state.tts_cache.len() && (#[trigger] state.tts_cache[k]).cache_key@
                == plan.keys@[i]@ ==> plan.cached@[i] == Some(state.tts_cache[k]),
        plan.cached@[i] is None <==> forall|k: int|
            0 <= k < state.tts_cache.len() ==> (#[trigger] state.tts_cache[k]).cache_key@
                != plan.keys@[i]@,
{
    let key = plan.keys@[i]@;
    if table::has_key(state.tts_cache, key) {
        let p = table::position(state.tts_cache, key);
        assert(state.tts_cache[p].cache_key@ == key);
    }
    assert forall|k: int|
        0 <= k < state.tts_cache.len() && (#[trigger] state.tts_cache[k]).cache_key@
            == key implies plan.cached@[i] == Some(state.tts_cache[k]) by {
        table::lemma_position(state.tts_cache, k);
    }
}

/// Speech that is stored under its key for the first time is found as the whole
/// row that was stored; stored again it is found as the new row, but for the time
/// of creation, which stays, and the number of its uses, which is one higher.
pub proof fn law_stored_speech_is_found_whole(
    state: DbState,
    row: TtsCacheRow,
    request: SpeechRequestView,
)
    requires
        state.wf(),
        row.cache_key@ == speech_key(request),
    ensures
        cached_speech(state, request) is None ==> cached_speech(state.with_tts(row), request)
            == Some(row),
        cached_speech(state, request) matches Some(existing) ==> cached_speech(
            state.with_tts(row),
            request,
        ) == Some(
            TtsCacheRow {
                created_at: existing.created_at,
                access_count: if existing.access_count < i64::MAX {
                    (existing.access_count + 1) as i64
                } else {
                    i64::MAX
                },
                ..row
            },
        ),
{
    crate::db::law_tts_upsert_then_lookup(state, row);
}

/// A batch without limits of its own has three pieces at the same time and two
/// more tries for a piece that failed.
pub proof fn law_default_limits()
    ensures
        DEFAULT_MAX_CONCURRENCY == 3,
        DEFAULT_MAX_RETRIES == 2,
{
}

/// A round has as many pieces as asked for; where none were asked for, one.
pub proof fn law_round_limit(plan: BatchPlan)
    ensures
        plan.max_concurrency > 0 ==> round_limit(plan) == plan.max_concurrency,
        plan.max_concurrency == 0 ==> round_limit(plan) == 1,
{
}

proof fn lemma_joined_contains(rounds: Seq<Vec<usize>>, place: usize)
    ensures
        joined(rounds).contains(place) <==> exists|r: int|
            0 <= r < rounds.len() && (#[trigger] rounds[r])@.contains(place),
    decreases rounds.len(),
{
    if rounds.len() > 0 {
        let init = rounds.drop_last();
        let last = rounds.last()@;
        lemma_joined_contains(init, place);
        let all = joined(init) + last;
        if joined(init).contains(place) {
            let k = joined(init).index_of(place);
            assert(all[k] == place);
            let r = choose|r: int| 0 <= r < init.len() && (#[trigger] init[r])@.contains(place);
            assert(rounds[r]@.contains(place));
        }
        if last.contains(place) {
            let k = last.index_of(place);
            assert(all[joined(init).len() + k] == place);
            assert(rounds[rounds.len() - 1]@.contains(place));
        }
        if all.contains(place) {
            let k = all.index_of(place);
            if k < joined(init).len() {
                assert(joined(init)[k] == place);
            } else {
                assert(last[k - joined(init).len()] == place);
            }
        }
        if exists|r: int| 0 <= r < rounds.len() && (#[trigger] rounds[r])@.contains(place) {
            let r = choose|r: int| 0 <= r < rounds.len() && (#[trigger] rounds[r])@.contains(place);
            if r < init.len() {
                assert(init[r] == rounds[r]);
            }
        }
    }
}

proof fn lemma_joined_length(rounds: Seq<Vec<usize>>, k: int)
    requires
        0 <= k <= rounds.len(),
    ensures
        joined(rounds.take(k)).len() <= joined(rounds).len(),
        joined(rounds).take(joined(rounds.take(k)).len() as int) == joined(rounds.take(k)),
    decreases rounds.len(),
{
    if k == rounds.len() {
        assert(rounds.take(k) =~= rounds);
        assert(joined(rounds).take(joined(rounds).len() as int) =~= joined(rounds));
    } else {
        let init = rounds.drop_last();
        lemma_joined_length(init, k);
        assert(init.take(k) =~= rounds.take(k));
        let n = joined(rounds.take(k)).len() as int;
        assert(joined(rounds).take(n) =~= joined(init).take(n));
    }
}

/// Every piece that the cache does not hold is in some round, no other piece is,
/// and from the first place of the first round to the last place of the last one
/// the pieces come in their order, so that none comes twice.
pub proof fn law_rounds_hold_the_missing_pieces(
    cached: Seq<Option<TtsCacheRow>>,
    rounds: Seq<Vec<usize>>,
)
    requires
        cached.len() <= usize::MAX,
        joined(rounds) == missing(cached),
    ensures
        forall|i: int|
            #![trigger cached[i]]
            0 <= i < cached.len() ==> (cached[i] is None <==> exists|r: int|
                0 <= r < rounds.len() && (#[trigger] rounds[r])@.contains(i as usize)),
        forall|r: int, k: int|
            #![trigger rounds[r]@[k]]
            0 <= r < rounds.len() && 0 <= k < rounds[r]@.len() ==> rounds[r]@[k] < cached.len(),
        forall|r: int, k: int, q: int, l: int|
            #![trigger rounds[r]@[k], rounds[q]@[l]]
            0 <= r <= q < rounds.len() && 0 <= k < rounds[r]@.len() && 0 <= l < rounds[q]@.len()
                && (r < q || k < l) ==> rounds[r]@[k] < rounds[q]@[l],
{
    law_missing_pieces(cached);
    let all = joined(rounds);
    assert forall|i: int| #![trigger cached[i]] 0 <= i < cached.len() implies (cached[i] is None
        <==> exists|r: int|
        0 <= r < rounds.len() && (#[trigger] rounds[r])@.contains(i as usize)) by {
        lemma_joined_contains(rounds, i as usize);
    }
    assert forall|r: int, k: int|
        #![trigger rounds[r]@[k]]
        0 <= r < rounds.len() && 0 <= k < rounds[r]@.len() implies rounds[r]@[k] < cached.len() by {
        lemma_place_in_joined(rounds, r, k);
    }
    assert forall|r: int, k: int, q: int, l: int|
        #![trigger rounds[r]@[k], rounds[q]@[l]]
        0 <= r <= q < rounds.len() && 0 <= k < rounds[r]@.len() && 0 <= l < rounds[q]@.len() && (r
            < q || k < l) implies rounds[r]@[k] < rounds[q]@[l] by {
        lemma_place_in_joined(rounds, r, k);
        lemma_place_in_joined(rounds, q, l);
        if r < q {
            lemma_joined_length(rounds.take(q), r + 1);
            assert(rounds.take(q).take(r + 1) =~= rounds.take(r + 1));
            assert(rounds.take(r + 1).drop_last() =~= rounds.take(r));
        }
        let x = joined(rounds.take(r)).len() + k;
        let y = joined(rounds.take(q)).len() + l;
        assert(missing(cached)[x] < missing(cached)[y]);
    }
}

proof fn lemma_place_in_joined(rounds: Seq<Vec<usize>>, r: int, k: int)
    requires
        0 <= r < rounds.len(),
        0 <= k < rounds[r]@.len(),
    ensures
        joined(rounds.take(r)).len() + k < joined(rounds).len(),
        joined(rounds)[joined(rounds.take(r)).len() + k] == rounds[r]@[k],
{
    lemma_joined_length(rounds, r + 1);
    let upto = rounds.take(r + 1);
    assert(upto.drop_last() =~= rounds.take(r));
    assert(upto.last() == rounds[r]);
    let n = joined(rounds.take(r)).len() + k;
    assert(joined(upto)[n] == rounds[r]@[k]);
    assert(joined(rounds).take(joined(upto).len() as int)[n] == joined(upto)[n]);
}

/// The keys of two requests are the same exactly if both are text or both are
/// markup, and content, voice, speed, format and backend are each the same.
pub proof fn law_same_key_same_request(
    a: SpeechRequest,
    b: SpeechRequest,
    key_a: String,
    key_b: String,
)
    requires
        key_a@ == speech_key(a@),
        key_b@ == speech_key(b@),
    ensures
        key_a@ == key_b@ <==> {
            &&& match (a.content, b.content) {
                (SpeechContent::Text(x), SpeechContent::Text(y)) => x@ == y@,
                (SpeechContent::Ssml(x), SpeechContent::Ssml(y)) => x@ == y@,
                _ => false,
            }
            &&& a.voice@ == b.voice@
            &&& a.speed.0 == b.speed.0
            &&& a.format@ == b.format@
            &&& a.backend@ == b.backend@
        },
{
    law_same_key_same_speech(a@, b@);
}

} // verus!
