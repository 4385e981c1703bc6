//! What a project is meant to become, and its JSON text.

use crate::error::DbResult;
use crate::json;
use crate::json::sqlx_err;
use crate::json::write_member;
use crate::json::JsonView;
use serde_json::Error;
use vstd::prelude::*;

verus! {

/// The kind of content that a project makes.
#[derive(Debug, Clone, Copy, PartialEq, Eq, Structural)]
pub enum ContentIntent {
    ShortDrama,
    MovieReview,
}

/// The configuration of a project's intent.
#[derive(Debug, Clone, Copy, PartialEq, Eq, Structural)]
pub struct IntentConfig {
    pub intent: ContentIntent,
}

/// The name of an intent in JSON text.
pub open spec fn intent_name(intent: ContentIntent) -> Seq<char> {
    match intent {
        ContentIntent::ShortDrama => "short-drama"@,
        ContentIntent::MovieReview => "movie-review"@,
    }
}

/// The JSON text of a configuration.
pub open spec fn intent_text(config: IntentConfig) -> Seq<char> {
    json::member_text("intent"@, intent_name(config.intent))
}

/// Whether `reader` may read a text so.
pub open spec fn may_read<P: Fn(&str) -> Result<IntentConfig, Error>>(
    reader: P,
    text: Seq<char>,
    read: Result<IntentConfig, Error>,
) -> bool {
    exists|s: &str| s@ == text && #[trigger] call_ensures(reader, (s,), read)
}

/// Whether `reader` gives back what `intent_to_json` writes.
pub open spec fn gives_back<P: Fn(&str) -> Result<IntentConfig, Error>>(reader: P) -> bool {
    forall|config: IntentConfig, read: Result<IntentConfig, Error>| #[trigger]
        may_read(reader, intent_text(config), read) ==> read == Result::<IntentConfig, Error>::Ok(
            config,
        )
}

/// The default configuration for an intent.
pub fn intent_default_config(intent: ContentIntent) -> (config: IntentConfig)
    ensures
        config == (IntentConfig { intent }),
{
    IntentConfig { intent }
}

/// The configuration of a project that was given none.
pub open spec fn default_intent() -> IntentConfig {
    IntentConfig { intent: ContentIntent::ShortDrama }
}

/// The configuration of a project that was given none.
pub fn default_intent_config() -> (config: IntentConfig)
    ensures
        config == default_intent(),
{
    intent_default_config(ContentIntent::ShortDrama)
}

/// Writes a configuration as JSON text: an object that holds the name of the
/// intent under `intent`.
pub fn intent_to_json(config: &IntentConfig) -> (text: DbResult<String>)
    ensures
        text matches Ok(text) && text@ == intent_text(*config) && (json::json_parsed(
            text@,
        ) matches Ok(value) && json::json_content(value) == JsonView::Object(
            map!["intent"@ => JsonView::Text(intent_name(config.intent))],
        )),
{
    proof {
        reveal_strlit("intent");
        reveal_strlit("short-drama");
        reveal_strlit("movie-review");
    }
    let name: &str = match config.intent {
        ContentIntent::ShortDrama => "short-drama",
        ContentIntent::MovieReview => "movie-review",
    };
    match write_member("intent", name) {
        Ok(text) => Ok(text),
        Err(e) => Err(sqlx_err(e)),
    }
}

/// Different configurations are written as different texts, so that a reader
/// can give back each of them.
pub proof fn law_intent_texts_differ(a: IntentConfig, b: IntentConfig)
    ensures
        intent_text(a) == intent_text(b) <==> a == b,
{
    reveal_strlit("short-drama");
    reveal_strlit("movie-review");
    if a != b {
        assert(intent_text(a).len() != intent_text(b).len());
    }
}

/// The text of a configuration is an object with one member, `intent`, which is
/// `short-drama` or `movie-review`.
pub proof fn law_intent_texts(config: IntentConfig)
    ensures
        config.intent is ShortDrama ==> intent_text(config) == "{\"intent\":\"short-drama\"}"@,
        config.intent is MovieReview ==> intent_text(config) == "{\"intent\":\"movie-review\"}"@,
{
    reveal_strlit("intent");
    reveal_strlit("short-drama");
    reveal_strlit("movie-review");
    reveal_strlit("{\"intent\":\"short-drama\"}");
    reveal_strlit("{\"intent\":\"movie-review\"}");
    assert(config.intent is ShortDrama ==> intent_text(config)
        =~= "{\"intent\":\"short-drama\"}"@);
    assert(config.intent is MovieReview ==> intent_text(config)
        =~= "{\"intent\":\"movie-review\"}"@);
}

/// A project that was given no intent is a short drama.
pub proof fn law_default_intent()
    ensures
        default_intent().intent is ShortDrama,
{
}

/// A text may be read so exactly if the reader can answer so when it is handed
/// that text; and a reader gives back what is written exactly if it answers each
/// text of a configuration with that configuration and nothing else.
pub proof fn law_reading_asks_the_reader<P: Fn(&str) -> Result<IntentConfig, Error>>(
    reader: P,
    text: Seq<char>,
    read: Result<IntentConfig, Error>,
)
    ensures
        may_read(reader, text, read) <==> exists|s: &str|
            s@ == text && #[trigger] call_ensures(reader, (s,), read),
        gives_back(reader) <==> forall|
            s: &str,
            config: IntentConfig,
            answer: Result<IntentConfig, Error>,
        |
            #![trigger call_ensures(reader, (s,), answer), intent_text(config)]
            s@ == intent_text(config) && call_ensures(reader, (s,), answer) ==> answer == Result::<
                IntentConfig,
                Error,
            >::Ok(config),
{
    if gives_back(reader) {
        assert forall|s: &str, config: IntentConfig, answer: Result<IntentConfig, Error>|
            #![trigger call_ensures(reader, (s,), answer), intent_text(config)]
            s@ == intent_text(config) && call_ensures(reader, (s,), answer) implies answer
            == Result::<IntentConfig, Error>::Ok(config) by {
            assert(may_read(reader, intent_text(config), answer));
        }
    }
}

} // verus!
