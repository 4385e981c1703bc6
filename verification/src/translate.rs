//! Translation of text by the MyMemory service, reached through `curl`: the
//! request, and what its answer means.

use crate::text;
use crate::text::push_decimal;
use vstd::prelude::*;

verus! {

/// The program that sends the request.
pub const TRANSLATE_PROGRAM: &'static str = "curl";

/// The text that `String::from_utf8_lossy` reads from bytes.
pub uninterp spec fn utf8_lossy(bytes: Seq<u8>) -> Seq<char>;

/// `String::from_utf8_lossy`: a function of the bytes, and where they are valid
/// UTF-8 the text that they encode.
#[verifier::external_body]
fn from_utf8_lossy(bytes: &[u8]) -> (text: String)
    ensures
        text@ == utf8_lossy(bytes@),
        vstd::utf8::valid_utf8(bytes@) ==> text@ == vstd::utf8::decode_utf8(bytes@),
{
    String::from_utf8_lossy(bytes).into_owned()
}

/// The arguments of the program for a translation.
pub open spec fn translate_arguments(
    text: Seq<char>,
    from_lang: Seq<char>,
    to_lang: Seq<char>,
) -> Seq<Seq<char>> {
    seq![
        "-s"@,
        "-G"@,
        "--data-urlencode"@,
        "q="@ + text,
        "--data-urlencode"@,
        "langpair="@ + (from_lang + "|"@ + to_lang),
        "https://api.mymemory.translated.net/get"@,
    ]
}

/// The arguments of the program for a translation; blank text is refused.
pub fn translate_request(text: &str, from_lang: &str, to_lang: &str) -> (arguments: Result<
    Vec<String>,
    String,
>)
    ensures
        match arguments {
            Ok(arguments) => !text::blank(text@) && text::texts(arguments@) == translate_arguments(
                text@,
                from_lang@,
                to_lang@,
            ),
            Err(message) => text::blank(text@) && message@ == "Text cannot be empty"@,
        },
{
    proof {
        text::law_trimmed(text@);
    }
    if text.trim().is_empty() {
        return Err("Text cannot be empty".to_owned());
    }
    let langpair: String = from_lang.to_owned().concat("|").concat(to_lang);
    let mut arguments: Vec<String> = Vec::new();
    arguments.push("-s".to_owned());
    arguments.push("-G".to_owned());
    arguments.push("--data-urlencode".to_owned());
    arguments.push("q=".to_owned().concat(text));
    arguments.push("--data-urlencode".to_owned());
    arguments.push("langpair=".to_owned().concat(langpair.as_str()));
    arguments.push("https://api.mymemory.translated.net/get".to_owned());
    assert(text::texts(arguments@) =~= translate_arguments(text@, from_lang@, to_lang@));
    Ok(arguments)
}

/// The error where the program could not be started.
pub fn spawn_failed(reason: &str) -> (message: String)
    ensures
        message@ == "Failed to spawn curl: "@ + reason@,
{
    "Failed to spawn curl: ".to_owned().concat(reason)
}

/// The JSON text that the program printed, or, where it failed, the message
/// that describes the failure.
pub fn translate_output(success: bool, failure: String, stdout: &[u8]) -> (json: Result<
    String,
    String,
>)
    ensures
        match json {
            Ok(json) => success && json@ == utf8_lossy(stdout@) && (vstd::utf8::valid_utf8(stdout@)
                ==> json@ == vstd::utf8::decode_utf8(stdout@)),
            Err(message) => !success && message@ == failure@,
        },
{
    if !success {
        return Err(failure);
    }
    Ok(from_utf8_lossy(stdout))
}

/// The error where the answer is not the JSON that it should be.
pub fn response_unreadable(reason: &str) -> (message: String)
    ensures
        message@ == "Failed to parse translation response: "@ + reason@,
{
    "Failed to parse translation response: ".to_owned().concat(reason)
}

/// The data of an answer.
#[derive(Debug)]
pub struct ResponseData {
    pub translated_text: Option<String>,
}

/// An answer of the service.
#[derive(Debug)]
pub struct MyMemoryResponse {
    pub response_data: Option<ResponseData>,
    pub response_status: Option<i32>,
}

/// How an optional number is written in a message.
pub open spec fn status_text(status: Option<i32>) -> Seq<char> {
    match status {
        Some(code) => "Some("@ + text::decimal(code as int) + ")"@,
        None => "None"@,
    }
}

/// The translation in an answer, if the answer has one.
pub open spec fn translation_of(response: MyMemoryResponse) -> Option<Seq<char>> {
    match response.response_data {
        Some(data) => match data.translated_text {
            Some(text) => Some(text@),
            None => None,
        },
        None => None,
    }
}

/// What an answer means: with the status 200 the translation, which must be
/// there; any other status, or none, is an error.
pub fn translate_response(response: MyMemoryResponse) -> (translation: Result<String, String>)
    ensures
        match translation {
            Ok(text) => response.response_status == Some(200i32) && translation_of(response)
                == Some(text@),
            Err(message) => if response.response_status != Some(200i32) {
                message@ == "Translation API error: status "@ + status_text(
                    response.response_status,
                )
            } else {
                translation_of(response) is None && message@ == "No translation returned"@
            },
        },
{
    let mut status: String = "None".to_owned();
    let mut accepted: bool = false;
    if let Some(code) = response.response_status {
        accepted = code == 200;
        status = "Some(".to_owned();
        push_decimal(&mut status, code as i64);
        status = status.concat(")");
    }
    if !accepted {
        return Err("Translation API error: status ".to_owned().concat(status.as_str()));
    }
    match response.response_data {
        Some(data) => match data.translated_text {
            Some(text) => Ok(text),
            None => Err("No translation returned".to_owned()),
        },
        None => Err("No translation returned".to_owned()),
    }
}

/// The request hands over the text behind `q=`, and behind `langpair=` the source
/// language, a bar and the target language, each as it was given, and goes to the
/// service by `GET` and silently.
pub proof fn law_request_tells_text_and_languages(
    arguments: Seq<String>,
    text: Seq<char>,
    from_lang: Seq<char>,
    to_lang: Seq<char>,
)
    requires
        text::texts(arguments) == translate_arguments(text, from_lang, to_lang),
    ensures
        arguments.len() == 7,
        arguments[0]@ == "-s"@,
        arguments[1]@ == "-G"@,
        arguments[2]@ == "--data-urlencode"@,
        arguments[3]@ == "q="@ + text,
        arguments[4]@ == "--data-urlencode"@,
        arguments[5]@ == "langpair="@ + from_lang + "|"@ + to_lang,
        arguments[6]@ == "https://api.mymemory.translated.net/get"@,
{
    let all = text::texts(arguments);
    assert(all.len() == arguments.len());
    assert(all[0] == arguments[0]@ && all[1] == arguments[1]@ && all[2] == arguments[2]@);
    assert(all[3] == arguments[3]@ && all[4] == arguments[4]@ && all[5] == arguments[5]@);
    assert(all[6] == arguments[6]@);
    assert("langpair="@ + (from_lang + "|"@ + to_lang) =~= "langpair="@ + from_lang + "|"@
        + to_lang);
}

/// Of the language pair the part in front of the bar is the source language and
/// the part behind it the target language; the text is what stands behind `q=`.
pub proof fn law_language_pair_has_a_direction(
    arguments: Seq<String>,
    text: Seq<char>,
    from_lang: Seq<char>,
    to_lang: Seq<char>,
)
    requires
        text::texts(arguments) == translate_arguments(text, from_lang, to_lang),
    ensures
        arguments[3]@.skip(2) == text,
        arguments[5]@.subrange(9, 9 + from_lang.len() as int) == from_lang,
        arguments[5]@[9 + from_lang.len() as int] == '|',
        arguments[5]@.skip(10 + from_lang.len() as int) == to_lang,
{
    law_request_tells_text_and_languages(arguments, text, from_lang, to_lang);
    reveal_strlit("q=");
    reveal_strlit("langpair=");
    reveal_strlit("|");
    assert(arguments[3]@.skip(2) =~= text);
    let pair = arguments[5]@;
    assert(pair.subrange(9, 9 + from_lang.len() as int) =~= from_lang);
    assert(pair.skip(10 + from_lang.len() as int) =~= to_lang);
}

/// An answer has a translation exactly where it has data and the data has a
/// text, and then that text is the translation.
pub proof fn law_translation_is_the_text_of_the_data(response: MyMemoryResponse)
    ensures
        response.response_data is None ==> translation_of(response) is None,
        response.response_data matches Some(data) ==> {
            &&& data.translated_text is None ==> translation_of(response) is None
            &&& data.translated_text matches Some(text) ==> translation_of(response) == Some(text@)
        },
{
}

/// A status is written as `Some`, with the number in brackets, and no status as
/// `None`.
pub proof fn law_status_is_told(status: Option<i32>)
    ensures
        status is None ==> status_text(status) == "None"@,
        status matches Some(code) ==> status_text(status) == "Some("@ + text::decimal(code as int)
            + ")"@,
{
}

/// The request is sent by `curl`.
pub proof fn law_request_is_sent_by_curl()
    ensures
        TRANSLATE_PROGRAM@ == "curl"@,
{
}

} // verus!
