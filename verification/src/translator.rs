//! The translation engine: what to ask Google Translate for, and what its
//! answer says.
use vstd::prelude::*;
use crate::config::Config;
use crate::json::{json_document, parse_json, JsonValue};
use crate::lang::{detect_target_lang, target_lang_for};
use crate::text::{text_eq, trim, trimmed};

verus! {

/// A finished translation.
#[derive(Debug, Clone)]
pub struct TranslationResult {
    /// The translated text.
    pub translated: String,
    /// The language code translated into (such as `"en"` or `"ja"`).
    pub target_lang: String,
}

/// Why a translation failed.
#[derive(Debug)]
pub enum TranslateError {
    /// The DeepL engine is chosen but no API key is set.
    DeeplKeyMissing,
    /// The DeepL engine is chosen; it is not implemented.
    DeeplNotImplemented,
    /// The request to the engine failed; the message says how.
    Request(String),
    /// The engine's answer is not JSON; the message says why.
    InvalidResponse(String),
    /// The engine's answer holds no translated text.
    NoTranslation,
}

/// The message shown for an error.
pub open spec fn error_message(e: TranslateError) -> Seq<char> {
    match e {
        TranslateError::DeeplKeyMissing =>
            "DeepL APIキーが未設定です。~/.quick-translate/config.json を編集してください"@,
        TranslateError::DeeplNotImplemented => "DeepL APIは未実装です。Google翻訳を使用してください"@,
        TranslateError::Request(m) => m@,
        TranslateError::InvalidResponse(m) => m@,
        TranslateError::NoTranslation => "翻訳結果を取得できませんでした"@,
    }
}

impl TranslateError {
    /// The message shown for this error.
    pub fn message(&self) -> (r: String)
        ensures
            r@ == error_message(*self),
    {
        match self {
            TranslateError::DeeplKeyMissing => String::from_str(
                "DeepL APIキーが未設定です。~/.quick-translate/config.json を編集してください",
            ),
            TranslateError::DeeplNotImplemented => String::from_str(
                "DeepL APIは未実装です。Google翻訳を使用してください",
            ),
            TranslateError::Request(m) => m.clone(),
            TranslateError::InvalidResponse(m) => m.clone(),
            TranslateError::NoTranslation => String::from_str("翻訳結果を取得できませんでした"),
        }
    }
}

/// The text of one sentence entry of a Google Translate answer: its first
/// element when that is a string, and nothing otherwise.
pub open spec fn sentence_text(v: JsonValue) -> Seq<char> {
    match v {
        JsonValue::Array(parts) => if parts@.len() > 0 {
            match parts@[0] {
                JsonValue::Str(s) => s@,
                _ => Seq::empty(),
            }
        } else {
            Seq::empty()
        },
        _ => Seq::empty(),
    }
}

/// The texts of the sentence entries, one after the other.
pub open spec fn sentences_text(sentences: Seq<JsonValue>) -> Seq<char>
    decreases sentences.len(),
{
    if sentences.len() == 0 {
        Seq::empty()
    } else {
        sentences_text(sentences.drop_last()) + sentence_text(sentences.last())
    }
}

/// The translated text in a Google Translate answer
/// (`[[["translated", "source", ...], ...], ...]`): the sentence entries of
/// the document's first element, joined.
pub open spec fn translation_text(doc: JsonValue) -> Seq<char> {
    match doc {
        JsonValue::Array(items) => if items@.len() > 0 {
            match items@[0] {
                JsonValue::Array(sentences) => sentences_text(sentences@),
                _ => Seq::empty(),
            }
        } else {
            Seq::empty()
        },
        _ => Seq::empty(),
    }
}

/// Law: the translated text is read from every sentence entry of the
/// answer's first element, in order. An answer whose first element holds no
/// entries has no text; one more entry at the end appends that entry's text,
/// which is the entry's first element where that is a string.
pub proof fn law_every_sentence_is_read(doc: JsonValue, longer: JsonValue, s: JsonValue)
    requires
        doc is Array && longer is Array,
        doc->Array_0@.len() > 0 && longer->Array_0@.len() > 0,
        doc->Array_0@[0] is Array && longer->Array_0@[0] is Array,
        longer->Array_0@[0]->Array_0@ == doc->Array_0@[0]->Array_0@.push(s),
    ensures
        translation_text(longer) == translation_text(doc) + sentence_text(s),
        doc->Array_0@[0]->Array_0@.len() == 0 ==> translation_text(doc).len() == 0
            && translation_text(longer) == sentence_text(s),
        (s is Array && s->Array_0@.len() > 0 && s->Array_0@[0] is Str) ==> sentence_text(s)
            == s->Array_0@[0]->Str_0@,
{
    let before = doc->Array_0@[0]->Array_0@;
    let after = longer->Array_0@[0]->Array_0@;
    assert(after.drop_last() =~= before);
    assert(after.last() == s);
    if before.len() == 0 {
        assert(translation_text(doc).len() == 0);
    }
}

fn sentence_text_of(v: &JsonValue) -> (r: &str)
    ensures
        r@ == sentence_text(*v),
{
    proof {
        reveal_strlit("");
    }
    match v {
        JsonValue::Array(parts) => {
            if parts.len() > 0 {
                match &parts[0] {
                    JsonValue::Str(s) => s.as_str(),
                    _ => "",
                }
            } else {
                ""
            }
        },
        _ => "",
    }
}

/// Reads the translated text out of a Google Translate answer; an answer
/// with no text is an error.
pub fn extract_translation(doc: &JsonValue) -> (r: Result<String, TranslateError>)
    ensures
        translation_text(*doc).len() > 0 ==> (r matches Ok(s) && s@ == translation_text(*doc)),
        translation_text(*doc).len() == 0 ==> r matches Err(TranslateError::NoTranslation),
{
    proof {
        reveal_strlit("");
    }
    let mut result = String::new();
    match doc {
        JsonValue::Array(items) => {
            if items.len() > 0 {
                match &items[0] {
                    JsonValue::Array(sentences) => {
                        let n = sentences.len();
                        let mut i: usize = 0;
                        while i < n
                            invariant
                                n == sentences@.len(),
                                i <= n,
                                result@ == sentences_text(sentences@.take(i as int)),
                            decreases n - i,
                        {
                            let t = sentence_text_of(&sentences[i]);
                            result.append(t);
                            proof {
                                assert(sentences@.take(i + 1).drop_last() =~= sentences@.take(
                                    i as int,
                                ));
                            }
                            i = i + 1;
                        }
                        assert(sentences@.take(n as int) =~= sentences@);
                    },
                    _ => {},
                }
            }
        },
        _ => {},
    }
    if result.as_str().is_empty() {
        Err(TranslateError::NoTranslation)
    } else {
        Ok(result)
    }
}

/// What a Google Translate answer body comes to: the translated text, or
/// why there is none.
pub fn read_google_response(body: &str) -> (r: Result<String, TranslateError>)
    ensures
        json_document(body@) is None ==> r matches Err(TranslateError::InvalidResponse(_)),
        json_document(body@) matches Some(doc) ==> {
            &&& translation_text(doc).len() > 0 ==> (r matches Ok(s) && s@ == translation_text(doc))
            &&& translation_text(doc).len() == 0 ==> r matches Err(TranslateError::NoTranslation)
        },
{
    match parse_json(body) {
        Ok(doc) => extract_translation(&doc),
        Err(e) => Err(TranslateError::InvalidResponse(e.to_string())),
    }
}

/// A request to Google Translate.
#[derive(Debug)]
pub struct GoogleRequest {
    /// The text to translate, trimmed.
    pub text: String,
    /// The language to translate into.
    pub target: String,
    /// The source language (`"auto"` to detect it).
    pub source: String,
}

/// The endpoint of Google Translate's free interface.
pub fn google_translate_url() -> (r: String)
    ensures
        r@ == "https://translate.googleapis.com/translate_a/single"@,
{
    String::from_str("https://translate.googleapis.com/translate_a/single")
}

/// The query of a request: `client=gtx`, the source language `sl`, the
/// target language `tl`, `dt=t` (ask for translated text) and the text `q`.
pub fn google_query(req: &GoogleRequest) -> (r: Vec<(String, String)>)
    ensures
        r@.len() == 5,
        r@[0].0@ == "client"@ && r@[0].1@ == "gtx"@,
        r@[1].0@ == "sl"@ && r@[1].1@ == req.source@,
        r@[2].0@ == "tl"@ && r@[2].1@ == req.target@,
        r@[3].0@ == "dt"@ && r@[3].1@ == "t"@,
        r@[4].0@ == "q"@ && r@[4].1@ == req.text@,
{
    let mut r: Vec<(String, String)> = Vec::new();
    r.push((String::from_str("client"), String::from_str("gtx")));
    r.push((String::from_str("sl"), req.source.clone()));
    r.push((String::from_str("tl"), req.target.clone()));
    r.push((String::from_str("dt"), String::from_str("t")));
    r.push((String::from_str("q"), req.text.clone()));
    r
}

/// Where a translation stands after the settings and the text are read:
/// finished without asking any engine, or waiting on Google Translate.
#[derive(Debug)]
pub enum TranslateStep {
    Done(Result<TranslationResult, TranslateError>),
    Fetch(GoogleRequest),
}

/// Translates `text` with the engine `config` names, as far as that can be
/// decided without the network. Text that is all white space translates to
/// empty text; the DeepL engine fails; otherwise the trimmed text is to be
/// sent to Google Translate, into the language its script calls for.
pub fn translate(text: &str, config: &Config) -> (r: TranslateStep)
    ensures
        trimmed(text@).len() == 0 ==> (r matches TranslateStep::Done(Ok(res))
            && res.translated@.len() == 0 && res.target_lang@.len() == 0),
        trimmed(text@).len() > 0 && config.engine@ == "deepl"@ ==> (r matches TranslateStep::Done(
            Err(e),
        ) && if config.deepl_api_key@.len() == 0 {
            e is DeeplKeyMissing
        } else {
            e is DeeplNotImplemented
        }),
        trimmed(text@).len() > 0 && config.engine@ != "deepl"@ ==> (r matches TranslateStep::Fetch(
            req,
        ) && req.text@ == trimmed(text@) && req.target@ == target_lang_for(trimmed(text@), *config)
            && req.source@ == config.source_lang@),
{
    let t = trim(text);
    if t.as_str().is_empty() {
        return TranslateStep::Done(
            Ok(TranslationResult { translated: String::new(), target_lang: String::new() }),
        );
    }
    let target = detect_target_lang(t.as_str(), config);
    if text_eq(config.engine.as_str(), "deepl") {
        if config.deepl_api_key.as_str().is_empty() {
            return TranslateStep::Done(Err(TranslateError::DeeplKeyMissing));
        }
        return TranslateStep::Done(Err(TranslateError::DeeplNotImplemented));
    }
    TranslateStep::Fetch(GoogleRequest { text: t, target, source: config.source_lang.clone() })
}

/// Finishes a Google Translate request with what the network gave back:
/// the answer body, or the message of the failed request.
pub fn finish_google(req: &GoogleRequest, fetched: Result<String, String>) -> (r: Result<
    TranslationResult,
    TranslateError,
>)
    ensures
        fetched matches Err(m) ==> (r matches Err(TranslateError::Request(m2)) && m2@ == m@),
        fetched matches Ok(body) ==> match json_document(body@) {
            None => r matches Err(TranslateError::InvalidResponse(_)),
            Some(doc) => if translation_text(doc).len() > 0 {
                (r matches Ok(res) && res.translated@ == translation_text(doc) && res.target_lang@
                    == req.target@)
            } else {
                r matches Err(TranslateError::NoTranslation)
            },
        },
{
    match fetched {
        Err(m) => Err(TranslateError::Request(m)),
        Ok(body) => match read_google_response(body.as_str()) {
            Ok(t) => Ok(TranslationResult { translated: t, target_lang: req.target.clone() }),
            Err(e) => Err(e),
        },
    }
}

} // verus!
