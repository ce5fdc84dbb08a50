use quick_translate::config::Config;
use quick_translate::json::JsonValue;
use quick_translate::translator::{
    extract_translation, finish_google, google_query, google_translate_url, read_google_response,
    translate, GoogleRequest, TranslateError, TranslateStep,
};

#[test]
fn google_answer_is_read() {
    let body = r#"[[["Hello","こんにちは",null,null,10]],null,"ja"]"#;
    assert_eq!(read_google_response(body).unwrap(), "Hello");
}

#[test]
fn google_sentences_are_joined_in_order() {
    let body = r#"[[["One. ","一。"],["Two.","二。"],[null],[5,"x"]],null,"ja"]"#;
    assert_eq!(read_google_response(body).unwrap(), "One. Two.");
}

#[test]
fn google_answer_without_text_is_an_error() {
    assert!(matches!(read_google_response("[]"), Err(TranslateError::NoTranslation)));
    assert!(matches!(read_google_response(r#"[[["",""]]]"#), Err(TranslateError::NoTranslation)));
    assert!(matches!(read_google_response(r#"{"a":1}"#), Err(TranslateError::NoTranslation)));
    assert!(matches!(read_google_response("not json"), Err(TranslateError::InvalidResponse(_))));
}

#[test]
fn extraction_reads_the_first_element() {
    let doc = JsonValue::Array(vec![JsonValue::Array(vec![
        JsonValue::Array(vec![JsonValue::Str("a".to_string())]),
        JsonValue::Array(vec![JsonValue::Str("b".to_string()), JsonValue::Null]),
        JsonValue::Str("ignored".to_string()),
    ])]);
    assert_eq!(extract_translation(&doc).unwrap(), "ab");
    assert!(matches!(extract_translation(&JsonValue::Null), Err(TranslateError::NoTranslation)));
}

#[test]
fn blank_text_is_not_translated() {
    let c = Config::default();
    match translate("   \n", &c) {
        TranslateStep::Done(Ok(r)) => {
            assert_eq!(r.translated, "");
            assert_eq!(r.target_lang, "");
        }
        other => panic!("unexpected {:?}", other),
    }
}

#[test]
fn deepl_engine_fails() {
    let mut c = Config::default();
    c.engine = "deepl".to_string();
    match translate("Hello", &c) {
        TranslateStep::Done(Err(e)) => {
            assert!(matches!(e, TranslateError::DeeplKeyMissing));
            assert_eq!(e.message(), "DeepL APIキーが未設定です。~/.quick-translate/config.json を編集してください");
        }
        other => panic!("unexpected {:?}", other),
    }
    c.deepl_api_key = "my-api-key".to_string();
    match translate("Hello", &c) {
        TranslateStep::Done(Err(e)) => {
            assert!(matches!(e, TranslateError::DeeplNotImplemented));
            assert_eq!(e.message(), "DeepL APIは未実装です。Google翻訳を使用してください");
        }
        other => panic!("unexpected {:?}", other),
    }
}

#[test]
fn google_request_is_prepared() {
    let c = Config::default();
    match translate("  こんにちは  ", &c) {
        TranslateStep::Fetch(req) => {
            assert_eq!(req.text, "こんにちは");
            assert_eq!(req.target, "en");
            assert_eq!(req.source, "auto");
            let q = google_query(&req);
            let q: Vec<(&str, &str)> = q.iter().map(|(a, b)| (a.as_str(), b.as_str())).collect();
            assert_eq!(
                q,
                vec![("client", "gtx"), ("sl", "auto"), ("tl", "en"), ("dt", "t"), ("q", "こんにちは")]
            );
        }
        other => panic!("unexpected {:?}", other),
    }
    assert_eq!(google_translate_url(), "https://translate.googleapis.com/translate_a/single");
}

#[test]
fn finishing_a_request() {
    let req = GoogleRequest { text: "Hello".to_string(), target: "ja".to_string(), source: "auto".to_string() };
    let r = finish_google(&req, Ok(r#"[[["こんにちは","Hello"]]]"#.to_string())).unwrap();
    assert_eq!(r.translated, "こんにちは");
    assert_eq!(r.target_lang, "ja");
    match finish_google(&req, Err("timed out".to_string())) {
        Err(TranslateError::Request(m)) => assert_eq!(m, "timed out"),
        other => panic!("unexpected {:?}", other),
    }
    let e = finish_google(&req, Ok("[]".to_string())).unwrap_err();
    assert_eq!(e.message(), "翻訳結果を取得できませんでした");
}
