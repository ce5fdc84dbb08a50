use quick_translate::cli::{parse_args, popup_file_text, CliArgs, RunMode};
use quick_translate::config::{config_dir_in, config_file_in, resolve_loaded_config, Config};
use quick_translate::lang::{contains_japanese, detect_target_lang};
use quick_translate::text::{is_blank, lines, string_of, text_eq, trim};

fn lines_as_strings(s: &str) -> Vec<String> {
    let cs: Vec<char> = s.chars().collect();
    lines(&cs).iter().map(|l| string_of(l)).collect()
}

#[test]
fn default_config_matches_documented_file() {
    let c = Config::default();
    assert_eq!(c.engine, "google");
    assert_eq!(c.deepl_api_key, "");
    assert_eq!(c.source_lang, "auto");
    assert_eq!(c.target_lang_ja, "en");
    assert_eq!(c.target_lang_en, "ja");
    assert!(c.log_enabled);
    assert_eq!(c.hotkey_popup, "ctrl+shift+t");
    assert_eq!(c.hotkey_selected, "ctrl+shift+y");
}

#[test]
fn loaded_config_is_kept_and_missing_one_is_defaulted() {
    let mut parsed = Config::default();
    parsed.engine = "deepl".to_string();
    let kept = resolve_loaded_config(Some(parsed));
    assert_eq!(kept.config.engine, "deepl");
    assert!(!kept.save_defaults);
    let fresh = resolve_loaded_config(None);
    assert_eq!(fresh.config.engine, "google");
    assert!(fresh.save_defaults);
}

#[test]
fn config_paths_under_home() {
    let sep = std::path::MAIN_SEPARATOR;
    assert_eq!(config_dir_in("/home/alice"), format!("/home/alice{}.quick-translate", sep));
    assert_eq!(
        config_file_in("/home/alice"),
        format!("/home/alice{}.quick-translate{}config.json", sep, sep)
    );
    assert_eq!(config_file_in("/home/alice/"), format!("/home/alice/.quick-translate{}config.json", sep));
}

#[test]
fn trim_removes_unicode_white_space() {
    assert_eq!(trim("  a b \n"), "a b");
    assert_eq!(trim("\u{3000}翻訳\u{3000}"), "翻訳");
    assert_eq!(trim("\t\r\n "), "");
    assert_eq!(trim("x"), "x");
    assert_eq!(trim("\u{85}y\u{a0}"), "y");
    assert!(is_blank(" \u{2028} "));
    assert!(!is_blank(" . "));
}

#[test]
fn lines_split_like_str_lines() {
    assert_eq!(lines_as_strings("a\r\nb\n"), vec!["a", "b"]);
    assert_eq!(lines_as_strings("a\r"), vec!["a\r"]);
    assert_eq!(lines_as_strings(""), Vec::<String>::new());
    assert_eq!(lines_as_strings("\n"), vec![""]);
    assert_eq!(lines_as_strings("x\n\ny"), vec!["x", "", "y"]);
    for s in ["a\r\nb\n", "a\r", "", "\n", "x\n\ny", "\r\n\r\n", "tail"] {
        let expected: Vec<String> = s.lines().map(|l| l.to_string()).collect();
        assert_eq!(lines_as_strings(s), expected);
    }
}

#[test]
fn text_equality() {
    assert!(text_eq("--help", "--help"));
    assert!(!text_eq("--help", "--hel"));
    assert!(!text_eq("a", "b"));
}

#[test]
fn target_language_follows_script() {
    let c = Config::default();
    assert!(contains_japanese("これはペンです"));
    assert!(contains_japanese("漢字"));
    assert!(!contains_japanese("Hello, world"));
    assert_eq!(detect_target_lang("こんにちは", &c), "en");
    assert_eq!(detect_target_lang("カタカナ", &c), "en");
    assert_eq!(detect_target_lang("Hello", &c), "ja");
    assert_eq!(detect_target_lang("", &c), "ja");
}

fn args(v: &[&str]) -> Vec<String> {
    v.iter().map(|s| s.to_string()).collect()
}

#[test]
fn cli_reads_options_left_to_right() {
    let p = parse_args(&args(&["--translate", "Hello", "-e", "deepl", "--bogus", "-p"]));
    assert_eq!(p.args.translate_text.as_deref(), Some("Hello"));
    assert_eq!(p.args.engine.as_deref(), Some("deepl"));
    assert!(p.args.show_popup);
    assert_eq!(p.unknown, vec!["--bogus".to_string()]);
    assert!(!p.help);

    let p = parse_args(&args(&["-t", "a", "-t", "b", "--popup-file", "f.txt"]));
    assert_eq!(p.args.translate_text.as_deref(), Some("b"));
    assert_eq!(p.args.popup_file.as_deref(), Some("f.txt"));

    let p = parse_args(&args(&["--translate", "--popup"]));
    assert_eq!(p.args.translate_text.as_deref(), Some("--popup"));
    assert!(!p.args.show_popup);

    let p = parse_args(&args(&["--engine"]));
    assert!(p.args.engine.is_none());
    assert!(p.unknown.is_empty());
}

#[test]
fn cli_help_stops_reading() {
    let p = parse_args(&args(&["x", "-h", "-p", "y"]));
    assert!(p.help);
    assert!(!p.args.show_popup);
    assert_eq!(p.unknown, vec!["x".to_string()]);
}

#[test]
fn cli_run_mode_and_engine_override() {
    let a = CliArgs {
        translate_text: Some("t".to_string()),
        show_popup: true,
        popup_file: Some("f".to_string()),
        engine: Some("deepl".to_string()),
    };
    assert!(matches!(a.run_mode(), RunMode::Translate(ref t) if t == "t"));
    let b = CliArgs { translate_text: None, show_popup: false, popup_file: Some("f".to_string()), engine: None };
    assert!(matches!(b.run_mode(), RunMode::PopupFromFile(ref p) if p == "f"));
    let c = CliArgs { translate_text: None, show_popup: true, popup_file: None, engine: None };
    assert!(matches!(c.run_mode(), RunMode::Popup));

    let mut cfg = Config::default();
    a.apply_engine(&mut cfg);
    assert_eq!(cfg.engine, "deepl");
    assert_eq!(cfg.source_lang, "auto");
    b.apply_engine(&mut cfg);
    assert_eq!(cfg.engine, "deepl");
}

#[test]
fn popup_file_text_is_trimmed() {
    assert_eq!(popup_file_text(Some("  hello \n".to_string())), "hello");
    assert_eq!(popup_file_text(None), "");
}

#[test]
fn config_file_is_under_the_home_directory() {
    let expected = dirs::home_dir().map(|h| h.join(".quick-translate").join("config.json"));
    let got = quick_translate::config::config_file().map(std::path::PathBuf::from);
    assert_eq!(got, expected);
    let dir = quick_translate::config::config_dir().map(std::path::PathBuf::from);
    assert_eq!(dir, dirs::home_dir().map(|h| h.join(".quick-translate")));
}
