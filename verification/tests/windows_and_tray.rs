use quick_translate::clipboard::{
    accept_copied_text, clipboard_marker, keep_polling, key_state_pressed, may_attempt_copy,
    modifier_wait_step, ModifierWait,
};
use quick_translate::instance::{mutex_name_utf16, InstanceLock};
use quick_translate::popup::{
    acquire_popup_instance_lock, consume_popup_request, count_wrapped_lines,
    is_current_process_foreground, japanese_font_candidates, popup_lock_name, split_result_content,
    wants_pending_request, FrameAction, TranslatePopup, ResultPoll, ResultPopup,
};
use quick_translate::translator::TranslationResult;
use quick_translate::tray::{
    acquire_tray_instance_lock, icon_rgba, tray_lock_name, Hotkey, MenuChoice, TrayAction, TrayState,
};

#[test]
fn mutex_names_are_utf16_with_terminator() {
    assert_eq!(mutex_name_utf16("A😀"), vec![0x41, 0xD83D, 0xDE00, 0]);
    let name = popup_lock_name();
    let mut expected: Vec<u16> = name.encode_utf16().collect();
    expected.push(0);
    assert_eq!(mutex_name_utf16(&name), expected);
    assert_eq!(tray_lock_name(), "QuickTranslateTraySingleton");
}

#[test]
fn instance_locks() {
    assert!(matches!(acquire_popup_instance_lock(true, false), InstanceLock::Unavailable));
    assert!(matches!(acquire_popup_instance_lock(false, true), InstanceLock::AlreadyRunning));
    assert!(matches!(acquire_popup_instance_lock(false, false), InstanceLock::Held));
    assert!(matches!(acquire_tray_instance_lock(false, true), InstanceLock::AlreadyRunning));
    assert!(matches!(acquire_tray_instance_lock(false, false), InstanceLock::Held));
}

#[test]
fn foreground_window() {
    assert!(is_current_process_foreground(false, 7, 7));
    assert!(!is_current_process_foreground(false, 7, 8));
    assert!(!is_current_process_foreground(true, 7, 7));
}

#[test]
fn popup_requests() {
    assert_eq!(consume_popup_request(Some("  text \n".to_string())).as_deref(), Some("text"));
    assert_eq!(consume_popup_request(Some(" \n ".to_string())), None);
    assert_eq!(consume_popup_request(None), None);
    assert!(wants_pending_request("  "));
    assert!(!wants_pending_request("x"));
}

#[test]
fn font_candidates_in_order() {
    let f = japanese_font_candidates();
    assert_eq!(f[0], r"C:\Windows\Fonts\meiryo.ttc");
    assert_eq!(f[3], r"C:\Windows\Fonts\msmincho.ttc");
}

#[test]
fn wrapped_lines() {
    assert_eq!(count_wrapped_lines("", 40), 0);
    assert_eq!(count_wrapped_lines("  \n ", 40), 0);
    assert_eq!(count_wrapped_lines("abc", 40), 1);
    assert_eq!(count_wrapped_lines("abcdefghijklmnopqrst", 8), 3);
    assert_eq!(count_wrapped_lines("abcdefghi", 3), 2);
    assert_eq!(count_wrapped_lines("a\n\nb", 10), 3);
    assert_eq!(count_wrapped_lines("12345678", 8), 1);
    assert_eq!(count_wrapped_lines("123456789", 8), 2);
}

#[test]
fn result_file_split() {
    let (t, o) = split_result_content("訳文\n---\n原文");
    assert_eq!(t, "訳文");
    assert_eq!(o, "原文");
    let (t, o) = split_result_content("\nA\n\nB\n  ---  \nC\n---\nD");
    assert_eq!(t, "A\n\nB");
    assert_eq!(o, "C\nD");
    let (t, o) = split_result_content("only");
    assert_eq!(t, "only");
    assert_eq!(o, "");
}

#[test]
fn popup_translates_initial_text_at_once() {
    let mut p = TranslatePopup::new("google".to_string(), "Hello".to_string(), None, 1000);
    assert_eq!(p.input_text(), "Hello");
    assert!(p.needs_repaint());
    assert!(p.take_focus_request());
    assert!(!p.take_focus_request());
    let job = p.debounce(1000);
    assert_eq!(job.as_deref(), Some("Hello"));
    assert!(p.is_translating());
    assert_eq!(p.result_text(), "翻訳中...");
    assert!(matches!(p.on_keys(false, true), FrameAction::Continue));
    p.receive_result(ResultPoll::Pending);
    assert!(p.is_translating());
    p.receive_result(ResultPoll::Translated(TranslationResult {
        translated: "こんにちは".to_string(),
        target_lang: "ja".to_string(),
    }));
    assert!(!p.is_translating());
    assert_eq!(p.result_text(), "こんにちは");
    match p.on_keys(false, true) {
        FrameAction::CopyAndClose(t) => assert_eq!(t, "こんにちは"),
        other => panic!("unexpected {:?}", other),
    }
    assert!(matches!(p.on_keys(true, true), FrameAction::Close));
}

#[test]
fn popup_takes_pending_request_when_opened_blank() {
    let p = TranslatePopup::new("google".to_string(), " ".to_string(), Some(" req \n".to_string()), 5);
    assert_eq!(p.input_text(), "req");
    let p = TranslatePopup::new("google".to_string(), "".to_string(), None, 5);
    assert_eq!(p.input_text(), "");
    assert!(!p.needs_repaint());
}

#[test]
fn popup_debounce_waits_for_quiet() {
    let mut p = TranslatePopup::new("google".to_string(), String::new(), None, 0);
    p.edit_input("Hi".to_string(), 100);
    assert_eq!(p.debounce(499), None);
    assert_eq!(p.debounce(500).as_deref(), Some("Hi"));
    p.edit_input("Hi there".to_string(), 600);
    assert_eq!(p.debounce(2000), None);
    p.receive_result(ResultPoll::Failed("boom".to_string()));
    assert_eq!(p.result_text(), "エラー: boom");
    assert_eq!(p.debounce(2000).as_deref(), Some("Hi there"));
    p.receive_result(ResultPoll::Disconnected);
    assert_eq!(p.result_text(), "翻訳スレッドが予期せず終了しました");
    p.edit_input("   ".to_string(), 3000);
    assert_eq!(p.debounce(3400), None);
    assert_eq!(p.result_text(), "");
    assert!(!p.needs_repaint());
}

#[test]
fn popup_external_requests() {
    let mut p = TranslatePopup::new("google".to_string(), "same".to_string(), None, 0);
    assert!(p.take_focus_request());
    assert!(p.poll_request_due(0));
    assert!(!p.poll_request_due(79));
    assert!(p.poll_request_due(80));
    assert_eq!(p.apply_external_request(Some(" same ".to_string())), None);
    assert_eq!(p.apply_external_request(None), None);
    assert!(!p.take_focus_request());
    assert_eq!(p.apply_external_request(Some("other\n".to_string())).as_deref(), Some("other"));
    assert_eq!(p.input_text(), "other");
    assert!(p.take_focus_request());
    assert_eq!(p.result_text(), "翻訳中...");
}

#[test]
fn popup_focus_rule() {
    let mut p = TranslatePopup::new("google".to_string(), String::new(), None, 1000);
    assert!(!p.check_focus(false, 2000));
    assert!(p.check_focus(false, 2501));
    let mut p = TranslatePopup::new("google".to_string(), String::new(), None, 1000);
    assert!(!p.check_focus(true, 1001));
    assert!(p.check_focus(false, 1002));
}

#[test]
fn result_popup() {
    let mut r = ResultPopup::new("訳".to_string(), "原".to_string(), 0);
    assert_eq!(r.translated(), "訳");
    assert_eq!(r.original(), "原");
    assert!(matches!(r.on_keys(false, false), FrameAction::Continue));
    assert!(matches!(r.on_keys(true, true), FrameAction::Close));
    match r.on_keys(false, true) {
        FrameAction::CopyAndClose(t) => assert_eq!(t, "訳"),
        other => panic!("unexpected {:?}", other),
    }
    assert!(!r.check_focus(false, 1500));
    assert!(r.check_focus(false, 1501));
}

#[test]
fn tray_icon_is_a_t() {
    let rgba = icon_rgba();
    assert_eq!(rgba.len(), 1024);
    let px = |x: usize, y: usize| &rgba[(y * 16 + x) * 4..(y * 16 + x) * 4 + 4];
    assert_eq!(px(2, 2), &[100, 149, 237, 255]);
    assert_eq!(px(13, 4), &[100, 149, 237, 255]);
    assert_eq!(px(7, 13), &[100, 149, 237, 255]);
    assert_eq!(px(0, 0), &[0, 0, 0, 0]);
    assert_eq!(px(2, 5), &[0, 0, 0, 0]);
    assert_eq!(px(14, 2), &[0, 0, 0, 0]);
    let colored = (0..256).filter(|p| rgba[p * 4 + 3] == 255).count();
    assert_eq!(colored, 3 * 12 + 9 * 4);
}

#[test]
fn tray_hotkeys_ignore_bounces() {
    let mut t = TrayState::new();
    assert!(matches!(t.on_hotkey(Hotkey::Popup, 1000), TrayAction::OpenPopup));
    assert!(matches!(t.on_hotkey(Hotkey::Selection, 1299), TrayAction::Ignore));
    assert!(matches!(t.on_hotkey(Hotkey::Selection, 1300), TrayAction::TranslateSelection));
    assert!(matches!(t.on_hotkey(Hotkey::Other, 5000), TrayAction::Ignore));
    assert_eq!(t.last_hotkey_ms, Some(5000));
    assert!(matches!(t.on_menu(MenuChoice::Quit), TrayAction::Quit));
    assert!(matches!(t.on_menu(MenuChoice::OpenPopup), TrayAction::OpenPopup));
}

#[test]
fn clipboard_decisions() {
    assert!(key_state_pressed(i16::MIN));
    assert!(key_state_pressed(-1));
    assert!(!key_state_pressed(1));
    assert!(!key_state_pressed(0));
    assert!(matches!(modifier_wait_step(false, 5000), ModifierWait::Released));
    assert!(matches!(modifier_wait_step(true, 1001), ModifierWait::TimedOut));
    assert!(matches!(modifier_wait_step(true, 1000), ModifierWait::Wait));
    assert!(may_attempt_copy(2));
    assert!(!may_attempt_copy(3));
    assert!(keep_polling(1199));
    assert!(!keep_polling(1200));
    let m = clipboard_marker(12, 345);
    assert_eq!(m, "__QT_MARKER_12_345__");
    assert_eq!(clipboard_marker(0, u128::MAX), format!("__QT_MARKER_0_{}__", u128::MAX));
    assert_eq!(accept_copied_text(Some(format!(" {} ", m)), &m), None);
    assert_eq!(accept_copied_text(Some("  ".to_string()), &m), None);
    assert_eq!(accept_copied_text(Some(" sel \n".to_string()), &m).as_deref(), Some("sel"));
    assert_eq!(accept_copied_text(None, &m), None);
}

use quick_translate::popup::{line_count, live_popup_width_chars, longest_line_chars, result_window_metrics};

#[test]
fn line_measures() {
    assert_eq!(longest_line_chars(""), None);
    assert_eq!(longest_line_chars("ab\nあいう\nc"), Some(3));
    assert_eq!(line_count("a\nb\n"), 2);
    assert_eq!(line_count(""), 0);
}

#[test]
fn live_popup_width() {
    assert_eq!(live_popup_width_chars("", ""), 24);
    assert_eq!(live_popup_width_chars(&"x".repeat(100), ""), 60);
    assert_eq!(live_popup_width_chars(&"x".repeat(30), " "), 30);
    assert_eq!(live_popup_width_chars("", "short"), 28);
    assert_eq!(live_popup_width_chars("", &"あ".repeat(100)), 48);
    assert_eq!(live_popup_width_chars("", &"a ".repeat(50)), 66);
}

#[test]
fn result_window_measures() {
    let m = result_window_metrics("訳\n二行目", "");
    assert_eq!(m.max_chars, 3);
    assert_eq!(m.translated_lines, 2);
    assert_eq!(m.original_lines, 1);
    let m = result_window_metrics("", "");
    assert_eq!(m.max_chars, 0);
}

use quick_translate::clipboard::{CopyAction, CopyEvent, CopySession};

fn finish_of(a: CopyAction) -> (Option<String>, Option<String>) {
    match a {
        CopyAction::Finish { restore, copied } => (restore, copied),
        other => panic!("unexpected {:?}", other),
    }
}

#[test]
fn copy_session_finds_the_selection() {
    let mut s = CopySession::new(Some("old".to_string()), "M".to_string());
    assert!(matches!(s.step(CopyEvent::Begin), CopyAction::PlaceMarker(ref m) if m == "M"));
    assert!(matches!(s.step(CopyEvent::MarkerPlaced), CopyAction::Wait(30)));
    assert!(matches!(s.step(CopyEvent::Waited(30)), CopyAction::SendCopyKeys));
    assert!(matches!(s.step(CopyEvent::KeysSent(100)), CopyAction::ReadClipboard));
    assert!(matches!(s.step(CopyEvent::ClipboardRead(Some(" M ".to_string()), 101)), CopyAction::Wait(30)));
    assert!(matches!(s.step(CopyEvent::Waited(131)), CopyAction::ReadClipboard));
    let (restore, copied) = finish_of(s.step(CopyEvent::ClipboardRead(Some(" sel ".to_string()), 132)));
    assert_eq!(restore.as_deref(), Some("old"));
    assert_eq!(copied.as_deref(), Some("sel"));
}

#[test]
fn copy_session_gives_up_after_three_attempts() {
    let mut s = CopySession::new(None, "M".to_string());
    s.step(CopyEvent::Begin);
    s.step(CopyEvent::MarkerPlaced);
    let mut t = 0u64;
    for attempt in 1..=3u32 {
        assert!(matches!(s.step(CopyEvent::Waited(t)), CopyAction::SendCopyKeys));
        assert_eq!(s.attempts_made, attempt);
        assert!(matches!(s.step(CopyEvent::KeysSent(t)), CopyAction::ReadClipboard));
        assert!(matches!(s.step(CopyEvent::ClipboardRead(None, t)), CopyAction::Wait(30)));
        assert!(matches!(s.step(CopyEvent::Waited(t + 1199)), CopyAction::ReadClipboard));
        assert!(matches!(s.step(CopyEvent::ClipboardRead(Some("M".to_string()), t + 1199)), CopyAction::Wait(30)));
        assert!(matches!(s.step(CopyEvent::Waited(t + 1200)), CopyAction::Wait(50)));
        t += 1250;
    }
    let (restore, copied) = finish_of(s.step(CopyEvent::Waited(t)));
    assert_eq!(restore, None);
    assert_eq!(copied, None);
}

#[test]
fn copy_session_out_of_order_event_finishes() {
    let mut s = CopySession::new(Some("old".to_string()), "M".to_string());
    let (restore, copied) = finish_of(s.step(CopyEvent::KeysSent(0)));
    assert_eq!(restore.as_deref(), Some("old"));
    assert_eq!(copied, None);
}
