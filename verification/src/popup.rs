//! The translation pop-up: its state from frame to frame, the pop-up that
//! shows a finished translation, and the text measures that size them.
use vstd::prelude::*;
use crate::instance::{instance_lock_outcome, InstanceLock};
use crate::text::{
    is_blank, is_visible_stretch, lemma_newline_index, lemma_trimmed_idempotent,
    lemma_trimmed_is_visible_stretch, lines, lines_of, string_of, text_eq, trim, trimmed, views_of,
    newline_index, strip_cr,
};
use crate::translator::TranslationResult;

verus! {

/// Milliseconds of quiet after the last edit before a translation starts.
pub const DEBOUNCE_MS: u64 = 400;

/// Milliseconds between two looks at the request file.
pub const REQUEST_POLL_MS: u64 = 80;

/// Milliseconds a pop-up waits for focus before it closes.
pub const FOCUS_GRACE_MS: u64 = 1500;

/// The result line shown while a translation runs.
pub open spec fn translating_text() -> Seq<char> {
    "翻訳中..."@
}

/// The result line shown when the translation thread ended without an answer.
pub open spec fn thread_lost_text() -> Seq<char> {
    "翻訳スレッドが予期せず終了しました"@
}

/// The result line shown for a failed translation.
pub open spec fn error_text(message: Seq<char>) -> Seq<char> {
    "エラー: "@ + message
}

/// Milliseconds from `since` to `now` on a clock that does not go back.
pub open spec fn elapsed_ms(now: u64, since: u64) -> int {
    if now >= since {
        now - since
    } else {
        0
    }
}

/// The name of the pop-up's single-instance mutex.
pub fn popup_lock_name() -> (r: String)
    ensures
        r@ == "QuickTranslatePopupSingleton"@,
{
    String::from_str("QuickTranslatePopupSingleton")
}

/// Decides the pop-up's single-instance lock from the outcome of creating
/// its mutex: a second pop-up gives way to the first.
pub fn acquire_popup_instance_lock(handle_is_null: bool, already_exists: bool) -> (r:
    InstanceLock)
    ensures
        handle_is_null ==> r is Unavailable,
        !handle_is_null && already_exists ==> r is AlreadyRunning,
        !handle_is_null && !already_exists ==> r is Held,
{
    instance_lock_outcome(handle_is_null, already_exists)
}

/// Whether the foreground window belongs to this process, given the
/// foreground window (or none) and the process ids.
pub fn is_current_process_foreground(window_is_null: bool, window_pid: u32, current_pid: u32) -> (r:
    bool)
    ensures
        r == (!window_is_null && window_pid == current_pid),
{
    !window_is_null && window_pid == current_pid
}

/// What was read from the request file, when it was read: its trimmed text,
/// unless that is empty.
pub open spec fn request_text(read: Option<Seq<char>>) -> Option<Seq<char>> {
    match read {
        Some(t) => if trimmed(t).len() == 0 {
            None
        } else {
            Some(trimmed(t))
        },
        None => None,
    }
}

/// Takes a translation request from what the request file held (`None`
/// when it could not be read): the trimmed text, or nothing if it is blank.
pub fn consume_popup_request(read: Option<String>) -> (r: Option<String>)
    ensures
        match read {
            Some(t) => if trimmed(t@).len() == 0 {
                r is None
            } else {
                r matches Some(x) && x@ == trimmed(t@)
            },
            None => r is None,
        },
{
    match read {
        Some(t) => {
            let x = trim(t.as_str());
            if x.as_str().is_empty() {
                None
            } else {
                Some(x)
            }
        },
        None => None,
    }
}

/// The Japanese fonts tried for the pop-up, in order of preference.
pub fn japanese_font_candidates() -> (r: Vec<String>)
    ensures
        r@.len() == 4,
        r@[0]@ == "C:\\Windows\\Fonts\\meiryo.ttc"@,
        r@[1]@ == "C:\\Windows\\Fonts\\YuGothM.ttc"@,
        r@[2]@ == "C:\\Windows\\Fonts\\msgothic.ttc"@,
        r@[3]@ == "C:\\Windows\\Fonts\\msmincho.ttc"@,
{
    let mut r: Vec<String> = Vec::new();
    r.push(String::from_str("C:\\Windows\\Fonts\\meiryo.ttc"));
    r.push(String::from_str("C:\\Windows\\Fonts\\YuGothM.ttc"));
    r.push(String::from_str("C:\\Windows\\Fonts\\msgothic.ttc"));
    r.push(String::from_str("C:\\Windows\\Fonts\\msmincho.ttc"));
    r
}

/// Law: a request is taken already trimmed, so taking it again gives it
/// back unchanged.
pub proof fn law_request_text_is_stable(read: Seq<char>)
    ensures
        request_text(Some(read)) matches Some(t) ==> request_text(Some(t)) == Some(t),
{
    lemma_trimmed_idempotent(read);
}

/// What a frame of a pop-up ends with.
#[derive(Debug)]
pub enum FrameAction {
    /// Keep the window open.
    Continue,
    /// Close the window.
    Close,
    /// Copy the text to the clipboard and close the window.
    CopyAndClose(String),
}

/// The focus rule of both pop-ups, as `(had focus, close)`: focus is
/// remembered; without focus, a window that had it, or that has waited
/// longer than the grace time for it, closes.
pub open spec fn focus_rule(had_focus: bool, focused: bool, created_at: u64, now: u64) -> (
    bool,
    bool,
) {
    if focused {
        (true, false)
    } else {
        (had_focus, had_focus || elapsed_ms(now, created_at) > FOCUS_GRACE_MS)
    }
}

/// Law: a window that has had focus closes as soon as it loses it.
pub proof fn law_focus_lost_closes(had_focus: bool, created_at: u64, t1: u64, t2: u64)
    ensures
        ({
            let after_focus = focus_rule(had_focus, true, created_at, t1).0;
            focus_rule(after_focus, false, created_at, t2).1
        }),
{
}

/// Law: a window that never gets focus stays open through the grace time
/// and closes after it.
pub proof fn law_focus_grace(created_at: u64, now: u64)
    requires
        now >= created_at,
    ensures
        focus_rule(false, false, created_at, now).1 <==> now - created_at > FOCUS_GRACE_MS,
{
}

fn focus_step(had_focus: bool, focused: bool, created_at: u64, now: u64) -> (r: (bool, bool))
    ensures
        r == focus_rule(had_focus, focused, created_at, now),
{
    if focused {
        (true, false)
    } else {
        let waited = if now >= created_at {
            now - created_at
        } else {
            0
        };
        (had_focus, had_focus || waited > FOCUS_GRACE_MS)
    }
}

/// The state of the input pop-up, seen as plain values.
pub struct PopupView {
    /// The engine named in the header.
    pub engine: Seq<char>,
    /// The text typed or received.
    pub input: Seq<char>,
    /// The result line.
    pub result: Seq<char>,
    /// When a translation is due after the last edit (`None`: none pending).
    pub translate_due: Option<u64>,
    /// A translation is running and its answer is awaited.
    pub translating: bool,
    /// The input field still has to be focused.
    pub first_frame: bool,
    /// The window has had focus.
    pub had_focus: bool,
    /// When the request file is next due to be read.
    pub next_poll: u64,
    /// When the window was created.
    pub created_at: u64,
}

/// The state of the input pop-up. Times are milliseconds on a clock of the
/// caller's that does not go back. While a translation runs, the result line
/// shows the running placeholder.
#[derive(Debug)]
pub struct TranslatePopup {
    engine: String,
    input_text: String,
    result_text: String,
    translate_due_ms: Option<u64>,
    is_translating: bool,
    first_frame: bool,
    had_focus: bool,
    next_request_poll_ms: u64,
    created_at_ms: u64,
}

impl View for TranslatePopup {
    type V = PopupView;

    closed spec fn view(&self) -> PopupView {
        PopupView {
            engine: self.engine@,
            input: self.input_text@,
            result: self.result_text@,
            translate_due: self.translate_due_ms,
            translating: self.is_translating,
            first_frame: self.first_frame,
            had_focus: self.had_focus,
            next_poll: self.next_request_poll_ms,
            created_at: self.created_at_ms,
        }
    }
}

/// The time `DEBOUNCE_MS` after `t`, or the clock's end.
pub open spec fn after_debounce(t: u64) -> u64 {
    if t as int + DEBOUNCE_MS <= u64::MAX {
        (t + DEBOUNCE_MS) as u64
    } else {
        u64::MAX
    }
}

/// The time `REQUEST_POLL_MS` after `t`, or the clock's end.
pub open spec fn after_poll_interval(t: u64) -> u64 {
    if t as int + REQUEST_POLL_MS <= u64::MAX {
        (t + REQUEST_POLL_MS) as u64
    } else {
        u64::MAX
    }
}

/// The text a new pop-up starts with: the text it was opened with, or,
/// when that is blank, the pending request (or nothing).
pub open spec fn initial_input(initial: Seq<char>, pending: Option<Seq<char>>) -> Seq<char> {
    if trimmed(initial).len() == 0 {
        match request_text(pending) {
            Some(t) => t,
            None => Seq::empty(),
        }
    } else {
        initial
    }
}

/// Whether a pop-up opened with `initial_text` looks for a pending request.
pub fn wants_pending_request(initial_text: &str) -> (r: bool)
    ensures
        r == (trimmed(initial_text@).len() == 0),
{
    is_blank(initial_text)
}

/// The debounce fires at `now`: a translation is due by then and none runs.
pub open spec fn debounce_fires(v: PopupView, now: u64) -> bool {
    v.translate_due matches Some(d) && now >= d && !v.translating
}

/// Law: after an edit at `t`, no translation starts before the quiet time
/// has passed.
pub proof fn law_debounce_waits_for_quiet(v: PopupView, t: u64, now: u64)
    requires
        v.translate_due == Some(after_debounce(t)),
        t + DEBOUNCE_MS <= u64::MAX,
        (now as int) < t + DEBOUNCE_MS,
    ensures
        !debounce_fires(v, now),
{
}

/// Law: while a translation runs, the debounce starts no other one.
pub proof fn law_one_translation_at_a_time(v: PopupView, now: u64)
    requires
        v.translating,
    ensures
        !debounce_fires(v, now),
{
}

/// A job for the translation thread: the text to translate.
pub open spec fn job_text(input: Seq<char>) -> Seq<char> {
    trimmed(input)
}

/// Law: the text a translation job carries is the whole input with only the
/// white space around it removed: a stretch of the input outside which lies
/// nothing but white space, so every line of a multi-line input is in it.
pub proof fn law_job_is_whole_input(input: Seq<char>)
    ensures
        exists|i: int, j: int| is_visible_stretch(input, job_text(input), i, j),
        job_text(input) == trimmed(input),
{
    lemma_trimmed_is_visible_stretch(input);
}

impl TranslatePopup {
    #[verifier::type_invariant]
    spec fn inv(self) -> bool {
        self.is_translating ==> self.result_text@ == translating_text()
    }

    /// A new pop-up for the engine `engine`, opened with `initial_text`;
    /// `pending_read` is what the request file held (read only when
    /// `wants_pending_request` says so). A pop-up that starts with text
    /// translates it at once.
    pub fn new(engine: String, initial_text: String, pending_read: Option<String>, now_ms: u64) -> (r:
        Self)
        ensures
            r@.engine == engine@,
            r@.input == initial_input(initial_text@, opt_string_view(pending_read)),
            r@.result.len() == 0,
            r@.translate_due == (if r@.input.len() == 0 {
                None::<u64>
            } else {
                Some(now_ms)
            }),
            !r@.translating,
            r@.first_frame,
            !r@.had_focus,
            r@.next_poll == now_ms,
            r@.created_at == now_ms,
    {
        let input = if is_blank(initial_text.as_str()) {
            match consume_popup_request(pending_read) {
                Some(t) => t,
                None => String::new(),
            }
        } else {
            initial_text
        };
        let due = if input.as_str().is_empty() {
            None
        } else {
            Some(now_ms)
        };
        TranslatePopup {
            engine,
            input_text: input,
            result_text: String::new(),
            translate_due_ms: due,
            is_translating: false,
            first_frame: true,
            had_focus: false,
            next_request_poll_ms: now_ms,
            created_at_ms: now_ms,
        }
    }

    /// The engine named in the header.
    pub fn engine(&self) -> (r: &str)
        ensures
            r@ == self@.engine,
    {
        self.engine.as_str()
    }

    /// The text in the input field.
    pub fn input_text(&self) -> (r: &str)
        ensures
            r@ == self@.input,
    {
        self.input_text.as_str()
    }

    /// The result line.
    pub fn result_text(&self) -> (r: &str)
        ensures
            r@ == self@.result,
    {
        self.result_text.as_str()
    }

    /// Whether a translation runs and its answer is to be polled for.
    pub fn is_translating(&self) -> (r: bool)
        ensures
            r == self@.translating,
    {
        self.is_translating
    }

    /// The focus rule, at the start of a frame: returns whether the window
    /// closes.
    pub fn check_focus(&mut self, focused: bool, now_ms: u64) -> (close: bool)
        ensures
            (final(self)@.had_focus, close) == focus_rule(
                old(self)@.had_focus,
                focused,
                old(self)@.created_at,
                now_ms,
            ),
            final(self)@ == (PopupView { had_focus: final(self)@.had_focus, ..old(self)@ }),
    {
        proof {
            use_type_invariant(&*self);
        }
        let (had, close) = focus_step(self.had_focus, focused, self.created_at_ms, now_ms);
        self.had_focus = had;
        close
    }

    /// Whether the request file is due to be read now; when it is, the next
    /// look is scheduled a poll interval later.
    pub fn poll_request_due(&mut self, now_ms: u64) -> (due: bool)
        ensures
            due == (now_ms >= old(self)@.next_poll),
            due ==> final(self)@ == (PopupView {
                next_poll: after_poll_interval(now_ms),
                ..old(self)@
            }),
            !due ==> final(self)@ == old(self)@,
    {
        proof {
            use_type_invariant(&*self);
        }
        if now_ms < self.next_request_poll_ms {
            return false;
        }
        self.next_request_poll_ms = now_ms.saturating_add(REQUEST_POLL_MS);
        true
    }

    /// Starts translating the input: blank input clears the result and
    /// starts nothing; otherwise the result shows the running placeholder
    /// and the trimmed input is handed back for the translation thread.
    fn start_translation(&mut self) -> (job: Option<String>)
        requires
            !old(self)@.translating || trimmed(old(self)@.input).len() > 0,
        ensures
            trimmed(old(self)@.input).len() == 0 ==> job is None && final(self)@ == (PopupView {
                result: Seq::empty(),
                ..old(self)@
            }),
            trimmed(old(self)@.input).len() > 0 ==> (job matches Some(t) && t@ == job_text(
                old(self)@.input,
            ) && t@ == trimmed(old(self)@.input)) && final(self)@ == (PopupView {
                result: translating_text(),
                translating: true,
                ..old(self)@
            }),
    {
        let text = trim(self.input_text.as_str());
        if text.as_str().is_empty() {
            self.result_text = String::new();
            return None;
        }
        self.result_text = String::from_str("翻訳中...");
        self.is_translating = true;
        Some(text)
    }

    /// Applies a request received while the pop-up is open (`read`: what
    /// the request file held, if it was read): a text other than the input
    /// replaces it, has the field focused again and starts translating it.
    /// Returns the job for the translation thread, if one starts.
    pub fn apply_external_request(&mut self, read: Option<String>) -> (job: Option<String>)
        ensures
            match request_text(opt_string_view(read)) {
                Some(t) => if t == old(self)@.input {
                    job is None && final(self)@ == old(self)@
                } else {
                    (job matches Some(j) && j@ == t) && final(self)@ == (PopupView {
                        input: t,
                        first_frame: true,
                        result: translating_text(),
                        translating: true,
                        ..old(self)@
                    })
                },
                None => job is None && final(self)@ == old(self)@,
            },
    {
        proof {
            use_type_invariant(&*self);
        }
        let ghost read_view = opt_string_view(read);
        let text = match consume_popup_request(read) {
            Some(t) => t,
            None => return None,
        };
        if text_eq(text.as_str(), self.input_text.as_str()) {
            return None;
        }
        proof {
            if let Some(tv) = read_view {
                lemma_trimmed_idempotent(tv);
            }
        }
        self.input_text = text;
        self.first_frame = true;
        self.start_translation()
    }

    /// Takes what the translation thread sent, if anything (only while a
    /// translation runs): the translated text, the error's message after
    /// "エラー: ", or, when the thread ended without an answer, a note saying
    /// so. The translation then no longer runs.
    pub fn receive_result(&mut self, poll: ResultPoll)
        ensures
            !old(self)@.translating ==> final(self)@ == old(self)@,
            old(self)@.translating ==> match poll {
                ResultPoll::Translated(res) => final(self)@ == (PopupView {
                    result: res.translated@,
                    translating: false,
                    ..old(self)@
                }),
                ResultPoll::Failed(m) => final(self)@ == (PopupView {
                    result: error_text(m@),
                    translating: false,
                    ..old(self)@
                }),
                ResultPoll::Pending => final(self)@ == old(self)@,
                ResultPoll::Disconnected => final(self)@ == (PopupView {
                    result: thread_lost_text(),
                    translating: false,
                    ..old(self)@
                }),
            },
    {
        proof {
            use_type_invariant(&*self);
        }
        if !self.is_translating {
            return ;
        }
        match poll {
            ResultPoll::Translated(res) => {
                self.is_translating = false;
                self.result_text = res.translated;
            },
            ResultPoll::Failed(m) => {
                self.is_translating = false;
                let mut line = String::from_str("エラー: ");
                line.append(m.as_str());
                self.result_text = line;
            },
            ResultPoll::Pending => {},
            ResultPoll::Disconnected => {
                self.is_translating = false;
                self.result_text = String::from_str("翻訳スレッドが予期せず終了しました");
            },
        }
    }

    /// The debounce: once the quiet time after the last edit is over and no
    /// translation runs, the pending edit is translated. Returns the job for
    /// the translation thread, if one starts.
    pub fn debounce(&mut self, now_ms: u64) -> (job: Option<String>)
        ensures
            ({
                let o = old(self)@;
                if debounce_fires(o, now_ms) {
                    if trimmed(o.input).len() == 0 {
                        job is None && final(self)@ == (PopupView {
                            translate_due: None,
                            result: Seq::empty(),
                            ..o
                        })
                    } else {
                        (job matches Some(t) && t@ == job_text(o.input) && t@ == trimmed(o.input)) && final(self)@ == (
                        PopupView {
                            translate_due: None,
                            result: translating_text(),
                            translating: true,
                            ..o
                        })
                    }
                } else {
                    job is None && final(self)@ == o
                }
            }),
    {
        proof {
            use_type_invariant(&*self);
        }
        match self.translate_due_ms {
            Some(d) => {
                if now_ms >= d && !self.is_translating {
                    self.translate_due_ms = None;
                    self.start_translation()
                } else {
                    None
                }
            },
            None => None,
        }
    }

    /// Keys pressed this frame: Escape closes; Ctrl+Enter copies a finished
    /// result and closes (and does nothing while there is none).
    pub fn on_keys(&self, escape: bool, ctrl_enter: bool) -> (r: FrameAction)
        ensures
            escape ==> r is Close,
            !escape && ctrl_enter && self@.result.len() > 0 && self@.result != translating_text()
                ==> (r matches FrameAction::CopyAndClose(t) && t@ == self@.result),
            !escape && !(ctrl_enter && self@.result.len() > 0 && self@.result
                != translating_text()) ==> r is Continue,
    {
        if escape {
            return FrameAction::Close;
        }
        if ctrl_enter && !self.result_text.as_str().is_empty() && !text_eq(
            self.result_text.as_str(),
            "翻訳中...",
        ) {
            return FrameAction::CopyAndClose(self.result_text.clone());
        }
        FrameAction::Continue
    }

    /// The input field was edited: the text is taken and the translation is
    /// due a debounce time later.
    pub fn edit_input(&mut self, text: String, now_ms: u64)
        ensures
            final(self)@ == (PopupView {
                input: text@,
                translate_due: Some(after_debounce(now_ms)),
                ..old(self)@
            }),
    {
        proof {
            use_type_invariant(&*self);
        }
        self.input_text = text;
        self.translate_due_ms = Some(now_ms.saturating_add(DEBOUNCE_MS));
    }

    /// Whether the input field is to be focused this frame (the first frame,
    /// and after a new request); asking clears it.
    pub fn take_focus_request(&mut self) -> (r: bool)
        ensures
            r == old(self)@.first_frame,
            final(self)@ == (PopupView { first_frame: false, ..old(self)@ }),
    {
        proof {
            use_type_invariant(&*self);
        }
        let r = self.first_frame;
        self.first_frame = false;
        r
    }

    /// Whether the window is to be drawn again without waiting for input:
    /// while a translation runs or one is pending.
    pub fn needs_repaint(&self) -> (r: bool)
        ensures
            r == (self@.translating || self@.translate_due is Some),
    {
        self.is_translating || self.translate_due_ms.is_some()
    }

    /// While a translation runs, the result line shows the placeholder.
    pub fn result_while_translating(&self) -> (r: bool)
        ensures
            r == self@.translating,
            self@.translating ==> self@.result == translating_text(),
    {
        proof {
            use_type_invariant(self);
        }
        self.is_translating
    }
}

/// What the translation thread's channel held when it was polled.
#[derive(Debug)]
pub enum ResultPoll {
    /// A finished translation.
    Translated(TranslationResult),
    /// A failure, with its message.
    Failed(String),
    /// Nothing yet.
    Pending,
    /// The thread ended without sending anything.
    Disconnected,
}

pub open spec fn opt_string_view(o: Option<String>) -> Option<Seq<char>> {
    match o {
        Some(s) => Some(s@),
        None => None,
    }
}


/// The state of the pop-up that shows a finished translation.
#[derive(Debug)]
pub struct ResultPopup {
    translated: String,
    original: String,
    had_focus: bool,
    created_at_ms: u64,
}

/// The result pop-up's state as plain values.
pub struct ResultPopupView {
    pub translated: Seq<char>,
    pub original: Seq<char>,
    pub had_focus: bool,
    pub created_at: u64,
}

impl View for ResultPopup {
    type V = ResultPopupView;

    closed spec fn view(&self) -> ResultPopupView {
        ResultPopupView {
            translated: self.translated@,
            original: self.original@,
            had_focus: self.had_focus,
            created_at: self.created_at_ms,
        }
    }
}

impl ResultPopup {
    /// A result pop-up for a translation and its source text.
    pub fn new(translated: String, original: String, now_ms: u64) -> (r: Self)
        ensures
            r@ == (ResultPopupView {
                translated: translated@,
                original: original@,
                had_focus: false,
                created_at: now_ms,
            }),
    {
        ResultPopup { translated, original, had_focus: false, created_at_ms: now_ms }
    }

    /// The translated text.
    pub fn translated(&self) -> (r: &str)
        ensures
            r@ == self@.translated,
    {
        self.translated.as_str()
    }

    /// The source text.
    pub fn original(&self) -> (r: &str)
        ensures
            r@ == self@.original,
    {
        self.original.as_str()
    }

    /// The focus rule, at the start of a frame: returns whether the window
    /// closes.
    pub fn check_focus(&mut self, focused: bool, now_ms: u64) -> (close: bool)
        ensures
            (final(self)@.had_focus, close) == focus_rule(
                old(self)@.had_focus,
                focused,
                old(self)@.created_at,
                now_ms,
            ),
            final(self)@ == (ResultPopupView { had_focus: final(self)@.had_focus, ..old(self)@ }),
    {
        let (had, close) = focus_step(self.had_focus, focused, self.created_at_ms, now_ms);
        self.had_focus = had;
        close
    }

    /// Keys pressed this frame: Escape closes; Ctrl+Enter copies the
    /// translation and closes.
    pub fn on_keys(&self, escape: bool, ctrl_enter: bool) -> (r: FrameAction)
        ensures
            escape ==> r is Close,
            !escape && ctrl_enter ==> (r matches FrameAction::CopyAndClose(t) && t@
                == self@.translated),
            !escape && !ctrl_enter ==> r is Continue,
    {
        if escape {
            FrameAction::Close
        } else if ctrl_enter {
            FrameAction::CopyAndClose(self.translated.clone())
        } else {
            FrameAction::Continue
        }
    }
}

/// A line made of `---` (white space around it aside): the divider of a result file.
pub open spec fn is_separator_line(l: Seq<char>) -> bool {
    trimmed(l) == "---"@
}

/// `acc` with the line `l` added, after a line feed unless `acc` is empty.
pub open spec fn append_line(acc: Seq<char>, l: Seq<char>) -> Seq<char> {
    if acc.len() == 0 {
        l
    } else {
        acc + seq!['\n'] + l
    }
}

/// One line of a result file read: a separator line switches to the source
/// text (and is dropped); any other line goes to the part being read.
pub open spec fn split_step(st: (Seq<char>, Seq<char>, bool), l: Seq<char>) -> (
    Seq<char>,
    Seq<char>,
    bool,
) {
    if is_separator_line(l) {
        (st.0, st.1, true)
    } else if st.2 {
        (st.0, append_line(st.1, l), true)
    } else {
        (append_line(st.0, l), st.1, false)
    }
}

/// The lines of a result file read in order: `(translation, source text,
/// separator seen)`.
pub open spec fn split_lines(ls: Seq<Seq<char>>) -> (Seq<char>, Seq<char>, bool)
    decreases ls.len(),
{
    if ls.len() == 0 {
        (Seq::empty(), Seq::empty(), false)
    } else {
        split_step(split_lines(ls.drop_last()), ls.last())
    }
}

/// Law: reading one more line of a result file. The first separator line
/// switches to the source text and is itself dropped. Before it, a line is
/// added to the translation; after it, every line that is not a separator is
/// kept in the source text, blank lines included: after a line feed when the
/// source text holds something, as it is otherwise. The other part is left
/// as it was.
pub proof fn law_split_reads_every_line(ls: Seq<Seq<char>>, l: Seq<char>)
    ensures
        split_lines(ls.push(l)).2 == (split_lines(ls).2 || trimmed(l) == "---"@),
        trimmed(l) == "---"@ ==> split_lines(ls.push(l)).0 == split_lines(ls).0
            && split_lines(ls.push(l)).1 == split_lines(ls).1,
        trimmed(l) != "---"@ && split_lines(ls).2 ==> split_lines(ls.push(l)).0 == split_lines(ls).0
            && split_lines(ls.push(l)).1 == (if split_lines(ls).1.len() == 0 {
            l
        } else {
            split_lines(ls).1 + seq!['\n'] + l
        }),
        trimmed(l) != "---"@ && !split_lines(ls).2 ==> split_lines(ls.push(l)).1 == split_lines(ls).1
            && split_lines(ls.push(l)).0 == (if split_lines(ls).0.len() == 0 {
            l
        } else {
            split_lines(ls).0 + seq!['\n'] + l
        }),
{
    assert(ls.push(l).drop_last() =~= ls);
    assert(ls.push(l).last() == l);
}

/// Law: nothing is read before the first line, and the translation is
/// complete once the separator has been read.
pub proof fn law_split_starts_empty(ls: Seq<Seq<char>>, more: Seq<Seq<char>>)
    requires
        split_lines(ls).2,
    ensures
        split_lines(Seq::<Seq<char>>::empty()) == (Seq::<char>::empty(), Seq::<char>::empty(), false),
        split_lines(ls + more).0 == split_lines(ls).0,
        split_lines(ls + more).2,
    decreases more.len(),
{
    if more.len() > 0 {
        let shorter = more.drop_last();
        law_split_starts_empty(ls, shorter);
        assert((ls + more).drop_last() =~= ls + shorter);
        assert((ls + more).last() == more.last());
    } else {
        assert(ls + more =~= ls);
    }
}

/// Splits the content of a result file into the translation (the lines
/// before the first `---` line) and the source text (the lines after it,
/// other `---` lines left out).
pub fn split_result_content(content: &str) -> (r: (String, String))
    ensures
        r.0@ == split_lines(lines_of(content@)).0,
        r.1@ == split_lines(lines_of(content@)).1,
{
    let cs = crate::text::chars_of(content);
    let ls = lines(&cs);
    let ghost lv = views_of(ls@);
    let n = ls.len();
    let mut translated = String::new();
    let mut original = String::new();
    let mut is_original = false;
    let mut i: usize = 0;
    while i < n
        invariant
            n == ls@.len() == lv.len(),
            lv == views_of(ls@),
            lv == lines_of(content@),
            i <= n,
            (translated@, original@, is_original) == split_lines(lv.take(i as int)),
        decreases n - i,
    {
        let line = string_of(&ls[i]);
        assert(line@ == lv[i as int]);
        let t = trim(line.as_str());
        proof {
            assert(lv.take(i + 1).drop_last() =~= lv.take(i as int));
            assert(lv.take(i + 1).last() == lv[i as int]);
            reveal_strlit("---");
        }
        if text_eq(t.as_str(), "---") {
            is_original = true;
        } else if is_original {
            if !original.as_str().is_empty() {
                original.append("\n");
                proof {
                    reveal_strlit("\n");
                }
            }
            original.append(line.as_str());
        } else {
            if !translated.as_str().is_empty() {
                translated.append("\n");
                proof {
                    reveal_strlit("\n");
                }
            }
            translated.append(line.as_str());
        }
        proof {
            assert(translated@ =~= split_lines(lv.take(i + 1)).0);
            assert(original@ =~= split_lines(lv.take(i + 1)).1);
        }
        i = i + 1;
    }
    assert(lv.take(n as int) =~= lv);
    (translated, original)
}

pub open spec fn max_int(a: int, b: int) -> int {
    if a >= b {
        a
    } else {
        b
    }
}

/// The rows a line of `n` characters takes at `per` characters a row: at
/// least one.
pub open spec fn wrapped_rows(n: int, per: int) -> int {
    max_int((max_int(n, 1) + per - 1) / per, 1)
}

/// The rows all the lines take.
pub open spec fn rows_total(ls: Seq<Seq<char>>, per: int) -> int
    decreases ls.len(),
{
    if ls.len() == 0 {
        0
    } else {
        wrapped_rows(ls[0].len() as int, per) + rows_total(ls.drop_first(), per)
    }
}

/// The rows a text takes when each line wraps at `chars_per_line`
/// characters (never fewer than 8): none for blank text, else at least one.
pub open spec fn wrapped_line_count(text: Seq<char>, chars_per_line: int) -> int {
    if trimmed(text).len() == 0 {
        0
    } else {
        max_int(rows_total(lines_of(text), max_int(chars_per_line, 8)), 1)
    }
}

proof fn lemma_wrapped_rows(n: int, per: int)
    requires
        n >= 0,
        per >= 1,
    ensures
        wrapped_rows(n, per) == (max_int(n, 1) - 1) / per + 1,
        1 <= wrapped_rows(n, per) <= max_int(n, 1),
{
    let m = max_int(n, 1);
    let q = (m - 1) / per;
    let r = (m - 1) % per;
    vstd::arithmetic::div_mod::lemma_fundamental_div_mod(m - 1, per);
    assert(0 <= r < per) by {
        vstd::arithmetic::div_mod::lemma_mod_bound(m - 1, per);
    }
    assert(q >= 0) by {
        vstd::arithmetic::div_mod::lemma_div_pos_is_pos(m - 1, per);
    }
    assert(m + per - 1 == (q + 1) * per + r) by (nonlinear_arith)
        requires
            m - 1 == per * q + r,
    ;
    vstd::arithmetic::div_mod::lemma_fundamental_div_mod_converse(m + per - 1, per, q + 1, r);
    assert(q + 1 <= m) by (nonlinear_arith)
        requires
            m - 1 == per * q + r,
            per >= 1,
            q >= 0,
            r >= 0,
    ;
}

proof fn lemma_newline_index_bound(s: Seq<char>)
    ensures
        newline_index(s) <= s.len(),
    decreases s.len(),
{
    if s.len() > 0 && s[0] != '\n' {
        lemma_newline_index_bound(s.drop_first());
    }
}

proof fn lemma_rows_total_nonneg(ls: Seq<Seq<char>>, per: int)
    requires
        per >= 1,
    ensures
        rows_total(ls, per) >= 0,
    decreases ls.len(),
{
    if ls.len() > 0 {
        lemma_wrapped_rows(ls[0].len() as int, per);
        lemma_rows_total_nonneg(ls.drop_first(), per);
    }
}

/// A text's lines never take more rows than it has characters.
proof fn lemma_rows_total_bound(s: Seq<char>, per: int)
    requires
        per >= 1,
    ensures
        rows_total(lines_of(s), per) <= s.len(),
    decreases s.len(),
{
    if s.len() > 0 {
        let k = newline_index(s);
        lemma_newline_index_bound(s);
        if k >= s.len() {
            let ls = lines_of(s);
            assert(ls == seq![s]);
            assert(ls.drop_first() =~= Seq::<Seq<char>>::empty());
            lemma_wrapped_rows(s.len() as int, per);
            assert(rows_total(ls, per) == wrapped_rows(s.len() as int, per) + rows_total(
                ls.drop_first(),
                per,
            ));
        } else {
            let a = strip_cr(s.take(k as int));
            let rest = s.skip(k as int + 1);
            let ls = lines_of(s);
            assert(ls == seq![a] + lines_of(rest));
            assert(ls.drop_first() =~= lines_of(rest));
            assert(ls[0] == a);
            lemma_wrapped_rows(a.len() as int, per);
            lemma_rows_total_bound(rest, per);
            assert(a.len() <= k);
            assert(rest.len() == s.len() - k - 1);
            assert(rows_total(ls, per) == wrapped_rows(a.len() as int, per) + rows_total(
                lines_of(rest),
                per,
            ));
        }
    }
}

/// Law: blank text takes no rows, and any other text at least one.
pub proof fn law_wrapped_line_count_sign(text: Seq<char>, chars_per_line: int)
    ensures
        trimmed(text).len() == 0 ==> wrapped_line_count(text, chars_per_line) == 0,
        trimmed(text).len() > 0 ==> wrapped_line_count(text, chars_per_line) >= 1,
{
}

/// Law: a text of one line of `n` visible-bearing characters takes
/// `ceil(n / per)` rows, `per` being `chars_per_line` but never less than 8:
/// the rows before the last hold `per` characters each and the last one the
/// rest. In particular a line no longer than `chars_per_line` takes one row.
pub proof fn law_single_line_rows(text: Seq<char>, chars_per_line: int)
    requires
        chars_per_line >= 0,
        forall|k: int| 0 <= k < text.len() ==> #[trigger] text[k] != '\n',
        trimmed(text).len() > 0,
    ensures
        ({
            let per = if chars_per_line > 8 {
                chars_per_line
            } else {
                8
            };
            let r = wrapped_line_count(text, chars_per_line);
            &&& r >= 1
            &&& (r - 1) * per < text.len()
            &&& text.len() <= r * per
        }),
        text.len() <= chars_per_line ==> wrapped_line_count(text, chars_per_line) == 1,
{
    let n = text.len() as int;
    let per = if chars_per_line > 8 {
        chars_per_line
    } else {
        8
    };
    assert(n > 0);
    lemma_newline_index(text, n);
    let ls = lines_of(text);
    assert(ls == seq![text]);
    assert(ls.drop_first() =~= Seq::<Seq<char>>::empty());
    assert(rows_total(ls, per) == wrapped_rows(n, per) + rows_total(ls.drop_first(), per));
    lemma_wrapped_rows(n, per);
    let r = wrapped_line_count(text, chars_per_line);
    assert(r == (n - 1) / per + 1);
    let q = (n - 1) / per;
    let rem = (n - 1) % per;
    vstd::arithmetic::div_mod::lemma_fundamental_div_mod(n - 1, per);
    vstd::arithmetic::div_mod::lemma_mod_bound(n - 1, per);
    assert((r - 1) * per < n && n <= r * per) by (nonlinear_arith)
        requires
            n - 1 == per * q + rem,
            0 <= rem < per,
            r == q + 1,
    ;
    if n <= chars_per_line {
        assert(r == 1) by (nonlinear_arith)
            requires
                (r - 1) * per < n,
                n <= per,
                per >= 8,
                r >= 1,
        ;
    }
}

/// How many rows `text` takes in a window `chars_per_line` characters wide
/// (never counted narrower than 8): 0 for blank text, else each line takes
/// the rows it wraps into (at least one) and the whole at least one.
pub fn count_wrapped_lines(text: &str, chars_per_line: usize) -> (r: usize)
    ensures
        r == wrapped_line_count(text@, chars_per_line as int),
{
    if is_blank(text) {
        return 0;
    }
    let per: usize = if chars_per_line > 8 {
        chars_per_line
    } else {
        8
    };
    let cs = crate::text::chars_of(text);
    let ls = lines(&cs);
    let ghost lv = views_of(ls@);
    proof {
        lemma_rows_total_bound(cs@, per as int);
        assert(lv.skip(0) =~= lv);
    }
    let n = ls.len();
    let char_count = cs.len();
    let mut total: usize = 0;
    let mut i: usize = 0;
    while i < n
        invariant
            n == ls@.len() == lv.len(),
            lv == views_of(ls@),
            lv == lines_of(cs@),
            per >= 8,
            cs@.len() == char_count,
            rows_total(lv, per as int) <= cs@.len(),
            i <= n,
            total + rows_total(lv.skip(i as int), per as int) == rows_total(lv, per as int),
        decreases n - i,
    {
        let len = ls[i].len();
        assert(len == lv[i as int].len());
        let m: usize = if len > 1 {
            len
        } else {
            1
        };
        let rows = (m - 1) / per + 1;
        proof {
            lemma_wrapped_rows(len as int, per as int);
            let rest = lv.skip(i as int);
            assert(rest.drop_first() =~= lv.skip(i + 1));
            assert(rest[0] == lv[i as int]);
            lemma_rows_total_nonneg(lv.skip(i + 1), per as int);
        }
        total = total + rows;
        i = i + 1;
    }
    proof {
        assert(lv.skip(n as int) =~= Seq::<Seq<char>>::empty());
    }
    if total > 1 {
        total
    } else {
        1
    }
}


/// The length of the longest line, or `None` when there are no lines.
pub open spec fn longest_len(ls: Seq<Seq<char>>) -> Option<nat>
    decreases ls.len(),
{
    if ls.len() == 0 {
        None
    } else {
        match longest_len(ls.drop_last()) {
            None => Some(ls.last().len()),
            Some(m) => Some(
                if m >= ls.last().len() {
                    m
                } else {
                    ls.last().len()
                },
            ),
        }
    }
}

/// Law: `longest_len` is the greatest length among the lines: `None` just
/// for no lines, and otherwise the length of one of them that no other line
/// exceeds.
pub proof fn law_longest_is_greatest(ls: Seq<Seq<char>>)
    ensures
        longest_len(ls) is None <==> ls.len() == 0,
        longest_len(ls) matches Some(m) ==> (exists|k: int| 0 <= k < ls.len() && #[trigger] ls[k].len()
            == m) && (forall|k: int| 0 <= k < ls.len() ==> #[trigger] ls[k].len() <= m),
    decreases ls.len(),
{
    if ls.len() > 0 {
        let front = ls.drop_last();
        law_longest_is_greatest(front);
        let last = ls.len() - 1;
        assert(ls[last] == ls.last());
        assert forall|k: int| 0 <= k < front.len() implies #[trigger] ls[k] == front[k] by {}
        match longest_len(front) {
            None => {
                assert(ls.len() == 1);
                assert(ls[last].len() == ls.last().len());
            },
            Some(m) => {
                let k0 = choose|k: int| 0 <= k < front.len() && #[trigger] front[k].len() == m;
                assert(ls[k0] == front[k0]);
                if m >= ls.last().len() {
                    assert(ls[k0].len() == m);
                } else {
                    assert(ls[last].len() == ls.last().len());
                }
                assert forall|k: int| 0 <= k < ls.len() implies #[trigger] ls[k].len()
                    <= longest_len(ls)->0 by {
                    if k < front.len() {
                        assert(ls[k] == front[k]);
                    }
                }
            },
        }
    }
}

/// The number of characters in the longest line of `text`, or `None` for
/// text without lines.
pub fn longest_line_chars(text: &str) -> (r: Option<usize>)
    ensures
        match longest_len(lines_of(text@)) {
            None => r is None,
            Some(m) => (r matches Some(x) && x == m),
        },
{
    let cs = crate::text::chars_of(text);
    let ls = lines(&cs);
    let ghost lv = views_of(ls@);
    let n = ls.len();
    let mut best: Option<usize> = None;
    let mut i: usize = 0;
    while i < n
        invariant
            n == ls@.len() == lv.len(),
            lv == views_of(ls@),
            lv == lines_of(text@),
            i <= n,
            match longest_len(lv.take(i as int)) {
                None => best is None,
                Some(m) => (best matches Some(x) && x == m),
            },
        decreases n - i,
    {
        let len = ls[i].len();
        proof {
            assert(lv.take(i + 1).drop_last() =~= lv.take(i as int));
            assert(lv.take(i + 1).last() == lv[i as int]);
            assert(len == lv[i as int].len());
        }
        best = match best {
            None => Some(len),
            Some(m) => Some(
                if m >= len {
                    m
                } else {
                    len
                },
            ),
        };
        i = i + 1;
    }
    assert(lv.take(n as int) =~= lv);
    best
}

/// The number of lines of `text`.
pub fn line_count(text: &str) -> (r: usize)
    ensures
        r == lines_of(text@).len(),
{
    let cs = crate::text::chars_of(text);
    let ls = lines(&cs);
    assert(views_of(ls@).len() == ls@.len());
    ls.len()
}

/// The text holds the character `c`.
pub open spec fn has_char(s: Seq<char>, c: char) -> bool {
    exists|k: int| 0 <= k < s.len() && s[k] == c
}

fn contains_char(text: &str, c: char) -> (r: bool)
    ensures
        r == has_char(text@, c),
{
    let cs = crate::text::chars_of(text);
    let n = cs.len();
    let mut i: usize = 0;
    while i < n
        invariant
            n == cs@.len(),
            cs@ == text@,
            i <= n,
            forall|k: int| 0 <= k < i ==> cs@[k] != c,
        decreases n - i,
    {
        if cs[i] == c {
            return true;
        }
        i = i + 1;
    }
    false
}

/// How many characters wide the input pop-up is made: while a result is
/// shown, its longest line, kept between 28 and 48 (66 for text with
/// spaces); otherwise the input's longest line, kept between 24 and 60.
pub open spec fn live_width_chars(input: Seq<char>, result: Seq<char>) -> int {
    if trimmed(result).len() > 0 {
        let longest: int = match longest_len(lines_of(result)) {
            Some(m) => m as int,
            None => 24,
        };
        let preferred: int = if has_char(result, ' ') {
            52
        } else {
            34
        };
        let capped = if longest <= preferred + 14 {
            longest
        } else {
            preferred + 14
        };
        if capped >= 28 {
            capped
        } else {
            28
        }
    } else {
        let longest: int = match longest_len(lines_of(input)) {
            Some(m) => m as int,
            None => 24,
        };
        let capped = if longest <= 60 {
            longest
        } else {
            60
        };
        if capped >= 24 {
            capped
        } else {
            24
        }
    }
}

/// Law: the input pop-up is between 28 and 48 characters wide while a
/// result is shown (66 when the result has spaces), and between 24 and 60
/// otherwise; a longest line inside those bounds gives the width itself.
pub proof fn law_live_width_bounds(input: Seq<char>, result: Seq<char>)
    ensures
        trimmed(result).len() > 0 ==> 28 <= live_width_chars(input, result) <= (if has_char(
            result,
            ' ',
        ) {
            66int
        } else {
            48int
        }),
        trimmed(result).len() > 0 ==> (longest_len(lines_of(result)) matches Some(m) ==> (28 <= m
            && m <= (if has_char(result, ' ') {
            66int
        } else {
            48int
        }) ==> live_width_chars(input, result) == m)),
        trimmed(result).len() == 0 ==> 24 <= live_width_chars(input, result) <= 60,
        trimmed(result).len() == 0 ==> (longest_len(lines_of(input)) matches Some(m) ==> (24 <= m
            && m <= 60 ==> live_width_chars(input, result) == m)),
{
}

/// The width of the input pop-up in characters (see `live_width_chars`).
pub fn live_popup_width_chars(input_text: &str, result_text: &str) -> (r: usize)
    ensures
        r == live_width_chars(input_text@, result_text@),
{
    if !is_blank(result_text) {
        let longest: usize = match longest_line_chars(result_text) {
            Some(m) => m,
            None => 24,
        };
        let preferred: usize = if contains_char(result_text, ' ') {
            52
        } else {
            34
        };
        let capped = if longest <= preferred + 14 {
            longest
        } else {
            preferred + 14
        };
        if capped >= 28 {
            capped
        } else {
            28
        }
    } else {
        let longest: usize = match longest_line_chars(input_text) {
            Some(m) => m,
            None => 24,
        };
        let capped = if longest <= 60 {
            longest
        } else {
            60
        };
        if capped >= 24 {
            capped
        } else {
            24
        }
    }
}

/// What sizes the result pop-up: the longest line of the translation and
/// the source text together (10 when there is none), and the lines of each
/// (at least one).
pub struct ResultWindowMetrics {
    pub max_chars: usize,
    pub translated_lines: usize,
    pub original_lines: usize,
}

/// Measures a translation and its source text for the result pop-up.
pub fn result_window_metrics(translated: &str, original: &str) -> (r: ResultWindowMetrics)
    ensures
        r.max_chars == (match longest_len(lines_of(translated@ + seq!['\n'] + original@)) {
            Some(m) => m as int,
            None => 10,
        }),
        r.translated_lines == max_int(lines_of(translated@).len() as int, 1),
        r.original_lines == max_int(lines_of(original@).len() as int, 1),
{
    let mut all = String::from_str(translated);
    all.append("\n");
    all.append(original);
    proof {
        reveal_strlit("\n");
        assert(all@ =~= translated@ + seq!['\n'] + original@);
    }
    let max_chars: usize = match longest_line_chars(all.as_str()) {
        Some(m) => m,
        None => 10,
    };
    let t = line_count(translated);
    let o = line_count(original);
    ResultWindowMetrics {
        max_chars,
        translated_lines: if t > 1 {
            t
        } else {
            1
        },
        original_lines: if o > 1 {
            o
        } else {
            1
        },
    }
}

} // verus!
