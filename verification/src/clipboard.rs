//! Copying the selected text: the decisions around simulated Ctrl+C and the
//! clipboard polling that follows it.
use vstd::prelude::*;
use crate::text::{text_eq, trim, trimmed};

verus! {

/// Milliseconds the release of Alt is waited for.
pub const MODIFIER_WAIT_LIMIT_MS: u64 = 1000;

/// Attempts at copying the selection.
pub const COPY_ATTEMPTS: u32 = 3;

/// Milliseconds the clipboard is polled after each attempt.
pub const COPY_POLL_WINDOW_MS: u64 = 1200;

/// Whether a key state from `GetAsyncKeyState` says the key is down: its
/// most significant bit (`0x8000`) is set.
pub fn key_state_pressed(state: i16) -> (r: bool)
    ensures
        r == (state < 0),
{
    let mask: i16 = -32768;
    let r = state & mask != 0;
    assert((state & mask != 0) == (state < 0)) by (bit_vector)
        requires
            mask == -32768i16,
    ;
    r
}

/// A step of waiting for Alt to be released.
#[derive(Debug)]
pub enum ModifierWait {
    /// Alt is up: go on.
    Released,
    /// Alt stayed down too long: give up waiting and go on.
    TimedOut,
    /// Wait a little and look again.
    Wait,
}

/// Decides one step of waiting for the hotkey's Alt to be released.
pub fn modifier_wait_step(alt_pressed: bool, elapsed_ms: u64) -> (r: ModifierWait)
    ensures
        !alt_pressed ==> r is Released,
        alt_pressed && elapsed_ms > MODIFIER_WAIT_LIMIT_MS ==> r is TimedOut,
        alt_pressed && elapsed_ms <= MODIFIER_WAIT_LIMIT_MS ==> r is Wait,
{
    if !alt_pressed {
        ModifierWait::Released
    } else if elapsed_ms > MODIFIER_WAIT_LIMIT_MS {
        ModifierWait::TimedOut
    } else {
        ModifierWait::Wait
    }
}

/// Whether another copy attempt starts after `attempts_done` of them.
pub fn may_attempt_copy(attempts_done: u32) -> (r: bool)
    ensures
        r == (attempts_done < COPY_ATTEMPTS),
{
    attempts_done < COPY_ATTEMPTS
}

/// Whether the clipboard is still polled `elapsed_ms` into an attempt.
pub fn keep_polling(elapsed_ms: u64) -> (r: bool)
    ensures
        r == (elapsed_ms < COPY_POLL_WINDOW_MS),
{
    elapsed_ms < COPY_POLL_WINDOW_MS
}

/// The decimal digit `d` as a character.
pub open spec fn digit_char(d: int) -> char {
    if d == 0 {
        '0'
    } else if d == 1 {
        '1'
    } else if d == 2 {
        '2'
    } else if d == 3 {
        '3'
    } else if d == 4 {
        '4'
    } else if d == 5 {
        '5'
    } else if d == 6 {
        '6'
    } else if d == 7 {
        '7'
    } else if d == 8 {
        '8'
    } else {
        '9'
    }
}

/// The decimal numeral of `n`, as integers are displayed.
pub open spec fn decimal(n: nat) -> Seq<char>
    decreases n,
{
    if n < 10 {
        seq![digit_char(n as int)]
    } else {
        decimal(n / 10).push(digit_char((n % 10) as int))
    }
}

/// The number a string of decimal digits stands for.
pub open spec fn numeral_value(s: Seq<char>) -> int
    decreases s.len(),
{
    if s.len() == 0 {
        0
    } else {
        numeral_value(s.drop_last()) * 10 + (s.last() as int - '0' as int)
    }
}

proof fn lemma_decimal_value(n: nat)
    ensures
        decimal(n).len() > 0,
        forall|k: int| 0 <= k < decimal(n).len() ==> '0' <= #[trigger] decimal(n)[k] <= '9',
        numeral_value(decimal(n)) == n,
    decreases n,
{
    let d = decimal(n);
    if n >= 10 {
        lemma_decimal_value(n / 10);
        let front = decimal(n / 10);
        assert(d.drop_last() =~= front);
        assert forall|k: int| 0 <= k < d.len() implies '0' <= #[trigger] d[k] <= '9' by {
            if k < front.len() {
                assert(d[k] == front[k]);
            }
        }
        assert(n == (n / 10) * 10 + n % 10);
        assert(d.last() as int - '0' as int == n % 10);
        assert(numeral_value(d) == numeral_value(front) * 10 + (d.last() as int - '0' as int));
    } else {
        assert(d.drop_last() =~= Seq::<char>::empty());
        assert(numeral_value(d.drop_last()) == 0);
        assert(d.last() as int - '0' as int == n);
        assert(numeral_value(d) == numeral_value(d.drop_last()) * 10 + (d.last() as int - '0' as int));
    }
}

/// Law: the numeral of `n` is a non-empty string of decimal digits that
/// reads back as `n`; so two different numbers never share a numeral, and
/// markers made of different process ids or times differ.
pub proof fn law_decimal_reads_back(n: nat, m: nat)
    ensures
        decimal(n).len() > 0,
        forall|k: int| 0 <= k < decimal(n).len() ==> '0' <= #[trigger] decimal(n)[k] <= '9',
        numeral_value(decimal(n)) == n,
        decimal(n) == decimal(m) ==> n == m,
{
    lemma_decimal_value(n);
    lemma_decimal_value(m);
}

fn digit(d: u128) -> (c: char)
    requires
        d < 10,
    ensures
        c == digit_char(d as int),
{
    if d == 0 {
        '0'
    } else if d == 1 {
        '1'
    } else if d == 2 {
        '2'
    } else if d == 3 {
        '3'
    } else if d == 4 {
        '4'
    } else if d == 5 {
        '5'
    } else if d == 6 {
        '6'
    } else if d == 7 {
        '7'
    } else if d == 8 {
        '8'
    } else {
        '9'
    }
}

fn push_decimal(out: &mut String, n: u128)
    ensures
        final(out)@ == old(out)@ + decimal(n as nat),
    decreases n,
{
    if n >= 10 {
        push_decimal(out, n / 10);
    }
    let c = digit(n % 10);
    let cs: Vec<char> = vec![c];
    let s = crate::text::string_of(&cs);
    out.append(s.as_str());
    assert(cs@ =~= seq![c]);
    assert(final(out)@ =~= old(out)@ + decimal(n as nat));
}

/// The marker put on the clipboard before copying, to tell a fresh copy
/// from what was there: `__QT_MARKER_<process id>_<milliseconds since the
/// epoch>__`.
pub fn clipboard_marker(pid: u32, epoch_ms: u128) -> (r: String)
    ensures
        r@ == "__QT_MARKER_"@ + decimal(pid as nat) + "_"@ + decimal(epoch_ms as nat) + "__"@,
{
    let mut s = String::from_str("__QT_MARKER_");
    push_decimal(&mut s, pid as u128);
    s.append("_");
    push_decimal(&mut s, epoch_ms);
    s.append("__");
    s
}

/// What a clipboard read is taken for: its trimmed text, when that is
/// neither empty nor the marker.
pub open spec fn copied_text(read: Option<Seq<char>>, marker: Seq<char>) -> Option<Seq<char>> {
    match read {
        Some(t) => if trimmed(t).len() > 0 && trimmed(t) != marker {
            Some(trimmed(t))
        } else {
            None
        },
        None => None,
    }
}

/// Looks at a clipboard read (`None` when it held no text): the copied
/// selection, or nothing yet.
pub fn accept_copied_text(read: Option<String>, marker: &str) -> (r: Option<String>)
    ensures
        match read {
            Some(t) => match copied_text(Some(t@), marker@) {
                Some(x) => r matches Some(y) && y@ == x,
                None => r is None,
            },
            None => r is None,
        },
{
    match read {
        Some(t) => {
            let x = trim(t.as_str());
            if !x.as_str().is_empty() && !text_eq(x.as_str(), marker) {
                Some(x)
            } else {
                None
            }
        },
        None => None,
    }
}

} // verus!

verus! {

/// Milliseconds the marker is given to reach the clipboard.
pub const MARKER_SETTLE_MS: u64 = 30;

/// Milliseconds between two clipboard reads of an attempt.
pub const POLL_INTERVAL_MS: u64 = 30;

/// Milliseconds of rest after an attempt's polling window.
pub const ATTEMPT_REST_MS: u64 = 50;

/// Where a copy of the selection stands.
#[derive(Debug, Clone, Copy)]
pub enum CopyPhase {
    /// Not begun.
    Start,
    /// The marker is being put on the clipboard.
    Marking,
    /// The marker is settling on the clipboard.
    Settling,
    /// The copy keys are being sent.
    SendingKeys,
    /// The clipboard is polled; the attempt's keys went at this time.
    Polling(u64),
    /// Resting between attempts.
    Resting,
    /// Finished.
    Done,
}

/// What happened since the last step.
#[derive(Debug)]
pub enum CopyEvent {
    /// The copy begins.
    Begin,
    /// The marker is on the clipboard.
    MarkerPlaced,
    /// The copy keys went, at this time.
    KeysSent(u64),
    /// The clipboard was read (`None`: it held no text), at this time.
    ClipboardRead(Option<String>, u64),
    /// The wait asked for is over, at this time.
    Waited(u64),
}

/// What to do next.
#[derive(Debug)]
pub enum CopyAction {
    /// Put this marker text on the clipboard.
    PlaceMarker(String),
    /// Send Ctrl+C and Ctrl+Insert to the focused window.
    SendCopyKeys,
    /// Read the clipboard's text.
    ReadClipboard,
    /// Wait this many milliseconds.
    Wait(u64),
    /// Stop: put `restore` back on the clipboard (when there is one) and
    /// hand back `copied`.
    Finish { restore: Option<String>, copied: Option<String> },
}

/// A copy of the selection: what was on the clipboard before, the marker,
/// the attempts made and the phase.
#[derive(Debug)]
pub struct CopySession {
    pub previous: Option<String>,
    pub marker: String,
    pub attempts_made: u32,
    pub phase: CopyPhase,
}

pub open spec fn opt_view(o: Option<String>) -> Option<Seq<char>> {
    match o {
        Some(s) => Some(s@),
        None => None,
    }
}

/// The action `a` finishes with `previous` to restore and `copied` handed
/// back.
pub open spec fn finishes_with(a: CopyAction, previous: Option<String>, copied: Option<Seq<char>>) -> bool {
    a matches CopyAction::Finish { restore, copied: c } && opt_view(restore) == opt_view(previous)
        && opt_view(c) == copied
}

fn copy_of(o: &Option<String>) -> (r: Option<String>)
    ensures
        opt_view(r) == opt_view(*o),
{
    match o {
        Some(s) => Some(s.clone()),
        None => None,
    }
}

impl CopySession {
    /// A copy that has not begun, with the clipboard's earlier text and the
    /// marker to tell a fresh copy by.
    pub fn new(previous: Option<String>, marker: String) -> (r: Self)
        ensures
            r.previous == previous,
            r.marker == marker,
            r.attempts_made == 0,
            r.phase is Start,
    {
        CopySession { previous, marker, attempts_made: 0, phase: CopyPhase::Start }
    }

    /// One step of copying the selection. The copy places the marker, lets
    /// it settle, then makes up to `COPY_ATTEMPTS` attempts: each sends the
    /// copy keys and reads the clipboard every `POLL_INTERVAL_MS` for
    /// `COPY_POLL_WINDOW_MS`, resting `ATTEMPT_REST_MS` after the window.
    /// The first read that `accept_copied_text` takes finishes the copy with
    /// that text; the last attempt's end finishes it with none; either way
    /// the earlier clipboard text is to be restored. An event that does not
    /// fit the phase finishes the copy with none.
    pub fn step(&mut self, event: CopyEvent) -> (action: CopyAction)
        ensures
            final(self).previous == old(self).previous,
            final(self).marker == old(self).marker,
            match (old(self).phase, event) {
                (CopyPhase::Start, CopyEvent::Begin) => (action matches CopyAction::PlaceMarker(m)
                    && m@ == old(self).marker@) && final(self).phase is Marking
                    && final(self).attempts_made == old(self).attempts_made,
                (CopyPhase::Marking, CopyEvent::MarkerPlaced) => (action matches CopyAction::Wait(
                    ms,
                ) && ms == MARKER_SETTLE_MS) && final(self).phase is Settling
                    && final(self).attempts_made == old(self).attempts_made,
                (CopyPhase::SendingKeys, CopyEvent::KeysSent(now)) => action is ReadClipboard
                    && final(self).phase == CopyPhase::Polling(now) && final(self).attempts_made
                    == old(self).attempts_made,
                (CopyPhase::Polling(start), CopyEvent::ClipboardRead(read, now)) => (match copied_text(
                    opt_view(read),
                    old(self).marker@,
                ) {
                    Some(t) => finishes_with(action, old(self).previous, Some(t))
                        && final(self).phase is Done,
                    None => (action matches CopyAction::Wait(ms) && ms == POLL_INTERVAL_MS)
                        && final(self).phase == CopyPhase::Polling(start),
                }) && final(self).attempts_made == old(self).attempts_made,
                (CopyPhase::Polling(start), CopyEvent::Waited(now)) => (if elapsed_since(now, start)
                    < COPY_POLL_WINDOW_MS {
                    action is ReadClipboard && final(self).phase == CopyPhase::Polling(start)
                } else {
                    (action matches CopyAction::Wait(ms) && ms == ATTEMPT_REST_MS)
                        && final(self).phase is Resting
                }) && final(self).attempts_made == old(self).attempts_made,
                (CopyPhase::Settling, CopyEvent::Waited(_)) | (
                    CopyPhase::Resting,
                    CopyEvent::Waited(_),
                ) => if old(self).attempts_made < COPY_ATTEMPTS {
                    action is SendCopyKeys && final(self).phase is SendingKeys
                        && final(self).attempts_made == old(self).attempts_made + 1
                } else {
                    finishes_with(action, old(self).previous, None) && final(self).phase is Done
                        && final(self).attempts_made == old(self).attempts_made
                },
                _ => finishes_with(action, old(self).previous, None) && final(self).phase is Done
                    && final(self).attempts_made == old(self).attempts_made,
            },
    {
        let phase = self.phase;
        self.phase = CopyPhase::Done;
        match (phase, event) {
            (CopyPhase::Start, CopyEvent::Begin) => {
                self.phase = CopyPhase::Marking;
                CopyAction::PlaceMarker(self.marker.clone())
            },
            (CopyPhase::Marking, CopyEvent::MarkerPlaced) => {
                self.phase = CopyPhase::Settling;
                CopyAction::Wait(MARKER_SETTLE_MS)
            },
            (CopyPhase::SendingKeys, CopyEvent::KeysSent(now)) => {
                self.phase = CopyPhase::Polling(now);
                CopyAction::ReadClipboard
            },
            (CopyPhase::Polling(start), CopyEvent::ClipboardRead(read, _now)) => {
                match accept_copied_text(read, self.marker.as_str()) {
                    Some(t) => CopyAction::Finish {
                        restore: copy_of(&self.previous),
                        copied: Some(t),
                    },
                    None => {
                        self.phase = CopyPhase::Polling(start);
                        CopyAction::Wait(POLL_INTERVAL_MS)
                    },
                }
            },
            (CopyPhase::Polling(start), CopyEvent::Waited(now)) => {
                let elapsed = if now >= start {
                    now - start
                } else {
                    0
                };
                if keep_polling(elapsed) {
                    self.phase = CopyPhase::Polling(start);
                    CopyAction::ReadClipboard
                } else {
                    self.phase = CopyPhase::Resting;
                    CopyAction::Wait(ATTEMPT_REST_MS)
                }
            },
            (CopyPhase::Settling, CopyEvent::Waited(_))
            | (CopyPhase::Resting, CopyEvent::Waited(_)) => {
                if may_attempt_copy(self.attempts_made) {
                    self.attempts_made = self.attempts_made + 1;
                    self.phase = CopyPhase::SendingKeys;
                    CopyAction::SendCopyKeys
                } else {
                    CopyAction::Finish { restore: copy_of(&self.previous), copied: None }
                }
            },
            _ => CopyAction::Finish { restore: copy_of(&self.previous), copied: None },
        }
    }
}

/// Milliseconds from `start` to `now` on a clock that does not go back.
pub open spec fn elapsed_since(now: u64, start: u64) -> int {
    if now >= start {
        now - start
    } else {
        0
    }
}

} // verus!
