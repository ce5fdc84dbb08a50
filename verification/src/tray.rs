//! The tray resident: its icon, its single-instance lock, and what hotkeys
//! and menu items set off.
use vstd::prelude::*;
use crate::instance::{instance_lock_outcome, InstanceLock};

verus! {

/// Milliseconds within which a second hotkey press is taken for a bounce.
pub const HOTKEY_BOUNCE_MS: u64 = 300;

/// Side of the tray icon in pixels.
pub const ICON_SIZE: usize = 16;

/// The name of the tray's single-instance mutex.
pub fn tray_lock_name() -> (r: String)
    ensures
        r@ == "QuickTranslateTraySingleton"@,
{
    String::from_str("QuickTranslateTraySingleton")
}

/// Decides the tray's single-instance lock from the outcome of creating its
/// mutex: a second tray instance gives way to the first.
pub fn acquire_tray_instance_lock(handle_is_null: bool, already_exists: bool) -> (r:
    InstanceLock)
    ensures
        handle_is_null ==> r is Unavailable,
        !handle_is_null && already_exists ==> r is AlreadyRunning,
        !handle_is_null && !already_exists ==> r is Held,
{
    instance_lock_outcome(handle_is_null, already_exists)
}

/// The pixels of the icon's "T": the bar (rows 2 to 4, columns 2 to 13) and
/// the stem (rows 5 to 13, columns 6 to 9).
pub open spec fn icon_pixel_on(x: int, y: int) -> bool {
    (2 <= y < 5 && 2 <= x < 14) || (5 <= y < 14 && 6 <= x < 10)
}

/// Channel `c` (red, green, blue, alpha) of the icon colour, cornflower blue
/// (100, 149, 237), opaque.
pub open spec fn icon_channel(c: int) -> u8 {
    if c == 0 {
        100
    } else if c == 1 {
        149
    } else if c == 2 {
        237
    } else {
        255
    }
}

/// Byte `i` of the icon's RGBA data, row by row: the colour where the "T"
/// is, transparent black elsewhere.
pub open spec fn icon_byte(i: int) -> u8 {
    let p = i / 4;
    if icon_pixel_on(p % 16, p / 16) {
        icon_channel(i % 4)
    } else {
        0
    }
}

/// The 16×16 RGBA data of the tray icon, a blue "T".
pub fn icon_rgba() -> (r: Vec<u8>)
    ensures
        r@.len() == 1024,
        forall|i: int| 0 <= i < 1024 ==> #[trigger] r@[i] == icon_byte(i),
{
    let color: [u8; 4] = [100, 149, 237, 255];
    let mut r: Vec<u8> = Vec::new();
    let mut p: usize = 0;
    while p < 256
        invariant
            p <= 256,
            color@ == seq![100u8, 149u8, 237u8, 255u8],
            r@.len() == 4 * p,
            forall|i: int| 0 <= i < 4 * p ==> #[trigger] r@[i] == icon_byte(i),
        decreases 256 - p,
    {
        let x = p % 16;
        let y = p / 16;
        let on = (2 <= y && y < 5 && 2 <= x && x < 14) || (5 <= y && y < 14 && 6 <= x && x < 10);
        let mut c: usize = 0;
        while c < 4
            invariant
                p < 256,
                c <= 4,
                x == p % 16,
                y == p / 16,
                on == icon_pixel_on(x as int, y as int),
                color@ == seq![100u8, 149u8, 237u8, 255u8],
                r@.len() == 4 * p + c,
                forall|i: int| 0 <= i < 4 * p + c ==> #[trigger] r@[i] == icon_byte(i),
            decreases 4 - c,
        {
            let b = if on {
                color[c]
            } else {
                0
            };
            proof {
                let i = 4 * p + c;
                assert(i / 4 == p as int);
                assert(i % 4 == c as int);
            }
            r.push(b);
            c = c + 1;
        }
        p = p + 1;
    }
    r
}

/// The hotkeys the tray listens for.
#[derive(Debug)]
pub enum Hotkey {
    /// Ctrl+Shift+T: open the input pop-up.
    Popup,
    /// Alt+Z: translate the selected text.
    Selection,
    /// Any other hotkey.
    Other,
}

/// The tray menu's items.
#[derive(Debug)]
pub enum MenuChoice {
    /// "Open the pop-up".
    OpenPopup,
    /// "Quit".
    Quit,
    /// Any other item.
    Other,
}

/// What the tray does next.
#[derive(Debug)]
pub enum TrayAction {
    /// Nothing.
    Ignore,
    /// Start the input pop-up in a process of its own.
    OpenPopup,
    /// Copy the selected text and translate it.
    TranslateSelection,
    /// Leave the message loop.
    Quit,
}

/// What the tray remembers between events: when the last hotkey press was
/// taken (`None`: none yet).
#[derive(Debug)]
pub struct TrayState {
    pub last_hotkey_ms: Option<u64>,
}

/// A press at `now` comes within the bounce time of the last press taken.
pub open spec fn is_bounce(last: Option<u64>, now: u64) -> bool {
    match last {
        Some(t) => now >= t && now - t < HOTKEY_BOUNCE_MS,
        None => false,
    }
}

/// Law: once a press at `t` is taken, any press less than the bounce time
/// later is a bounce, and any press at least that much later is not.
pub proof fn law_bounce_window(t: u64, now: u64)
    requires
        now >= t,
    ensures
        is_bounce(Some(t), now) <==> now - t < HOTKEY_BOUNCE_MS,
        !is_bounce(None, now),
{
}

impl TrayState {
    /// A tray that has taken no hotkey press yet.
    pub fn new() -> (r: Self)
        ensures
            r.last_hotkey_ms is None,
    {
        TrayState { last_hotkey_ms: None }
    }

    /// A hotkey press at `now_ms`: a bounce is ignored and not remembered;
    /// any other press is remembered and sets off its action.
    pub fn on_hotkey(&mut self, hotkey: Hotkey, now_ms: u64) -> (r: TrayAction)
        ensures
            is_bounce(old(self).last_hotkey_ms, now_ms) ==> (r is Ignore && final(self).last_hotkey_ms
                == old(self).last_hotkey_ms),
            !is_bounce(old(self).last_hotkey_ms, now_ms) ==> (final(self).last_hotkey_ms == Some(
                now_ms,
            ) && match hotkey {
                Hotkey::Popup => r is OpenPopup,
                Hotkey::Selection => r is TranslateSelection,
                Hotkey::Other => r is Ignore,
            }),
    {
        match self.last_hotkey_ms {
            Some(t) => {
                if now_ms >= t && now_ms - t < HOTKEY_BOUNCE_MS {
                    return TrayAction::Ignore;
                }
            },
            None => {},
        }
        self.last_hotkey_ms = Some(now_ms);
        match hotkey {
            Hotkey::Popup => TrayAction::OpenPopup,
            Hotkey::Selection => TrayAction::TranslateSelection,
            Hotkey::Other => TrayAction::Ignore,
        }
    }

    /// A menu item chosen.
    pub fn on_menu(&self, choice: MenuChoice) -> (r: TrayAction)
        ensures
            choice is OpenPopup ==> r is OpenPopup,
            choice is Quit ==> r is Quit,
            choice is Other ==> r is Ignore,
    {
        match choice {
            MenuChoice::OpenPopup => TrayAction::OpenPopup,
            MenuChoice::Quit => TrayAction::Quit,
            MenuChoice::Other => TrayAction::Ignore,
        }
    }
}

} // verus!
