//! Input event dispatch: the tagged event union of the TCP relay, the
//! per-server counters, the web-style key-code table, and the synthetic-input
//! sinks. This host has no synthetic-input backend, so every injection
//! attempt reports an error; counters still advance and the service goes on.

use crate::text::{str_eq_str, trim_spec, trim_str};
use vstd::prelude::*;
use vstd::string::*;

verus! {

/// `handle_input_event` asks for fewer than this many received events, so
/// that no counter it maintains can overflow a `u64`.
pub const EVENTS_LIMIT: u64 = 0x1000000000000;

/// An input event as the client-side control surface hands it over.
#[allow(non_snake_case)]
pub enum LanInputEvent {
    MouseMove { seq: u64, tsUs: u64, dx: i32, dy: i32 },
    MouseButton { seq: u64, tsUs: u64, button: u8, down: bool },
    MouseWheel { seq: u64, tsUs: u64, deltaX: i32, deltaY: i32 },
    Key {
        seq: u64,
        tsUs: u64,
        code: String,
        down: bool,
        ctrl: Option<bool>,
        alt: Option<bool>,
        shift: Option<bool>,
        meta: Option<bool>,
    },
    DisconnectHotkey { seq: u64, tsUs: u64 },
}

/// One line of the TCP input protocol, already decoded from JSON.
#[allow(non_snake_case)]
pub enum ClientMessage {
    Auth { token: String, sessionId: Option<String>, streamId: Option<String>, version: Option<
        u8,
    > },
    MouseMove { seq: u64, tsUs: u64, dx: i32, dy: i32 },
    MouseButton { seq: u64, tsUs: u64, button: u8, down: bool },
    MouseWheel { seq: u64, tsUs: u64, deltaX: i32, deltaY: i32 },
    Key {
        seq: u64,
        tsUs: u64,
        code: String,
        down: bool,
        ctrl: Option<bool>,
        alt: Option<bool>,
        shift: Option<bool>,
        meta: Option<bool>,
    },
    DisconnectHotkey { seq: u64, tsUs: u64 },
}

/// Aggregate input-server counters.
pub struct SharedServerStats {
    pub authenticated_clients: u64,
    pub auth_failures: u64,
    pub events_received: u64,
    pub events_injected: u64,
    pub events_dropped_rate: u64,
    pub events_dropped_inactive: u64,
    pub inject_errors: u64,
    pub mouse_moves: u64,
    pub mouse_buttons: u64,
    pub mouse_wheels: u64,
    pub key_events: u64,
    pub disconnect_hotkeys: u64,
}

impl SharedServerStats {
    /// Every event that reached the dispatcher ended in exactly one bucket:
    /// dropped for an inactive session, injected, or failed to inject; and no
    /// per-kind counter outruns the events received.
    pub open spec fn wf(&self) -> bool {
        &&& self.events_received == self.events_dropped_inactive + self.events_injected
            + self.inject_errors
        &&& self.mouse_moves <= self.events_received
        &&& self.mouse_buttons <= self.events_received
        &&& self.mouse_wheels <= self.events_received
        &&& self.key_events <= self.events_received
        &&& self.disconnect_hotkeys <= self.events_received
    }

    /// All counters start at zero.
    pub fn new() -> (r: SharedServerStats)
        ensures
            r.wf(),
            r.authenticated_clients == 0,
            r.auth_failures == 0,
            r.events_received == 0,
            r.events_injected == 0,
            r.events_dropped_rate == 0,
            r.events_dropped_inactive == 0,
            r.inject_errors == 0,
            r.mouse_moves == 0,
            r.mouse_buttons == 0,
            r.mouse_wheels == 0,
            r.key_events == 0,
            r.disconnect_hotkeys == 0,
    {
        SharedServerStats {
            authenticated_clients: 0,
            auth_failures: 0,
            events_received: 0,
            events_injected: 0,
            events_dropped_rate: 0,
            events_dropped_inactive: 0,
            inject_errors: 0,
            mouse_moves: 0,
            mouse_buttons: 0,
            mouse_wheels: 0,
            key_events: 0,
            disconnect_hotkeys: 0,
        }
    }
}

/// Inject a relative mouse motion. This host has no synthetic-input backend:
/// the attempt always reports an error and injects nothing.
pub fn inject_mouse_move(dx: i32, dy: i32) -> (r: Result<(), String>)
    ensures
        r matches Err(m) && m@ == "SendInput disponivel apenas no Windows."@,
{
    Err(String::from_str("SendInput disponivel apenas no Windows."))
}

/// Inject a mouse button press or release. This host has no synthetic-input
/// backend: the attempt always reports an error and injects nothing.
pub fn inject_mouse_button(button: u8, down: bool) -> (r: Result<(), String>)
    ensures
        r matches Err(m) && m@ == "SendInput disponivel apenas no Windows."@,
{
    Err(String::from_str("SendInput disponivel apenas no Windows."))
}

/// Inject wheel motion. This host has no synthetic-input backend: the attempt
/// always reports an error and injects nothing.
pub fn inject_mouse_wheel(delta_x: i32, delta_y: i32) -> (r: Result<(), String>)
    ensures
        r matches Err(m) && m@ == "SendInput disponivel apenas no Windows."@,
{
    Err(String::from_str("SendInput disponivel apenas no Windows."))
}

/// Inject a key press or release. This host has no synthetic-input backend:
/// the attempt always reports an error and injects nothing.
pub fn inject_key(code: &str, down: bool) -> (r: Result<(), String>)
    ensures
        r matches Err(m) && m@ == "SendInput disponivel apenas no Windows."@,
{
    Err(String::from_str("SendInput disponivel apenas no Windows."))
}

/// `x` forced into `[lo, hi]`.
pub open spec fn clamp_i32_spec(x: i32, lo: i32, hi: i32) -> i32 {
    if x < lo {
        lo
    } else if x > hi {
        hi
    } else {
        x
    }
}

/// `x` forced into `[lo, hi]`.
pub fn clamp_i32(x: i32, lo: i32, hi: i32) -> (r: i32)
    requires
        lo <= hi,
    ensures
        r == clamp_i32_spec(x, lo, hi),
{
    if x < lo {
        lo
    } else if x > hi {
        hi
    } else {
        x
    }
}

/// The virtual-key table the clients depend on: `KeyA..KeyZ` map to the
/// ASCII uppercase letters, `Digit0..Digit9` to the ASCII digits, and a named
/// table covers the control, navigation, arrow, modifier and function keys.
/// Anything else maps to nothing and is a no-op on injection.
pub open spec fn spec_map_code_to_vk(code: Seq<char>) -> Option<u16> {
    let t = trim_spec(code);
    if t.len() == 4 && t[0] == 'K' && t[1] == 'e' && t[2] == 'y' && 65 <= t[3] as u32 && t[3] as u32
        <= 90 {
        Some((t[3] as u32) as u16)
    } else if t.len() == 6 && t[0] == 'D' && t[1] == 'i' && t[2] == 'g' && t[3] == 'i' && t[4]
        == 't' && 48 <= t[5] as u32 && t[5] as u32 <= 57 {
        Some((t[5] as u32) as u16)
    } else if t == "Escape"@ {
        Some(27u16)
    } else if t == "Enter"@ {
        Some(13u16)
    } else if t == "Backspace"@ {
        Some(8u16)
    } else if t == "Tab"@ {
        Some(9u16)
    } else if t == "Space"@ {
        Some(32u16)
    } else if t == "ArrowUp"@ {
        Some(38u16)
    } else if t == "ArrowDown"@ {
        Some(40u16)
    } else if t == "ArrowLeft"@ {
        Some(37u16)
    } else if t == "ArrowRight"@ {
        Some(39u16)
    } else if t == "Home"@ {
        Some(36u16)
    } else if t == "End"@ {
        Some(35u16)
    } else if t == "PageUp"@ {
        Some(33u16)
    } else if t == "PageDown"@ {
        Some(34u16)
    } else if t == "Insert"@ {
        Some(45u16)
    } else if t == "Delete"@ {
        Some(46u16)
    } else if t == "ShiftLeft"@ || t == "ShiftRight"@ {
        Some(16u16)
    } else if t == "ControlLeft"@ || t == "ControlRight"@ {
        Some(17u16)
    } else if t == "AltLeft"@ || t == "AltRight"@ {
        Some(18u16)
    } else if t == "F1"@ {
        Some(112u16)
    } else if t == "F2"@ {
        Some(113u16)
    } else if t == "F3"@ {
        Some(114u16)
    } else if t == "F4"@ {
        Some(115u16)
    } else if t == "F5"@ {
        Some(116u16)
    } else if t == "F6"@ {
        Some(117u16)
    } else if t == "F7"@ {
        Some(118u16)
    } else if t == "F8"@ {
        Some(119u16)
    } else if t == "F9"@ {
        Some(120u16)
    } else if t == "F10"@ {
        Some(121u16)
    } else if t == "F11"@ {
        Some(122u16)
    } else if t == "F12"@ {
        Some(123u16)
    } else {
        None
    }
}

/// Translate a web-style key code to the virtual-key value of the table that
/// clients depend on.
pub fn map_code_to_vk(code: &str) -> (r: Option<u16>)
    ensures
        r == spec_map_code_to_vk(code@),
{
    let trimmed = trim_str(code);
    let s = trimmed.as_str();
    let n = s.unicode_len();
    if n == 4 && s.get_char(0) == 'K' && s.get_char(1) == 'e' && s.get_char(2) == 'y' {
        let u = s.get_char(3) as u32;
        if 65 <= u && u <= 90 {
            return Some(u as u16);
        }
    }
    if n == 6 && s.get_char(0) == 'D' && s.get_char(1) == 'i' && s.get_char(2) == 'g' && s.get_char(
        3,
    ) == 'i' && s.get_char(4) == 't' {
        let u = s.get_char(5) as u32;
        if 48 <= u && u <= 57 {
            return Some(u as u16);
        }
    }
    if str_eq_str(s, "Escape") {
        Some(27)
    } else if str_eq_str(s, "Enter") {
        Some(13)
    } else if str_eq_str(s, "Backspace") {
        Some(8)
    } else if str_eq_str(s, "Tab") {
        Some(9)
    } else if str_eq_str(s, "Space") {
        Some(32)
    } else if str_eq_str(s, "ArrowUp") {
        Some(38)
    } else if str_eq_str(s, "ArrowDown") {
        Some(40)
    } else if str_eq_str(s, "ArrowLeft") {
        Some(37)
    } else if str_eq_str(s, "ArrowRight") {
        Some(39)
    } else if str_eq_str(s, "Home") {
        Some(36)
    } else if str_eq_str(s, "End") {
        Some(35)
    } else if str_eq_str(s, "PageUp") {
        Some(33)
    } else if str_eq_str(s, "PageDown") {
        Some(34)
    } else if str_eq_str(s, "Insert") {
        Some(45)
    } else if str_eq_str(s, "Delete") {
        Some(46)
    } else if str_eq_str(s, "ShiftLeft") || str_eq_str(s, "ShiftRight") {
        Some(16)
    } else if str_eq_str(s, "ControlLeft") || str_eq_str(s, "ControlRight") {
        Some(17)
    } else if str_eq_str(s, "AltLeft") || str_eq_str(s, "AltRight") {
        Some(18)
    } else if str_eq_str(s, "F1") {
        Some(112)
    } else if str_eq_str(s, "F2") {
        Some(113)
    } else if str_eq_str(s, "F3") {
        Some(114)
    } else if str_eq_str(s, "F4") {
        Some(115)
    } else if str_eq_str(s, "F5") {
        Some(116)
    } else if str_eq_str(s, "F6") {
        Some(117)
    } else if str_eq_str(s, "F7") {
        Some(118)
    } else if str_eq_str(s, "F8") {
        Some(119)
    } else if str_eq_str(s, "F9") {
        Some(120)
    } else if str_eq_str(s, "F10") {
        Some(121)
    } else if str_eq_str(s, "F11") {
        Some(122)
    } else if str_eq_str(s, "F12") {
        Some(123)
    } else {
        None
    }
}

/// Dispatch one authenticated, rate-admitted event. The event is always
/// counted; with the session inactive it is dropped without touching any
/// injector; otherwise its kind is counted, its parameters are clamped, and
/// the injection outcome lands in `events_injected` or `inject_errors` (on
/// this host every attempted injection fails; a disconnect hotkey or a stray
/// auth message injects nothing and counts as success).
pub fn handle_input_event(event: ClientMessage, session_active: bool, stats: &mut SharedServerStats)
    requires
        old(stats).wf(),
        old(stats).events_received < EVENTS_LIMIT,
    ensures
        final(stats).wf(),
        final(stats).events_received == old(stats).events_received + 1,
        final(stats).authenticated_clients == old(stats).authenticated_clients,
        final(stats).auth_failures == old(stats).auth_failures,
        final(stats).events_dropped_rate == old(stats).events_dropped_rate,
        !session_active ==> {
            &&& final(stats).events_dropped_inactive == old(stats).events_dropped_inactive + 1
            &&& final(stats).events_injected == old(stats).events_injected
            &&& final(stats).inject_errors == old(stats).inject_errors
            &&& final(stats).mouse_moves == old(stats).mouse_moves
            &&& final(stats).mouse_buttons == old(stats).mouse_buttons
            &&& final(stats).mouse_wheels == old(stats).mouse_wheels
            &&& final(stats).key_events == old(stats).key_events
            &&& final(stats).disconnect_hotkeys == old(stats).disconnect_hotkeys
        },
        session_active ==> {
            &&& final(stats).events_dropped_inactive == old(stats).events_dropped_inactive
            &&& final(stats).mouse_moves == old(stats).mouse_moves + (if event is MouseMove {
                1int
            } else {
                0int
            })
            &&& final(stats).mouse_buttons == old(stats).mouse_buttons + (if event is MouseButton {
                1int
            } else {
                0int
            })
            &&& final(stats).mouse_wheels == old(stats).mouse_wheels + (if event is MouseWheel {
                1int
            } else {
                0int
            })
            &&& final(stats).key_events == old(stats).key_events + (if event is Key {
                1int
            } else {
                0int
            })
            &&& final(stats).disconnect_hotkeys == old(stats).disconnect_hotkeys + (if event
                is DisconnectHotkey {
                1int
            } else {
                0int
            })
            &&& (event is DisconnectHotkey || event is Auth ==> final(stats).events_injected == old(
                stats,
            ).events_injected + 1 && final(stats).inject_errors == old(stats).inject_errors)
            &&& (!(event is DisconnectHotkey || event is Auth) ==> final(stats).inject_errors
                == old(stats).inject_errors + 1 && final(stats).events_injected == old(
                stats,
            ).events_injected)
        },
{
    stats.events_received = stats.events_received + 1;

    if !session_active {
        stats.events_dropped_inactive = stats.events_dropped_inactive + 1;
        return ;
    }

    let injected: Result<(), String> = match event {
        ClientMessage::MouseMove { dx, dy, .. } => {
            stats.mouse_moves = stats.mouse_moves + 1;
            inject_mouse_move(clamp_i32(dx, -300, 300), clamp_i32(dy, -300, 300))
        },
        ClientMessage::MouseButton { button, down, .. } => {
            stats.mouse_buttons = stats.mouse_buttons + 1;
            inject_mouse_button(button, down)
        },
        ClientMessage::MouseWheel { deltaX, deltaY, .. } => {
            stats.mouse_wheels = stats.mouse_wheels + 1;
            inject_mouse_wheel(clamp_i32(deltaX, -960, 960), clamp_i32(deltaY, -960, 960))
        },
        ClientMessage::Key { code, down, .. } => {
            stats.key_events = stats.key_events + 1;
            inject_key(code.as_str(), down)
        },
        ClientMessage::DisconnectHotkey { .. } => {
            stats.disconnect_hotkeys = stats.disconnect_hotkeys + 1;
            Ok(())
        },
        ClientMessage::Auth { .. } => Ok(()),
    };

    match injected {
        Ok(_) => {
            stats.events_injected = stats.events_injected + 1;
        },
        Err(_) => {
            stats.inject_errors = stats.inject_errors + 1;
        },
    }
}

} // verus!
