//! Key names and scan codes.
//!
//! A key travels as its DOM `KeyboardEvent.code`, the physical key whatever
//! the layout, and is injected by its Set-1 scan code.

use vstd::prelude::*;

use crate::text::same_text;

verus! {

/// A Set-1 scan code and whether it is an extended key, prefixed with 0xE0 on
/// the wire.
#[derive(Debug, Clone, Copy, PartialEq, Eq, Structural)]
pub struct ScanCode {
    pub sc: u16,
    pub ext: bool,
}

/// The scan code of a key name; `None` for keys that are not supported.
pub open spec fn scan_code(code: Seq<char>) -> Option<ScanCode> {
    if code == "Escape"@ {
        Some(ScanCode { sc: 0x01, ext: false })
    } else if code == "Digit1"@ {
        Some(ScanCode { sc: 0x02, ext: false })
    } else if code == "Digit2"@ {
        Some(ScanCode { sc: 0x03, ext: false })
    } else if code == "Digit3"@ {
        Some(ScanCode { sc: 0x04, ext: false })
    } else if code == "Digit4"@ {
        Some(ScanCode { sc: 0x05, ext: false })
    } else if code == "Digit5"@ {
        Some(ScanCode { sc: 0x06, ext: false })
    } else if code == "Digit6"@ {
        Some(ScanCode { sc: 0x07, ext: false })
    } else if code == "Digit7"@ {
        Some(ScanCode { sc: 0x08, ext: false })
    } else if code == "Digit8"@ {
        Some(ScanCode { sc: 0x09, ext: false })
    } else if code == "Digit9"@ {
        Some(ScanCode { sc: 0x0a, ext: false })
    } else if code == "Digit0"@ {
        Some(ScanCode { sc: 0x0b, ext: false })
    } else if code == "Minus"@ {
        Some(ScanCode { sc: 0x0c, ext: false })
    } else if code == "Equal"@ {
        Some(ScanCode { sc: 0x0d, ext: false })
    } else if code == "Backspace"@ {
        Some(ScanCode { sc: 0x0e, ext: false })
    } else if code == "Tab"@ {
        Some(ScanCode { sc: 0x0f, ext: false })
    } else if code == "KeyQ"@ {
        Some(ScanCode { sc: 0x10, ext: false })
    } else if code == "KeyW"@ {
        Some(ScanCode { sc: 0x11, ext: false })
    } else if code == "KeyE"@ {
        Some(ScanCode { sc: 0x12, ext: false })
    } else if code == "KeyR"@ {
        Some(ScanCode { sc: 0x13, ext: false })
    } else if code == "KeyT"@ {
        Some(ScanCode { sc: 0x14, ext: false })
    } else if code == "KeyY"@ {
        Some(ScanCode { sc: 0x15, ext: false })
    } else if code == "KeyU"@ {
        Some(ScanCode { sc: 0x16, ext: false })
    } else if code == "KeyI"@ {
        Some(ScanCode { sc: 0x17, ext: false })
    } else if code == "KeyO"@ {
        Some(ScanCode { sc: 0x18, ext: false })
    } else if code == "KeyP"@ {
        Some(ScanCode { sc: 0x19, ext: false })
    } else if code == "BracketLeft"@ {
        Some(ScanCode { sc: 0x1a, ext: false })
    } else if code == "BracketRight"@ {
        Some(ScanCode { sc: 0x1b, ext: false })
    } else if code == "Enter"@ {
        Some(ScanCode { sc: 0x1c, ext: false })
    } else if code == "ControlLeft"@ {
        Some(ScanCode { sc: 0x1d, ext: false })
    } else if code == "KeyA"@ {
        Some(ScanCode { sc: 0x1e, ext: false })
    } else if code == "KeyS"@ {
        Some(ScanCode { sc: 0x1f, ext: false })
    } else if code == "KeyD"@ {
        Some(ScanCode { sc: 0x20, ext: false })
    } else if code == "KeyF"@ {
        Some(ScanCode { sc: 0x21, ext: false })
    } else if code == "KeyG"@ {
        Some(ScanCode { sc: 0x22, ext: false })
    } else if code == "KeyH"@ {
        Some(ScanCode { sc: 0x23, ext: false })
    } else if code == "KeyJ"@ {
        Some(ScanCode { sc: 0x24, ext: false })
    } else if code == "KeyK"@ {
        Some(ScanCode { sc: 0x25, ext: false })
    } else if code == "KeyL"@ {
        Some(ScanCode { sc: 0x26, ext: false })
    } else if code == "Semicolon"@ {
        Some(ScanCode { sc: 0x27, ext: false })
    } else if code == "Quote"@ {
        Some(ScanCode { sc: 0x28, ext: false })
    } else if code == "Backquote"@ {
        Some(ScanCode { sc: 0x29, ext: false })
    } else if code == "ShiftLeft"@ {
        Some(ScanCode { sc: 0x2a, ext: false })
    } else if code == "Backslash"@ {
        Some(ScanCode { sc: 0x2b, ext: false })
    } else if code == "KeyZ"@ {
        Some(ScanCode { sc: 0x2c, ext: false })
    } else if code == "KeyX"@ {
        Some(ScanCode { sc: 0x2d, ext: false })
    } else if code == "KeyC"@ {
        Some(ScanCode { sc: 0x2e, ext: false })
    } else if code == "KeyV"@ {
        Some(ScanCode { sc: 0x2f, ext: false })
    } else if code == "KeyB"@ {
        Some(ScanCode { sc: 0x30, ext: false })
    } else if code == "KeyN"@ {
        Some(ScanCode { sc: 0x31, ext: false })
    } else if code == "KeyM"@ {
        Some(ScanCode { sc: 0x32, ext: false })
    } else if code == "Comma"@ {
        Some(ScanCode { sc: 0x33, ext: false })
    } else if code == "Period"@ {
        Some(ScanCode { sc: 0x34, ext: false })
    } else if code == "Slash"@ {
        Some(ScanCode { sc: 0x35, ext: false })
    } else if code == "ShiftRight"@ {
        Some(ScanCode { sc: 0x36, ext: false })
    } else if code == "NumpadMultiply"@ {
        Some(ScanCode { sc: 0x37, ext: false })
    } else if code == "AltLeft"@ {
        Some(ScanCode { sc: 0x38, ext: false })
    } else if code == "Space"@ {
        Some(ScanCode { sc: 0x39, ext: false })
    } else if code == "CapsLock"@ {
        Some(ScanCode { sc: 0x3a, ext: false })
    } else if code == "F1"@ {
        Some(ScanCode { sc: 0x3b, ext: false })
    } else if code == "F2"@ {
        Some(ScanCode { sc: 0x3c, ext: false })
    } else if code == "F3"@ {
        Some(ScanCode { sc: 0x3d, ext: false })
    } else if code == "F4"@ {
        Some(ScanCode { sc: 0x3e, ext: false })
    } else if code == "F5"@ {
        Some(ScanCode { sc: 0x3f, ext: false })
    } else if code == "F6"@ {
        Some(ScanCode { sc: 0x40, ext: false })
    } else if code == "F7"@ {
        Some(ScanCode { sc: 0x41, ext: false })
    } else if code == "F8"@ {
        Some(ScanCode { sc: 0x42, ext: false })
    } else if code == "F9"@ {
        Some(ScanCode { sc: 0x43, ext: false })
    } else if code == "F10"@ {
        Some(ScanCode { sc: 0x44, ext: false })
    } else if code == "NumLock"@ {
        Some(ScanCode { sc: 0x45, ext: false })
    } else if code == "ScrollLock"@ {
        Some(ScanCode { sc: 0x46, ext: false })
    } else if code == "Numpad7"@ {
        Some(ScanCode { sc: 0x47, ext: false })
    } else if code == "Numpad8"@ {
        Some(ScanCode { sc: 0x48, ext: false })
    } else if code == "Numpad9"@ {
        Some(ScanCode { sc: 0x49, ext: false })
    } else if code == "NumpadSubtract"@ {
        Some(ScanCode { sc: 0x4a, ext: false })
    } else if code == "Numpad4"@ {
        Some(ScanCode { sc: 0x4b, ext: false })
    } else if code == "Numpad5"@ {
        Some(ScanCode { sc: 0x4c, ext: false })
    } else if code == "Numpad6"@ {
        Some(ScanCode { sc: 0x4d, ext: false })
    } else if code == "NumpadAdd"@ {
        Some(ScanCode { sc: 0x4e, ext: false })
    } else if code == "Numpad1"@ {
        Some(ScanCode { sc: 0x4f, ext: false })
    } else if code == "Numpad2"@ {
        Some(ScanCode { sc: 0x50, ext: false })
    } else if code == "Numpad3"@ {
        Some(ScanCode { sc: 0x51, ext: false })
    } else if code == "Numpad0"@ {
        Some(ScanCode { sc: 0x52, ext: false })
    } else if code == "NumpadDecimal"@ {
        Some(ScanCode { sc: 0x53, ext: false })
    } else if code == "IntlBackslash"@ {
        Some(ScanCode { sc: 0x56, ext: false })
    } else if code == "F11"@ {
        Some(ScanCode { sc: 0x57, ext: false })
    } else if code == "F12"@ {
        Some(ScanCode { sc: 0x58, ext: false })
    } else if code == "NumpadEnter"@ {
        Some(ScanCode { sc: 0x1c, ext: true })
    } else if code == "ControlRight"@ {
        Some(ScanCode { sc: 0x1d, ext: true })
    } else if code == "NumpadDivide"@ {
        Some(ScanCode { sc: 0x35, ext: true })
    } else if code == "AltRight"@ {
        Some(ScanCode { sc: 0x38, ext: true })
    } else if code == "Home"@ {
        Some(ScanCode { sc: 0x47, ext: true })
    } else if code == "ArrowUp"@ {
        Some(ScanCode { sc: 0x48, ext: true })
    } else if code == "PageUp"@ {
        Some(ScanCode { sc: 0x49, ext: true })
    } else if code == "ArrowLeft"@ {
        Some(ScanCode { sc: 0x4b, ext: true })
    } else if code == "ArrowRight"@ {
        Some(ScanCode { sc: 0x4d, ext: true })
    } else if code == "End"@ {
        Some(ScanCode { sc: 0x4f, ext: true })
    } else if code == "ArrowDown"@ {
        Some(ScanCode { sc: 0x50, ext: true })
    } else if code == "PageDown"@ {
        Some(ScanCode { sc: 0x51, ext: true })
    } else if code == "Insert"@ {
        Some(ScanCode { sc: 0x52, ext: true })
    } else if code == "Delete"@ {
        Some(ScanCode { sc: 0x53, ext: true })
    } else if code == "MetaLeft"@ {
        Some(ScanCode { sc: 0x5b, ext: true })
    } else if code == "MetaRight"@ {
        Some(ScanCode { sc: 0x5c, ext: true })
    } else if code == "ContextMenu"@ {
        Some(ScanCode { sc: 0x5d, ext: true })
    } else if code == "PrintScreen"@ {
        Some(ScanCode { sc: 0x37, ext: true })
    } else {
        None
    }
}

/// The key name of a scan code.
pub open spec fn key_name(sc: u16, ext: bool) -> Option<Seq<char>> {
    if ext {
        if sc == 0x1c {
            Some("NumpadEnter"@)
        } else if sc == 0x1d {
            Some("ControlRight"@)
        } else if sc == 0x35 {
            Some("NumpadDivide"@)
        } else if sc == 0x37 {
            Some("PrintScreen"@)
        } else if sc == 0x38 {
            Some("AltRight"@)
        } else if sc == 0x47 {
            Some("Home"@)
        } else if sc == 0x48 {
            Some("ArrowUp"@)
        } else if sc == 0x49 {
            Some("PageUp"@)
        } else if sc == 0x4b {
            Some("ArrowLeft"@)
        } else if sc == 0x4d {
            Some("ArrowRight"@)
        } else if sc == 0x4f {
            Some("End"@)
        } else if sc == 0x50 {
            Some("ArrowDown"@)
        } else if sc == 0x51 {
            Some("PageDown"@)
        } else if sc == 0x52 {
            Some("Insert"@)
        } else if sc == 0x53 {
            Some("Delete"@)
        } else if sc == 0x5b {
            Some("MetaLeft"@)
        } else if sc == 0x5c {
            Some("MetaRight"@)
        } else if sc == 0x5d {
            Some("ContextMenu"@)
        } else {
            None
        }
    } else {
        if sc == 0x01 {
            Some("Escape"@)
        } else if sc == 0x02 {
            Some("Digit1"@)
        } else if sc == 0x03 {
            Some("Digit2"@)
        } else if sc == 0x04 {
            Some("Digit3"@)
        } else if sc == 0x05 {
            Some("Digit4"@)
        } else if sc == 0x06 {
            Some("Digit5"@)
        } else if sc == 0x07 {
            Some("Digit6"@)
        } else if sc == 0x08 {
            Some("Digit7"@)
        } else if sc == 0x09 {
            Some("Digit8"@)
        } else if sc == 0x0a {
            Some("Digit9"@)
        } else if sc == 0x0b {
            Some("Digit0"@)
        } else if sc == 0x0c {
            Some("Minus"@)
        } else if sc == 0x0d {
            Some("Equal"@)
        } else if sc == 0x0e {
            Some("Backspace"@)
        } else if sc == 0x0f {
            Some("Tab"@)
        } else if sc == 0x10 {
            Some("KeyQ"@)
        } else if sc == 0x11 {
            Some("KeyW"@)
        } else if sc == 0x12 {
            Some("KeyE"@)
        } else if sc == 0x13 {
            Some("KeyR"@)
        } else if sc == 0x14 {
            Some("KeyT"@)
        } else if sc == 0x15 {
            Some("KeyY"@)
        } else if sc == 0x16 {
            Some("KeyU"@)
        } else if sc == 0x17 {
            Some("KeyI"@)
        } else if sc == 0x18 {
            Some("KeyO"@)
        } else if sc == 0x19 {
            Some("KeyP"@)
        } else if sc == 0x1a {
            Some("BracketLeft"@)
        } else if sc == 0x1b {
            Some("BracketRight"@)
        } else if sc == 0x1c {
            Some("Enter"@)
        } else if sc == 0x1d {
            Some("ControlLeft"@)
        } else if sc == 0x1e {
            Some("KeyA"@)
        } else if sc == 0x1f {
            Some("KeyS"@)
        } else if sc == 0x20 {
            Some("KeyD"@)
        } else if sc == 0x21 {
            Some("KeyF"@)
        } else if sc == 0x22 {
            Some("KeyG"@)
        } else if sc == 0x23 {
            Some("KeyH"@)
        } else if sc == 0x24 {
            Some("KeyJ"@)
        } else if sc == 0x25 {
            Some("KeyK"@)
        } else if sc == 0x26 {
            Some("KeyL"@)
        } else if sc == 0x27 {
            Some("Semicolon"@)
        } else if sc == 0x28 {
            Some("Quote"@)
        } else if sc == 0x29 {
            Some("Backquote"@)
        } else if sc == 0x2a {
            Some("ShiftLeft"@)
        } else if sc == 0x2b {
            Some("Backslash"@)
        } else if sc == 0x2c {
            Some("KeyZ"@)
        } else if sc == 0x2d {
            Some("KeyX"@)
        } else if sc == 0x2e {
            Some("KeyC"@)
        } else if sc == 0x2f {
            Some("KeyV"@)
        } else if sc == 0x30 {
            Some("KeyB"@)
        } else if sc == 0x31 {
            Some("KeyN"@)
        } else if sc == 0x32 {
            Some("KeyM"@)
        } else if sc == 0x33 {
            Some("Comma"@)
        } else if sc == 0x34 {
            Some("Period"@)
        } else if sc == 0x35 {
            Some("Slash"@)
        } else if sc == 0x36 {
            Some("ShiftRight"@)
        } else if sc == 0x37 {
            Some("NumpadMultiply"@)
        } else if sc == 0x38 {
            Some("AltLeft"@)
        } else if sc == 0x39 {
            Some("Space"@)
        } else if sc == 0x3a {
            Some("CapsLock"@)
        } else if sc == 0x3b {
            Some("F1"@)
        } else if sc == 0x3c {
            Some("F2"@)
        } else if sc == 0x3d {
            Some("F3"@)
        } else if sc == 0x3e {
            Some("F4"@)
        } else if sc == 0x3f {
            Some("F5"@)
        } else if sc == 0x40 {
            Some("F6"@)
        } else if sc == 0x41 {
            Some("F7"@)
        } else if sc == 0x42 {
            Some("F8"@)
        } else if sc == 0x43 {
            Some("F9"@)
        } else if sc == 0x44 {
            Some("F10"@)
        } else if sc == 0x45 {
            Some("NumLock"@)
        } else if sc == 0x46 {
            Some("ScrollLock"@)
        } else if sc == 0x47 {
            Some("Numpad7"@)
        } else if sc == 0x48 {
            Some("Numpad8"@)
        } else if sc == 0x49 {
            Some("Numpad9"@)
        } else if sc == 0x4a {
            Some("NumpadSubtract"@)
        } else if sc == 0x4b {
            Some("Numpad4"@)
        } else if sc == 0x4c {
            Some("Numpad5"@)
        } else if sc == 0x4d {
            Some("Numpad6"@)
        } else if sc == 0x4e {
            Some("NumpadAdd"@)
        } else if sc == 0x4f {
            Some("Numpad1"@)
        } else if sc == 0x50 {
            Some("Numpad2"@)
        } else if sc == 0x51 {
            Some("Numpad3"@)
        } else if sc == 0x52 {
            Some("Numpad0"@)
        } else if sc == 0x53 {
            Some("NumpadDecimal"@)
        } else if sc == 0x56 {
            Some("IntlBackslash"@)
        } else if sc == 0x57 {
            Some("F11"@)
        } else if sc == 0x58 {
            Some("F12"@)
        } else {
            None
        }
    }
}

/// Resolves a key name to a scan code, or to `None` for keys that are
/// deliberately not supported (Pause, media keys) and for unknown names.
pub fn lookup(code: &str) -> (r: Option<ScanCode>)
    ensures
        r == scan_code(code@),
{
    if same_text(code, "Escape") {
        Some(ScanCode { sc: 0x01, ext: false })
    } else if same_text(code, "Digit1") {
        Some(ScanCode { sc: 0x02, ext: false })
    } else if same_text(code, "Digit2") {
        Some(ScanCode { sc: 0x03, ext: false })
    } else if same_text(code, "Digit3") {
        Some(ScanCode { sc: 0x04, ext: false })
    } else if same_text(code, "Digit4") {
        Some(ScanCode { sc: 0x05, ext: false })
    } else if same_text(code, "Digit5") {
        Some(ScanCode { sc: 0x06, ext: false })
    } else if same_text(code, "Digit6") {
        Some(ScanCode { sc: 0x07, ext: false })
    } else if same_text(code, "Digit7") {
        Some(ScanCode { sc: 0x08, ext: false })
    } else if same_text(code, "Digit8") {
        Some(ScanCode { sc: 0x09, ext: false })
    } else if same_text(code, "Digit9") {
        Some(ScanCode { sc: 0x0a, ext: false })
    } else if same_text(code, "Digit0") {
        Some(ScanCode { sc: 0x0b, ext: false })
    } else if same_text(code, "Minus") {
        Some(ScanCode { sc: 0x0c, ext: false })
    } else if same_text(code, "Equal") {
        Some(ScanCode { sc: 0x0d, ext: false })
    } else if same_text(code, "Backspace") {
        Some(ScanCode { sc: 0x0e, ext: false })
    } else if same_text(code, "Tab") {
        Some(ScanCode { sc: 0x0f, ext: false })
    } else if same_text(code, "KeyQ") {
        Some(ScanCode { sc: 0x10, ext: false })
    } else if same_text(code, "KeyW") {
        Some(ScanCode { sc: 0x11, ext: false })
    } else if same_text(code, "KeyE") {
        Some(ScanCode { sc: 0x12, ext: false })
    } else if same_text(code, "KeyR") {
        Some(ScanCode { sc: 0x13, ext: false })
    } else if same_text(code, "KeyT") {
        Some(ScanCode { sc: 0x14, ext: false })
    } else if same_text(code, "KeyY") {
        Some(ScanCode { sc: 0x15, ext: false })
    } else if same_text(code, "KeyU") {
        Some(ScanCode { sc: 0x16, ext: false })
    } else if same_text(code, "KeyI") {
        Some(ScanCode { sc: 0x17, ext: false })
    } else if same_text(code, "KeyO") {
        Some(ScanCode { sc: 0x18, ext: false })
    } else if same_text(code, "KeyP") {
        Some(ScanCode { sc: 0x19, ext: false })
    } else if same_text(code, "BracketLeft") {
        Some(ScanCode { sc: 0x1a, ext: false })
    } else if same_text(code, "BracketRight") {
        Some(ScanCode { sc: 0x1b, ext: false })
    } else if same_text(code, "Enter") {
        Some(ScanCode { sc: 0x1c, ext: false })
    } else if same_text(code, "ControlLeft") {
        Some(ScanCode { sc: 0x1d, ext: false })
    } else if same_text(code, "KeyA") {
        Some(ScanCode { sc: 0x1e, ext: false })
    } else if same_text(code, "KeyS") {
        Some(ScanCode { sc: 0x1f, ext: false })
    } else if same_text(code, "KeyD") {
        Some(ScanCode { sc: 0x20, ext: false })
    } else if same_text(code, "KeyF") {
        Some(ScanCode { sc: 0x21, ext: false })
    } else if same_text(code, "KeyG") {
        Some(ScanCode { sc: 0x22, ext: false })
    } else if same_text(code, "KeyH") {
        Some(ScanCode { sc: 0x23, ext: false })
    } else if same_text(code, "KeyJ") {
        Some(ScanCode { sc: 0x24, ext: false })
    } else if same_text(code, "KeyK") {
        Some(ScanCode { sc: 0x25, ext: false })
    } else if same_text(code, "KeyL") {
        Some(ScanCode { sc: 0x26, ext: false })
    } else if same_text(code, "Semicolon") {
        Some(ScanCode { sc: 0x27, ext: false })
    } else if same_text(code, "Quote") {
        Some(ScanCode { sc: 0x28, ext: false })
    } else if same_text(code, "Backquote") {
        Some(ScanCode { sc: 0x29, ext: false })
    } else if same_text(code, "ShiftLeft") {
        Some(ScanCode { sc: 0x2a, ext: false })
    } else if same_text(code, "Backslash") {
        Some(ScanCode { sc: 0x2b, ext: false })
    } else if same_text(code, "KeyZ") {
        Some(ScanCode { sc: 0x2c, ext: false })
    } else if same_text(code, "KeyX") {
        Some(ScanCode { sc: 0x2d, ext: false })
    } else if same_text(code, "KeyC") {
        Some(ScanCode { sc: 0x2e, ext: false })
    } else if same_text(code, "KeyV") {
        Some(ScanCode { sc: 0x2f, ext: false })
    } else if same_text(code, "KeyB") {
        Some(ScanCode { sc: 0x30, ext: false })
    } else if same_text(code, "KeyN") {
        Some(ScanCode { sc: 0x31, ext: false })
    } else if same_text(code, "KeyM") {
        Some(ScanCode { sc: 0x32, ext: false })
    } else if same_text(code, "Comma") {
        Some(ScanCode { sc: 0x33, ext: false })
    } else if same_text(code, "Period") {
        Some(ScanCode { sc: 0x34, ext: false })
    } else if same_text(code, "Slash") {
        Some(ScanCode { sc: 0x35, ext: false })
    } else if same_text(code, "ShiftRight") {
        Some(ScanCode { sc: 0x36, ext: false })
    } else if same_text(code, "NumpadMultiply") {
        Some(ScanCode { sc: 0x37, ext: false })
    } else if same_text(code, "AltLeft") {
        Some(ScanCode { sc: 0x38, ext: false })
    } else if same_text(code, "Space") {
        Some(ScanCode { sc: 0x39, ext: false })
    } else if same_text(code, "CapsLock") {
        Some(ScanCode { sc: 0x3a, ext: false })
    } else if same_text(code, "F1") {
        Some(ScanCode { sc: 0x3b, ext: false })
    } else if same_text(code, "F2") {
        Some(ScanCode { sc: 0x3c, ext: false })
    } else if same_text(code, "F3") {
        Some(ScanCode { sc: 0x3d, ext: false })
    } else if same_text(code, "F4") {
        Some(ScanCode { sc: 0x3e, ext: false })
    } else if same_text(code, "F5") {
        Some(ScanCode { sc: 0x3f, ext: false })
    } else if same_text(code, "F6") {
        Some(ScanCode { sc: 0x40, ext: false })
    } else if same_text(code, "F7") {
        Some(ScanCode { sc: 0x41, ext: false })
    } else if same_text(code, "F8") {
        Some(ScanCode { sc: 0x42, ext: false })
    } else if same_text(code, "F9") {
        Some(ScanCode { sc: 0x43, ext: false })
    } else if same_text(code, "F10") {
        Some(ScanCode { sc: 0x44, ext: false })
    } else if same_text(code, "NumLock") {
        Some(ScanCode { sc: 0x45, ext: false })
    } else if same_text(code, "ScrollLock") {
        Some(ScanCode { sc: 0x46, ext: false })
    } else if same_text(code, "Numpad7") {
        Some(ScanCode { sc: 0x47, ext: false })
    } else if same_text(code, "Numpad8") {
        Some(ScanCode { sc: 0x48, ext: false })
    } else if same_text(code, "Numpad9") {
        Some(ScanCode { sc: 0x49, ext: false })
    } else if same_text(code, "NumpadSubtract") {
        Some(ScanCode { sc: 0x4a, ext: false })
    } else if same_text(code, "Numpad4") {
        Some(ScanCode { sc: 0x4b, ext: false })
    } else if same_text(code, "Numpad5") {
        Some(ScanCode { sc: 0x4c, ext: false })
    } else if same_text(code, "Numpad6") {
        Some(ScanCode { sc: 0x4d, ext: false })
    } else if same_text(code, "NumpadAdd") {
        Some(ScanCode { sc: 0x4e, ext: false })
    } else if same_text(code, "Numpad1") {
        Some(ScanCode { sc: 0x4f, ext: false })
    } else if same_text(code, "Numpad2") {
        Some(ScanCode { sc: 0x50, ext: false })
    } else if same_text(code, "Numpad3") {
        Some(ScanCode { sc: 0x51, ext: false })
    } else if same_text(code, "Numpad0") {
        Some(ScanCode { sc: 0x52, ext: false })
    } else if same_text(code, "NumpadDecimal") {
        Some(ScanCode { sc: 0x53, ext: false })
    } else if same_text(code, "IntlBackslash") {
        Some(ScanCode { sc: 0x56, ext: false })
    } else if same_text(code, "F11") {
        Some(ScanCode { sc: 0x57, ext: false })
    } else if same_text(code, "F12") {
        Some(ScanCode { sc: 0x58, ext: false })
    } else if same_text(code, "NumpadEnter") {
        Some(ScanCode { sc: 0x1c, ext: true })
    } else if same_text(code, "ControlRight") {
        Some(ScanCode { sc: 0x1d, ext: true })
    } else if same_text(code, "NumpadDivide") {
        Some(ScanCode { sc: 0x35, ext: true })
    } else if same_text(code, "AltRight") {
        Some(ScanCode { sc: 0x38, ext: true })
    } else if same_text(code, "Home") {
        Some(ScanCode { sc: 0x47, ext: true })
    } else if same_text(code, "ArrowUp") {
        Some(ScanCode { sc: 0x48, ext: true })
    } else if same_text(code, "PageUp") {
        Some(ScanCode { sc: 0x49, ext: true })
    } else if same_text(code, "ArrowLeft") {
        Some(ScanCode { sc: 0x4b, ext: true })
    } else if same_text(code, "ArrowRight") {
        Some(ScanCode { sc: 0x4d, ext: true })
    } else if same_text(code, "End") {
        Some(ScanCode { sc: 0x4f, ext: true })
    } else if same_text(code, "ArrowDown") {
        Some(ScanCode { sc: 0x50, ext: true })
    } else if same_text(code, "PageDown") {
        Some(ScanCode { sc: 0x51, ext: true })
    } else if same_text(code, "Insert") {
        Some(ScanCode { sc: 0x52, ext: true })
    } else if same_text(code, "Delete") {
        Some(ScanCode { sc: 0x53, ext: true })
    } else if same_text(code, "MetaLeft") {
        Some(ScanCode { sc: 0x5b, ext: true })
    } else if same_text(code, "MetaRight") {
        Some(ScanCode { sc: 0x5c, ext: true })
    } else if same_text(code, "ContextMenu") {
        Some(ScanCode { sc: 0x5d, ext: true })
    } else if same_text(code, "PrintScreen") {
        Some(ScanCode { sc: 0x37, ext: true })
    } else {
        None
    }
}

/// The key name of a scan code, or `None` if no supported key has it.
pub fn code_for(sc: u16, ext: bool) -> (r: Option<&'static str>)
    ensures
        r is Some <==> key_name(sc, ext) is Some,
        r is Some ==> r->0@ == key_name(sc, ext)->0,
{
    if ext {
        if sc == 0x1c {
            Some("NumpadEnter")
        } else if sc == 0x1d {
            Some("ControlRight")
        } else if sc == 0x35 {
            Some("NumpadDivide")
        } else if sc == 0x37 {
            Some("PrintScreen")
        } else if sc == 0x38 {
            Some("AltRight")
        } else if sc == 0x47 {
            Some("Home")
        } else if sc == 0x48 {
            Some("ArrowUp")
        } else if sc == 0x49 {
            Some("PageUp")
        } else if sc == 0x4b {
            Some("ArrowLeft")
        } else if sc == 0x4d {
            Some("ArrowRight")
        } else if sc == 0x4f {
            Some("End")
        } else if sc == 0x50 {
            Some("ArrowDown")
        } else if sc == 0x51 {
            Some("PageDown")
        } else if sc == 0x52 {
            Some("Insert")
        } else if sc == 0x53 {
            Some("Delete")
        } else if sc == 0x5b {
            Some("MetaLeft")
        } else if sc == 0x5c {
            Some("MetaRight")
        } else if sc == 0x5d {
            Some("ContextMenu")
        } else {
            None
        }
    } else {
        if sc == 0x01 {
            Some("Escape")
        } else if sc == 0x02 {
            Some("Digit1")
        } else if sc == 0x03 {
            Some("Digit2")
        } else if sc == 0x04 {
            Some("Digit3")
        } else if sc == 0x05 {
            Some("Digit4")
        } else if sc == 0x06 {
            Some("Digit5")
        } else if sc == 0x07 {
            Some("Digit6")
        } else if sc == 0x08 {
            Some("Digit7")
        } else if sc == 0x09 {
            Some("Digit8")
        } else if sc == 0x0a {
            Some("Digit9")
        } else if sc == 0x0b {
            Some("Digit0")
        } else if sc == 0x0c {
            Some("Minus")
        } else if sc == 0x0d {
            Some("Equal")
        } else if sc == 0x0e {
            Some("Backspace")
        } else if sc == 0x0f {
            Some("Tab")
        } else if sc == 0x10 {
            Some("KeyQ")
        } else if sc == 0x11 {
            Some("KeyW")
        } else if sc == 0x12 {
            Some("KeyE")
        } else if sc == 0x13 {
            Some("KeyR")
        } else if sc == 0x14 {
            Some("KeyT")
        } else if sc == 0x15 {
            Some("KeyY")
        } else if sc == 0x16 {
            Some("KeyU")
        } else if sc == 0x17 {
            Some("KeyI")
        } else if sc == 0x18 {
            Some("KeyO")
        } else if sc == 0x19 {
            Some("KeyP")
        } else if sc == 0x1a {
            Some("BracketLeft")
        } else if sc == 0x1b {
            Some("BracketRight")
        } else if sc == 0x1c {
            Some("Enter")
        } else if sc == 0x1d {
            Some("ControlLeft")
        } else if sc == 0x1e {
            Some("KeyA")
        } else if sc == 0x1f {
            Some("KeyS")
        } else if sc == 0x20 {
            Some("KeyD")
        } else if sc == 0x21 {
            Some("KeyF")
        } else if sc == 0x22 {
            Some("KeyG")
        } else if sc == 0x23 {
            Some("KeyH")
        } else if sc == 0x24 {
            Some("KeyJ")
        } else if sc == 0x25 {
            Some("KeyK")
        } else if sc == 0x26 {
            Some("KeyL")
        } else if sc == 0x27 {
            Some("Semicolon")
        } else if sc == 0x28 {
            Some("Quote")
        } else if sc == 0x29 {
            Some("Backquote")
        } else if sc == 0x2a {
            Some("ShiftLeft")
        } else if sc == 0x2b {
            Some("Backslash")
        } else if sc == 0x2c {
            Some("KeyZ")
        } else if sc == 0x2d {
            Some("KeyX")
        } else if sc == 0x2e {
            Some("KeyC")
        } else if sc == 0x2f {
            Some("KeyV")
        } else if sc == 0x30 {
            Some("KeyB")
        } else if sc == 0x31 {
            Some("KeyN")
        } else if sc == 0x32 {
            Some("KeyM")
        } else if sc == 0x33 {
            Some("Comma")
        } else if sc == 0x34 {
            Some("Period")
        } else if sc == 0x35 {
            Some("Slash")
        } else if sc == 0x36 {
            Some("ShiftRight")
        } else if sc == 0x37 {
            Some("NumpadMultiply")
        } else if sc == 0x38 {
            Some("AltLeft")
        } else if sc == 0x39 {
            Some("Space")
        } else if sc == 0x3a {
            Some("CapsLock")
        } else if sc == 0x3b {
            Some("F1")
        } else if sc == 0x3c {
            Some("F2")
        } else if sc == 0x3d {
            Some("F3")
        } else if sc == 0x3e {
            Some("F4")
        } else if sc == 0x3f {
            Some("F5")
        } else if sc == 0x40 {
            Some("F6")
        } else if sc == 0x41 {
            Some("F7")
        } else if sc == 0x42 {
            Some("F8")
        } else if sc == 0x43 {
            Some("F9")
        } else if sc == 0x44 {
            Some("F10")
        } else if sc == 0x45 {
            Some("NumLock")
        } else if sc == 0x46 {
            Some("ScrollLock")
        } else if sc == 0x47 {
            Some("Numpad7")
        } else if sc == 0x48 {
            Some("Numpad8")
        } else if sc == 0x49 {
            Some("Numpad9")
        } else if sc == 0x4a {
            Some("NumpadSubtract")
        } else if sc == 0x4b {
            Some("Numpad4")
        } else if sc == 0x4c {
            Some("Numpad5")
        } else if sc == 0x4d {
            Some("Numpad6")
        } else if sc == 0x4e {
            Some("NumpadAdd")
        } else if sc == 0x4f {
            Some("Numpad1")
        } else if sc == 0x50 {
            Some("Numpad2")
        } else if sc == 0x51 {
            Some("Numpad3")
        } else if sc == 0x52 {
            Some("Numpad0")
        } else if sc == 0x53 {
            Some("NumpadDecimal")
        } else if sc == 0x56 {
            Some("IntlBackslash")
        } else if sc == 0x57 {
            Some("F11")
        } else if sc == 0x58 {
            Some("F12")
        } else {
            None
        }
    }
}

/// Every supported key is named back by its scan code. So no two keys share
/// one.
pub proof fn law_scan_codes_name_their_keys(code: Seq<char>)
    requires
        scan_code(code) is Some,
    ensures
        key_name(scan_code(code)->0.sc, scan_code(code)->0.ext) == Some(code),
{
}

/// What tells the key names apart: length, first, middle and last letter.
spec fn looks(s: Seq<char>) -> (nat, char, char, char) {
    (s.len(), s[0], s[s.len() as int / 2], s.last())
}

proof fn lemma_looks()
    ensures
        looks("Escape"@) == (6nat, 'E', 'a', 'e'),
        looks("Digit1"@) == (6nat, 'D', 'i', '1'),
        looks("Digit2"@) == (6nat, 'D', 'i', '2'),
        looks("Digit3"@) == (6nat, 'D', 'i', '3'),
        looks("Digit4"@) == (6nat, 'D', 'i', '4'),
        looks("Digit5"@) == (6nat, 'D', 'i', '5'),
        looks("Digit6"@) == (6nat, 'D', 'i', '6'),
        looks("Digit7"@) == (6nat, 'D', 'i', '7'),
        looks("Digit8"@) == (6nat, 'D', 'i', '8'),
        looks("Digit9"@) == (6nat, 'D', 'i', '9'),
        looks("Digit0"@) == (6nat, 'D', 'i', '0'),
        looks("Minus"@) == (5nat, 'M', 'n', 's'),
        looks("Equal"@) == (5nat, 'E', 'u', 'l'),
        looks("Backspace"@) == (9nat, 'B', 's', 'e'),
        looks("Tab"@) == (3nat, 'T', 'a', 'b'),
        looks("KeyQ"@) == (4nat, 'K', 'y', 'Q'),
        looks("KeyW"@) == (4nat, 'K', 'y', 'W'),
        looks("KeyE"@) == (4nat, 'K', 'y', 'E'),
        looks("KeyR"@) == (4nat, 'K', 'y', 'R'),
        looks("KeyT"@) == (4nat, 'K', 'y', 'T'),
        looks("KeyY"@) == (4nat, 'K', 'y', 'Y'),
        looks("KeyU"@) == (4nat, 'K', 'y', 'U'),
        looks("KeyI"@) == (4nat, 'K', 'y', 'I'),
        looks("KeyO"@) == (4nat, 'K', 'y', 'O'),
        looks("KeyP"@) == (4nat, 'K', 'y', 'P'),
        looks("BracketLeft"@) == (11nat, 'B', 'e', 't'),
        looks("BracketRight"@) == (12nat, 'B', 't', 't'),
        looks("Enter"@) == (5nat, 'E', 't', 'r'),
        looks("ControlLeft"@) == (11nat, 'C', 'o', 't'),
        looks("KeyA"@) == (4nat, 'K', 'y', 'A'),
        looks("KeyS"@) == (4nat, 'K', 'y', 'S'),
        looks("KeyD"@) == (4nat, 'K', 'y', 'D'),
        looks("KeyF"@) == (4nat, 'K', 'y', 'F'),
        looks("KeyG"@) == (4nat, 'K', 'y', 'G'),
        looks("KeyH"@) == (4nat, 'K', 'y', 'H'),
        looks("KeyJ"@) == (4nat, 'K', 'y', 'J'),
        looks("KeyK"@) == (4nat, 'K', 'y', 'K'),
        looks("KeyL"@) == (4nat, 'K', 'y', 'L'),
        looks("Semicolon"@) == (9nat, 'S', 'c', 'n'),
        looks("Quote"@) == (5nat, 'Q', 'o', 'e'),
        looks("Backquote"@) == (9nat, 'B', 'q', 'e'),
        looks("ShiftLeft"@) == (9nat, 'S', 't', 't'),
        looks("Backslash"@) == (9nat, 'B', 's', 'h'),
        looks("KeyZ"@) == (4nat, 'K', 'y', 'Z'),
        looks("KeyX"@) == (4nat, 'K', 'y', 'X'),
        looks("KeyC"@) == (4nat, 'K', 'y', 'C'),
        looks("KeyV"@) == (4nat, 'K', 'y', 'V'),
        looks("KeyB"@) == (4nat, 'K', 'y', 'B'),
        looks("KeyN"@) == (4nat, 'K', 'y', 'N'),
        looks("KeyM"@) == (4nat, 'K', 'y', 'M'),
        looks("Comma"@) == (5nat, 'C', 'm', 'a'),
        looks("Period"@) == (6nat, 'P', 'i', 'd'),
        looks("Slash"@) == (5nat, 'S', 'a', 'h'),
        looks("ShiftRight"@) == (10nat, 'S', 'R', 't'),
        looks("NumpadMultiply"@) == (14nat, 'N', 'u', 'y'),
        looks("AltLeft"@) == (7nat, 'A', 'L', 't'),
        looks("Space"@) == (5nat, 'S', 'a', 'e'),
        looks("CapsLock"@) == (8nat, 'C', 'L', 'k'),
        looks("F1"@) == (2nat, 'F', '1', '1'),
        looks("F2"@) == (2nat, 'F', '2', '2'),
        looks("F3"@) == (2nat, 'F', '3', '3'),
        looks("F4"@) == (2nat, 'F', '4', '4'),
        looks("F5"@) == (2nat, 'F', '5', '5'),
        looks("F6"@) == (2nat, 'F', '6', '6'),
        looks("F7"@) == (2nat, 'F', '7', '7'),
        looks("F8"@) == (2nat, 'F', '8', '8'),
        looks("F9"@) == (2nat, 'F', '9', '9'),
        looks("F10"@) == (3nat, 'F', '1', '0'),
        looks("NumLock"@) == (7nat, 'N', 'L', 'k'),
        looks("ScrollLock"@) == (10nat, 'S', 'l', 'k'),
        looks("Numpad7"@) == (7nat, 'N', 'p', '7'),
        looks("Numpad8"@) == (7nat, 'N', 'p', '8'),
        looks("Numpad9"@) == (7nat, 'N', 'p', '9'),
        looks("NumpadSubtract"@) == (14nat, 'N', 'u', 't'),
        looks("Numpad4"@) == (7nat, 'N', 'p', '4'),
        looks("Numpad5"@) == (7nat, 'N', 'p', '5'),
        looks("Numpad6"@) == (7nat, 'N', 'p', '6'),
        looks("NumpadAdd"@) == (9nat, 'N', 'a', 'd'),
        looks("Numpad1"@) == (7nat, 'N', 'p', '1'),
        looks("Numpad2"@) == (7nat, 'N', 'p', '2'),
        looks("Numpad3"@) == (7nat, 'N', 'p', '3'),
        looks("Numpad0"@) == (7nat, 'N', 'p', '0'),
        looks("NumpadDecimal"@) == (13nat, 'N', 'D', 'l'),
        looks("IntlBackslash"@) == (13nat, 'I', 'c', 'h'),
        looks("F11"@) == (3nat, 'F', '1', '1'),
        looks("F12"@) == (3nat, 'F', '1', '2'),
        looks("NumpadEnter"@) == (11nat, 'N', 'd', 'r'),
        looks("ControlRight"@) == (12nat, 'C', 'l', 't'),
        looks("NumpadDivide"@) == (12nat, 'N', 'D', 'e'),
        looks("AltRight"@) == (8nat, 'A', 'i', 't'),
        looks("Home"@) == (4nat, 'H', 'm', 'e'),
        looks("ArrowUp"@) == (7nat, 'A', 'o', 'p'),
        looks("PageUp"@) == (6nat, 'P', 'e', 'p'),
        looks("ArrowLeft"@) == (9nat, 'A', 'w', 't'),
        looks("ArrowRight"@) == (10nat, 'A', 'R', 't'),
        looks("End"@) == (3nat, 'E', 'n', 'd'),
        looks("ArrowDown"@) == (9nat, 'A', 'w', 'n'),
        looks("PageDown"@) == (8nat, 'P', 'D', 'n'),
        looks("Insert"@) == (6nat, 'I', 'e', 't'),
        looks("Delete"@) == (6nat, 'D', 'e', 'e'),
        looks("MetaLeft"@) == (8nat, 'M', 'L', 't'),
        looks("MetaRight"@) == (9nat, 'M', 'R', 't'),
        looks("ContextMenu"@) == (11nat, 'C', 'x', 'u'),
        looks("PrintScreen"@) == (11nat, 'P', 'S', 'n'),
{
    reveal_strlit("Escape");
    reveal_strlit("Digit1");
    reveal_strlit("Digit2");
    reveal_strlit("Digit3");
    reveal_strlit("Digit4");
    reveal_strlit("Digit5");
    reveal_strlit("Digit6");
    reveal_strlit("Digit7");
    reveal_strlit("Digit8");
    reveal_strlit("Digit9");
    reveal_strlit("Digit0");
    reveal_strlit("Minus");
    reveal_strlit("Equal");
    reveal_strlit("Backspace");
    reveal_strlit("Tab");
    reveal_strlit("KeyQ");
    reveal_strlit("KeyW");
    reveal_strlit("KeyE");
    reveal_strlit("KeyR");
    reveal_strlit("KeyT");
    reveal_strlit("KeyY");
    reveal_strlit("KeyU");
    reveal_strlit("KeyI");
    reveal_strlit("KeyO");
    reveal_strlit("KeyP");
    reveal_strlit("BracketLeft");
    reveal_strlit("BracketRight");
    reveal_strlit("Enter");
    reveal_strlit("ControlLeft");
    reveal_strlit("KeyA");
    reveal_strlit("KeyS");
    reveal_strlit("KeyD");
    reveal_strlit("KeyF");
    reveal_strlit("KeyG");
    reveal_strlit("KeyH");
    reveal_strlit("KeyJ");
    reveal_strlit("KeyK");
    reveal_strlit("KeyL");
    reveal_strlit("Semicolon");
    reveal_strlit("Quote");
    reveal_strlit("Backquote");
    reveal_strlit("ShiftLeft");
    reveal_strlit("Backslash");
    reveal_strlit("KeyZ");
    reveal_strlit("KeyX");
    reveal_strlit("KeyC");
    reveal_strlit("KeyV");
    reveal_strlit("KeyB");
    reveal_strlit("KeyN");
    reveal_strlit("KeyM");
    reveal_strlit("Comma");
    reveal_strlit("Period");
    reveal_strlit("Slash");
    reveal_strlit("ShiftRight");
    reveal_strlit("NumpadMultiply");
    reveal_strlit("AltLeft");
    reveal_strlit("Space");
    reveal_strlit("CapsLock");
    reveal_strlit("F1");
    reveal_strlit("F2");
    reveal_strlit("F3");
    reveal_strlit("F4");
    reveal_strlit("F5");
    reveal_strlit("F6");
    reveal_strlit("F7");
    reveal_strlit("F8");
    reveal_strlit("F9");
    reveal_strlit("F10");
    reveal_strlit("NumLock");
    reveal_strlit("ScrollLock");
    reveal_strlit("Numpad7");
    reveal_strlit("Numpad8");
    reveal_strlit("Numpad9");
    reveal_strlit("NumpadSubtract");
    reveal_strlit("Numpad4");
    reveal_strlit("Numpad5");
    reveal_strlit("Numpad6");
    reveal_strlit("NumpadAdd");
    reveal_strlit("Numpad1");
    reveal_strlit("Numpad2");
    reveal_strlit("Numpad3");
    reveal_strlit("Numpad0");
    reveal_strlit("NumpadDecimal");
    reveal_strlit("IntlBackslash");
    reveal_strlit("F11");
    reveal_strlit("F12");
    reveal_strlit("NumpadEnter");
    reveal_strlit("ControlRight");
    reveal_strlit("NumpadDivide");
    reveal_strlit("AltRight");
    reveal_strlit("Home");
    reveal_strlit("ArrowUp");
    reveal_strlit("PageUp");
    reveal_strlit("ArrowLeft");
    reveal_strlit("ArrowRight");
    reveal_strlit("End");
    reveal_strlit("ArrowDown");
    reveal_strlit("PageDown");
    reveal_strlit("Insert");
    reveal_strlit("Delete");
    reveal_strlit("MetaLeft");
    reveal_strlit("MetaRight");
    reveal_strlit("ContextMenu");
    reveal_strlit("PrintScreen");
}

/// Every name that a scan code has resolves to that scan code.
pub proof fn law_key_names_resolve(sc: u16, ext: bool)
    requires
        key_name(sc, ext) is Some,
    ensures
        scan_code(key_name(sc, ext)->0) == Some(ScanCode { sc, ext }),
{
    lemma_looks();
}

/// Scan codes count the keys of a keyboard, place by place: the row of the digits
/// have consecutive ones, the first of them 0x01.
pub proof fn law_row_of_digits_count_up(i: int)
    requires
        0 <= i < 14,
    ensures
        ({
            let row = seq![
                "Escape"@,
                "Digit1"@,
                "Digit2"@,
                "Digit3"@,
                "Digit4"@,
                "Digit5"@,
                "Digit6"@,
                "Digit7"@,
                "Digit8"@,
                "Digit9"@,
                "Digit0"@,
                "Minus"@,
                "Equal"@,
                "Backspace"@,
            ];
            &&& row.len() == 14
            &&& scan_code(row[i]) == Some(ScanCode { sc: (0x01 + i) as u16, ext: false })
        }),
{
    lemma_looks();
}

/// Scan codes count the keys of a keyboard, place by place: the upper row of letters
/// have consecutive ones, the first of them 0x0f.
pub proof fn law_upper_row_count_up(i: int)
    requires
        0 <= i < 14,
    ensures
        ({
            let row = seq![
                "Tab"@,
                "KeyQ"@,
                "KeyW"@,
                "KeyE"@,
                "KeyR"@,
                "KeyT"@,
                "KeyY"@,
                "KeyU"@,
                "KeyI"@,
                "KeyO"@,
                "KeyP"@,
                "BracketLeft"@,
                "BracketRight"@,
                "Enter"@,
            ];
            &&& row.len() == 14
            &&& scan_code(row[i]) == Some(ScanCode { sc: (0x0f + i) as u16, ext: false })
        }),
{
    lemma_looks();
}

/// Scan codes count the keys of a keyboard, place by place: the middle row of letters
/// have consecutive ones, the first of them 0x1d.
pub proof fn law_middle_row_count_up(i: int)
    requires
        0 <= i < 13,
    ensures
        ({
            let row = seq![
                "ControlLeft"@,
                "KeyA"@,
                "KeyS"@,
                "KeyD"@,
                "KeyF"@,
                "KeyG"@,
                "KeyH"@,
                "KeyJ"@,
                "KeyK"@,
                "KeyL"@,
                "Semicolon"@,
                "Quote"@,
                "Backquote"@,
            ];
            &&& row.len() == 13
            &&& scan_code(row[i]) == Some(ScanCode { sc: (0x1d + i) as u16, ext: false })
        }),
{
    lemma_looks();
}

/// Scan codes count the keys of a keyboard, place by place: the lower row of letters
/// have consecutive ones, the first of them 0x2a.
pub proof fn law_lower_row_count_up(i: int)
    requires
        0 <= i < 17,
    ensures
        ({
            let row = seq![
                "ShiftLeft"@,
                "Backslash"@,
                "KeyZ"@,
                "KeyX"@,
                "KeyC"@,
                "KeyV"@,
                "KeyB"@,
                "KeyN"@,
                "KeyM"@,
                "Comma"@,
                "Period"@,
                "Slash"@,
                "ShiftRight"@,
                "NumpadMultiply"@,
                "AltLeft"@,
                "Space"@,
                "CapsLock"@,
            ];
            &&& row.len() == 17
            &&& scan_code(row[i]) == Some(ScanCode { sc: (0x2a + i) as u16, ext: false })
        }),
{
    lemma_looks();
}

/// Scan codes count the keys of a keyboard, place by place: the function keys
/// have consecutive ones, the first of them 0x3b.
pub proof fn law_function_keys_count_up(i: int)
    requires
        0 <= i < 12,
    ensures
        ({
            let row = seq![
                "F1"@,
                "F2"@,
                "F3"@,
                "F4"@,
                "F5"@,
                "F6"@,
                "F7"@,
                "F8"@,
                "F9"@,
                "F10"@,
                "NumLock"@,
                "ScrollLock"@,
            ];
            &&& row.len() == 12
            &&& scan_code(row[i]) == Some(ScanCode { sc: (0x3b + i) as u16, ext: false })
        }),
{
    lemma_looks();
}

/// Scan codes count the keys of a keyboard, place by place: the number pad
/// have consecutive ones, the first of them 0x47.
pub proof fn law_number_pad_count_up(i: int)
    requires
        0 <= i < 13,
    ensures
        ({
            let row = seq![
                "Numpad7"@,
                "Numpad8"@,
                "Numpad9"@,
                "NumpadSubtract"@,
                "Numpad4"@,
                "Numpad5"@,
                "Numpad6"@,
                "NumpadAdd"@,
                "Numpad1"@,
                "Numpad2"@,
                "Numpad3"@,
                "Numpad0"@,
                "NumpadDecimal"@,
            ];
            &&& row.len() == 13
            &&& scan_code(row[i]) == Some(ScanCode { sc: (0x47 + i) as u16, ext: false })
        }),
{
    lemma_looks();
}

/// Scan codes count the keys of a keyboard, place by place: the keys that came later
/// have consecutive ones, the first of them 0x56.
pub proof fn law_late_keys_count_up(i: int)
    requires
        0 <= i < 3,
    ensures
        ({
            let row = seq![
                "IntlBackslash"@,
                "F11"@,
                "F12"@,
            ];
            &&& row.len() == 3
            &&& scan_code(row[i]) == Some(ScanCode { sc: (0x56 + i) as u16, ext: false })
        }),
{
    lemma_looks();
}

/// An extended key is the twin of a plain one: Enter and the Enter of the
/// number pad, the keys on the left and those on the right, the block of arrows
/// and the number pad without its lock. Twins have the same scan code.
pub proof fn law_extended_keys_are_twins(i: int)
    requires
        0 <= i < 15,
    ensures
        ({
            let twins = seq![
                "NumpadEnter"@,
                "ControlRight"@,
                "NumpadDivide"@,
                "PrintScreen"@,
                "AltRight"@,
                "Home"@,
                "ArrowUp"@,
                "PageUp"@,
                "ArrowLeft"@,
                "ArrowRight"@,
                "End"@,
                "ArrowDown"@,
                "PageDown"@,
                "Insert"@,
                "Delete"@,
            ];
            let plain = seq![
                "Enter"@,
                "ControlLeft"@,
                "Slash"@,
                "NumpadMultiply"@,
                "AltLeft"@,
                "Numpad7"@,
                "Numpad8"@,
                "Numpad9"@,
                "Numpad4"@,
                "Numpad6"@,
                "Numpad1"@,
                "Numpad2"@,
                "Numpad3"@,
                "Numpad0"@,
                "NumpadDecimal"@,
            ];
            &&& twins.len() == plain.len() == 15
            &&& scan_code(plain[i]) is Some
            &&& !scan_code(plain[i])->0.ext
            &&& scan_code(twins[i]) == Some(ScanCode { ext: true, ..scan_code(plain[i])->0 })
        }),
{
    lemma_looks();
}

/// The Windows keys and the menu key have no twin; they count up from 0x5b.
pub proof fn law_windows_keys_count_up(i: int)
    requires
        0 <= i < 3,
    ensures
        ({
            let row = seq![
                "MetaLeft"@,
                "MetaRight"@,
                "ContextMenu"@,
            ];
            &&& row.len() == 3
            &&& scan_code(row[i]) == Some(ScanCode { sc: (0x5b + i) as u16, ext: true })
        }),
{
    lemma_looks();
}

/// There are no other keys: whatever has a scan code lies on one of these
/// places, and a name without a place has none.
pub proof fn law_scan_codes_lie_on_the_keyboard(code: Seq<char>)
    ensures
        scan_code(code) is Some ==> ({
            let k = scan_code(code)->0;
            if k.ext {
                k.sc == 0x1c || k.sc == 0x1d || k.sc == 0x35 || k.sc == 0x37 || k.sc == 0x38
                    || 0x47 <= k.sc <= 0x49 || k.sc == 0x4b || k.sc == 0x4d || 0x4f <= k.sc <= 0x53
                    || 0x5b <= k.sc <= 0x5d
            } else {
                0x01 <= k.sc <= 0x53 || 0x56 <= k.sc <= 0x58
            }
        }),
{
}

} // verus!
