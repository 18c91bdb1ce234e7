use vstd::prelude::*;
use vstd::string::StringExecFns;

use crate::strutil::{eq_ignore_ascii_case, str_eq_ignore_case};

verus! {

/// One keyboard shortcut: a key code plus its modifier keys.
#[derive(Debug, Clone, Copy, PartialEq, Eq, Hash, Structural)]
pub struct Hotkey {
    pub key_code: u16,
    pub modifiers: Modifiers,
}

/// The modifier keys a shortcut holds down.
#[derive(Debug, Clone, Copy, PartialEq, Eq, Hash, Structural)]
pub struct Modifiers {
    pub cmd: bool,
    pub alt: bool,
    pub ctrl: bool,
    pub shift: bool,
}

impl Default for Modifiers {
    fn default() -> (m: Modifiers)
        ensures
            m == (Modifiers { cmd: false, alt: false, ctrl: false, shift: false }),
    {
        Modifiers { cmd: false, alt: false, ctrl: false, shift: false }
    }
}

/// The modifier a name stands for, folded to ASCII lower case.
pub open spec fn modifier_of(part: Seq<char>) -> Option<Modifiers>
{
    if eq_ignore_ascii_case(part, "cmd"@) || eq_ignore_ascii_case(part, "super"@)
        || eq_ignore_ascii_case(part, "command"@) {
        Some(Modifiers { cmd: true, alt: false, ctrl: false, shift: false })
    } else if eq_ignore_ascii_case(part, "alt"@) || eq_ignore_ascii_case(part, "opt"@)
        || eq_ignore_ascii_case(part, "option"@) {
        Some(Modifiers { cmd: false, alt: true, ctrl: false, shift: false })
    } else if eq_ignore_ascii_case(part, "ctrl"@) || eq_ignore_ascii_case(part, "control"@) {
        Some(Modifiers { cmd: false, alt: false, ctrl: true, shift: false })
    } else if eq_ignore_ascii_case(part, "shift"@) {
        Some(Modifiers { cmd: false, alt: false, ctrl: false, shift: true })
    } else {
        None
    }
}

/// Both modifier sets combined.
pub open spec fn merged_mods(a: Modifiers, b: Modifiers) -> Modifiers {
    Modifiers {
        cmd: a.cmd || b.cmd,
        alt: a.alt || b.alt,
        ctrl: a.ctrl || b.ctrl,
        shift: a.shift || b.shift,
    }
}

/// The position of the first dash, or the length when there is none.
pub open spec fn first_dash(s: Seq<char>) -> nat
    decreases s.len(),
{
    if s.len() == 0 {
        0
    } else if s.first() == '-' {
        0
    } else {
        1 + first_dash(s.drop_first())
    }
}

proof fn lemma_first_dash(s: Seq<char>, j: int)
    requires
        0 <= j <= s.len(),
        forall|k: int| 0 <= k < j ==> s[k] != '-',
        j < s.len() ==> s[j] == '-',
    ensures
        j < s.len() ==> first_dash(s) == j,
        j == s.len() ==> first_dash(s) == s.len(),
    decreases s.len(),
{
    if s.len() > 0 && s.first() != '-' {
        let tail = s.drop_first();
        assert(forall|k: int| 0 <= k < j - 1 ==> tail[k] == s[k + 1]);
        lemma_first_dash(tail, if j > 0 {
            j - 1
        } else {
            0
        });
    }
}

/// What reading a hotkey string yields: its modifier set and key name,
/// or the first unrecognized modifier part.
pub ghost enum HotkeyParse {
    Key { modifiers: Modifiers, key: Seq<char> },
    BadModifier { part: Seq<char> },
}

/// Read dash-separated modifier parts left to right; the final part is
/// the key name.
pub open spec fn hotkey_parts(s: Seq<char>, acc: Modifiers) -> HotkeyParse
    decreases s.len(),
{
    let p = first_dash(s) as int;
    if p >= s.len() {
        HotkeyParse::Key { modifiers: acc, key: s }
    } else {
        match modifier_of(s.take(p)) {
            Some(m) => hotkey_parts(s.skip(p + 1), merged_mods(acc, m)),
            None => HotkeyParse::BadModifier { part: s.take(p) },
        }
    }
}

/// The key code a key name stands for, folded to ASCII lower case.
pub open spec fn key_code_of(s: Seq<char>) -> Option<u16> {
    if eq_ignore_ascii_case(s, "a"@) {
        Some(0x00u16)
    } else
    if eq_ignore_ascii_case(s, "b"@) {
        Some(0x0Bu16)
    } else
    if eq_ignore_ascii_case(s, "c"@) {
        Some(0x08u16)
    } else
    if eq_ignore_ascii_case(s, "d"@) {
        Some(0x02u16)
    } else
    if eq_ignore_ascii_case(s, "e"@) {
        Some(0x0Eu16)
    } else
    if eq_ignore_ascii_case(s, "f"@) {
        Some(0x03u16)
    } else
    if eq_ignore_ascii_case(s, "g"@) {
        Some(0x05u16)
    } else
    if eq_ignore_ascii_case(s, "h"@) {
        Some(0x04u16)
    } else
    if eq_ignore_ascii_case(s, "i"@) {
        Some(0x22u16)
    } else
    if eq_ignore_ascii_case(s, "j"@) {
        Some(0x26u16)
    } else
    if eq_ignore_ascii_case(s, "k"@) {
        Some(0x28u16)
    } else
    if eq_ignore_ascii_case(s, "l"@) {
        Some(0x25u16)
    } else
    if eq_ignore_ascii_case(s, "m"@) {
        Some(0x2Eu16)
    } else
    if eq_ignore_ascii_case(s, "n"@) {
        Some(0x2Du16)
    } else
    if eq_ignore_ascii_case(s, "o"@) {
        Some(0x1Fu16)
    } else
    if eq_ignore_ascii_case(s, "p"@) {
        Some(0x23u16)
    } else
    if eq_ignore_ascii_case(s, "q"@) {
        Some(0x0Cu16)
    } else
    if eq_ignore_ascii_case(s, "r"@) {
        Some(0x0Fu16)
    } else
    if eq_ignore_ascii_case(s, "s"@) {
        Some(0x01u16)
    } else
    if eq_ignore_ascii_case(s, "t"@) {
        Some(0x11u16)
    } else
    if eq_ignore_ascii_case(s, "u"@) {
        Some(0x20u16)
    } else
    if eq_ignore_ascii_case(s, "v"@) {
        Some(0x09u16)
    } else
    if eq_ignore_ascii_case(s, "w"@) {
        Some(0x0Du16)
    } else
    if eq_ignore_ascii_case(s, "x"@) {
        Some(0x07u16)
    } else
    if eq_ignore_ascii_case(s, "y"@) {
        Some(0x10u16)
    } else
    if eq_ignore_ascii_case(s, "z"@) {
        Some(0x06u16)
    } else
    if eq_ignore_ascii_case(s, "1"@) {
        Some(0x12u16)
    } else
    if eq_ignore_ascii_case(s, "2"@) {
        Some(0x13u16)
    } else
    if eq_ignore_ascii_case(s, "3"@) {
        Some(0x14u16)
    } else
    if eq_ignore_ascii_case(s, "4"@) {
        Some(0x15u16)
    } else
    if eq_ignore_ascii_case(s, "5"@) {
        Some(0x17u16)
    } else
    if eq_ignore_ascii_case(s, "6"@) {
        Some(0x16u16)
    } else
    if eq_ignore_ascii_case(s, "7"@) {
        Some(0x1Au16)
    } else
    if eq_ignore_ascii_case(s, "8"@) {
        Some(0x1Cu16)
    } else
    if eq_ignore_ascii_case(s, "9"@) {
        Some(0x19u16)
    } else
    if eq_ignore_ascii_case(s, "0"@) {
        Some(0x1Du16)
    } else
    if eq_ignore_ascii_case(s, "return"@) || eq_ignore_ascii_case(s, "enter"@) {
        Some(0x24u16)
    } else
    if eq_ignore_ascii_case(s, "tab"@) {
        Some(0x30u16)
    } else
    if eq_ignore_ascii_case(s, "space"@) {
        Some(0x31u16)
    } else
    if eq_ignore_ascii_case(s, "delete"@) || eq_ignore_ascii_case(s, "backspace"@) {
        Some(0x33u16)
    } else
    if eq_ignore_ascii_case(s, "escape"@) || eq_ignore_ascii_case(s, "esc"@) {
        Some(0x35u16)
    } else
    if eq_ignore_ascii_case(s, "left"@) {
        Some(0x7Bu16)
    } else
    if eq_ignore_ascii_case(s, "right"@) {
        Some(0x7Cu16)
    } else
    if eq_ignore_ascii_case(s, "down"@) {
        Some(0x7Du16)
    } else
    if eq_ignore_ascii_case(s, "up"@) {
        Some(0x7Eu16)
    } else
    if eq_ignore_ascii_case(s, "f1"@) {
        Some(0x7Au16)
    } else
    if eq_ignore_ascii_case(s, "f2"@) {
        Some(0x78u16)
    } else
    if eq_ignore_ascii_case(s, "f3"@) {
        Some(0x63u16)
    } else
    if eq_ignore_ascii_case(s, "f4"@) {
        Some(0x76u16)
    } else
    if eq_ignore_ascii_case(s, "f5"@) {
        Some(0x60u16)
    } else
    if eq_ignore_ascii_case(s, "f6"@) {
        Some(0x61u16)
    } else
    if eq_ignore_ascii_case(s, "f7"@) {
        Some(0x62u16)
    } else
    if eq_ignore_ascii_case(s, "f8"@) {
        Some(0x64u16)
    } else
    if eq_ignore_ascii_case(s, "f9"@) {
        Some(0x65u16)
    } else
    if eq_ignore_ascii_case(s, "f10"@) {
        Some(0x6Du16)
    } else
    if eq_ignore_ascii_case(s, "f11"@) {
        Some(0x67u16)
    } else
    if eq_ignore_ascii_case(s, "f12"@) {
        Some(0x6Fu16)
    } else
    if eq_ignore_ascii_case(s, "minus"@) {
        Some(0x1Bu16)
    } else
    if eq_ignore_ascii_case(s, "equal"@) {
        Some(0x18u16)
    } else
    if eq_ignore_ascii_case(s, "leftbracket"@) {
        Some(0x21u16)
    } else
    if eq_ignore_ascii_case(s, "rightbracket"@) {
        Some(0x1Eu16)
    } else
    if eq_ignore_ascii_case(s, "backslash"@) {
        Some(0x2Au16)
    } else
    if eq_ignore_ascii_case(s, "semicolon"@) {
        Some(0x29u16)
    } else
    if eq_ignore_ascii_case(s, "quote"@) {
        Some(0x27u16)
    } else
    if eq_ignore_ascii_case(s, "comma"@) {
        Some(0x2Bu16)
    } else
    if eq_ignore_ascii_case(s, "period"@) {
        Some(0x2Fu16)
    } else
    if eq_ignore_ascii_case(s, "slash"@) {
        Some(0x2Cu16)
    } else
    if eq_ignore_ascii_case(s, "grave"@) {
        Some(0x32u16)
    } else {
        None
    }
}

/// Map one key name to its key code.
#[verifier::rlimit(50)]
pub fn parse_key_code(key: &str) -> (r: Result<u16, String>)
    ensures
        match r {
            Ok(c) => key_code_of(key@) == Some(c),
            Err(m) => key_code_of(key@) is None && m@ == "Unknown key: "@ + key@,
        },
{
    if str_eq_ignore_case(key, "a") {
        return Ok(0x00);
    }
    if str_eq_ignore_case(key, "b") {
        return Ok(0x0B);
    }
    if str_eq_ignore_case(key, "c") {
        return Ok(0x08);
    }
    if str_eq_ignore_case(key, "d") {
        return Ok(0x02);
    }
    if str_eq_ignore_case(key, "e") {
        return Ok(0x0E);
    }
    if str_eq_ignore_case(key, "f") {
        return Ok(0x03);
    }
    if str_eq_ignore_case(key, "g") {
        return Ok(0x05);
    }
    if str_eq_ignore_case(key, "h") {
        return Ok(0x04);
    }
    if str_eq_ignore_case(key, "i") {
        return Ok(0x22);
    }
    if str_eq_ignore_case(key, "j") {
        return Ok(0x26);
    }
    if str_eq_ignore_case(key, "k") {
        return Ok(0x28);
    }
    if str_eq_ignore_case(key, "l") {
        return Ok(0x25);
    }
    if str_eq_ignore_case(key, "m") {
        return Ok(0x2E);
    }
    if str_eq_ignore_case(key, "n") {
        return Ok(0x2D);
    }
    if str_eq_ignore_case(key, "o") {
        return Ok(0x1F);
    }
    if str_eq_ignore_case(key, "p") {
        return Ok(0x23);
    }
    if str_eq_ignore_case(key, "q") {
        return Ok(0x0C);
    }
    if str_eq_ignore_case(key, "r") {
        return Ok(0x0F);
    }
    if str_eq_ignore_case(key, "s") {
        return Ok(0x01);
    }
    if str_eq_ignore_case(key, "t") {
        return Ok(0x11);
    }
    if str_eq_ignore_case(key, "u") {
        return Ok(0x20);
    }
    if str_eq_ignore_case(key, "v") {
        return Ok(0x09);
    }
    if str_eq_ignore_case(key, "w") {
        return Ok(0x0D);
    }
    if str_eq_ignore_case(key, "x") {
        return Ok(0x07);
    }
    if str_eq_ignore_case(key, "y") {
        return Ok(0x10);
    }
    if str_eq_ignore_case(key, "z") {
        return Ok(0x06);
    }
    if str_eq_ignore_case(key, "1") {
        return Ok(0x12);
    }
    if str_eq_ignore_case(key, "2") {
        return Ok(0x13);
    }
    if str_eq_ignore_case(key, "3") {
        return Ok(0x14);
    }
    if str_eq_ignore_case(key, "4") {
        return Ok(0x15);
    }
    if str_eq_ignore_case(key, "5") {
        return Ok(0x17);
    }
    if str_eq_ignore_case(key, "6") {
        return Ok(0x16);
    }
    if str_eq_ignore_case(key, "7") {
        return Ok(0x1A);
    }
    if str_eq_ignore_case(key, "8") {
        return Ok(0x1C);
    }
    if str_eq_ignore_case(key, "9") {
        return Ok(0x19);
    }
    if str_eq_ignore_case(key, "0") {
        return Ok(0x1D);
    }
    if str_eq_ignore_case(key, "return") || str_eq_ignore_case(key, "enter") {
        return Ok(0x24);
    }
    if str_eq_ignore_case(key, "tab") {
        return Ok(0x30);
    }
    if str_eq_ignore_case(key, "space") {
        return Ok(0x31);
    }
    if str_eq_ignore_case(key, "delete") || str_eq_ignore_case(key, "backspace") {
        return Ok(0x33);
    }
    if str_eq_ignore_case(key, "escape") || str_eq_ignore_case(key, "esc") {
        return Ok(0x35);
    }
    if str_eq_ignore_case(key, "left") {
        return Ok(0x7B);
    }
    if str_eq_ignore_case(key, "right") {
        return Ok(0x7C);
    }
    if str_eq_ignore_case(key, "down") {
        return Ok(0x7D);
    }
    if str_eq_ignore_case(key, "up") {
        return Ok(0x7E);
    }
    if str_eq_ignore_case(key, "f1") {
        return Ok(0x7A);
    }
    if str_eq_ignore_case(key, "f2") {
        return Ok(0x78);
    }
    if str_eq_ignore_case(key, "f3") {
        return Ok(0x63);
    }
    if str_eq_ignore_case(key, "f4") {
        return Ok(0x76);
    }
    if str_eq_ignore_case(key, "f5") {
        return Ok(0x60);
    }
    if str_eq_ignore_case(key, "f6") {
        return Ok(0x61);
    }
    if str_eq_ignore_case(key, "f7") {
        return Ok(0x62);
    }
    if str_eq_ignore_case(key, "f8") {
        return Ok(0x64);
    }
    if str_eq_ignore_case(key, "f9") {
        return Ok(0x65);
    }
    if str_eq_ignore_case(key, "f10") {
        return Ok(0x6D);
    }
    if str_eq_ignore_case(key, "f11") {
        return Ok(0x67);
    }
    if str_eq_ignore_case(key, "f12") {
        return Ok(0x6F);
    }
    if str_eq_ignore_case(key, "minus") {
        return Ok(0x1B);
    }
    if str_eq_ignore_case(key, "equal") {
        return Ok(0x18);
    }
    if str_eq_ignore_case(key, "leftbracket") {
        return Ok(0x21);
    }
    if str_eq_ignore_case(key, "rightbracket") {
        return Ok(0x1E);
    }
    if str_eq_ignore_case(key, "backslash") {
        return Ok(0x2A);
    }
    if str_eq_ignore_case(key, "semicolon") {
        return Ok(0x29);
    }
    if str_eq_ignore_case(key, "quote") {
        return Ok(0x27);
    }
    if str_eq_ignore_case(key, "comma") {
        return Ok(0x2B);
    }
    if str_eq_ignore_case(key, "period") {
        return Ok(0x2F);
    }
    if str_eq_ignore_case(key, "slash") {
        return Ok(0x2C);
    }
    if str_eq_ignore_case(key, "grave") {
        return Ok(0x32);
    }
    let mut m = "Unknown key: ".to_owned();
    m.append(key);
    Err(m)
}

/// The canonical name of a key code.
pub open spec fn key_name_of(code: u16) -> Seq<char> {
    if code == 0x00u16 {
        "a"@
    } else
    if code == 0x0Bu16 {
        "b"@
    } else
    if code == 0x08u16 {
        "c"@
    } else
    if code == 0x02u16 {
        "d"@
    } else
    if code == 0x0Eu16 {
        "e"@
    } else
    if code == 0x03u16 {
        "f"@
    } else
    if code == 0x05u16 {
        "g"@
    } else
    if code == 0x04u16 {
        "h"@
    } else
    if code == 0x22u16 {
        "i"@
    } else
    if code == 0x26u16 {
        "j"@
    } else
    if code == 0x28u16 {
        "k"@
    } else
    if code == 0x25u16 {
        "l"@
    } else
    if code == 0x2Eu16 {
        "m"@
    } else
    if code == 0x2Du16 {
        "n"@
    } else
    if code == 0x1Fu16 {
        "o"@
    } else
    if code == 0x23u16 {
        "p"@
    } else
    if code == 0x0Cu16 {
        "q"@
    } else
    if code == 0x0Fu16 {
        "r"@
    } else
    if code == 0x01u16 {
        "s"@
    } else
    if code == 0x11u16 {
        "t"@
    } else
    if code == 0x20u16 {
        "u"@
    } else
    if code == 0x09u16 {
        "v"@
    } else
    if code == 0x0Du16 {
        "w"@
    } else
    if code == 0x07u16 {
        "x"@
    } else
    if code == 0x10u16 {
        "y"@
    } else
    if code == 0x06u16 {
        "z"@
    } else
    if code == 0x12u16 {
        "1"@
    } else
    if code == 0x13u16 {
        "2"@
    } else
    if code == 0x14u16 {
        "3"@
    } else
    if code == 0x15u16 {
        "4"@
    } else
    if code == 0x17u16 {
        "5"@
    } else
    if code == 0x16u16 {
        "6"@
    } else
    if code == 0x1Au16 {
        "7"@
    } else
    if code == 0x1Cu16 {
        "8"@
    } else
    if code == 0x19u16 {
        "9"@
    } else
    if code == 0x1Du16 {
        "0"@
    } else
    if code == 0x24u16 {
        "return"@
    } else
    if code == 0x30u16 {
        "tab"@
    } else
    if code == 0x31u16 {
        "space"@
    } else
    if code == 0x33u16 {
        "delete"@
    } else
    if code == 0x35u16 {
        "escape"@
    } else
    if code == 0x7Bu16 {
        "left"@
    } else
    if code == 0x7Cu16 {
        "right"@
    } else
    if code == 0x7Du16 {
        "down"@
    } else
    if code == 0x7Eu16 {
        "up"@
    } else
    if code == 0x7Au16 {
        "f1"@
    } else
    if code == 0x78u16 {
        "f2"@
    } else
    if code == 0x63u16 {
        "f3"@
    } else
    if code == 0x76u16 {
        "f4"@
    } else
    if code == 0x60u16 {
        "f5"@
    } else
    if code == 0x61u16 {
        "f6"@
    } else
    if code == 0x62u16 {
        "f7"@
    } else
    if code == 0x64u16 {
        "f8"@
    } else
    if code == 0x65u16 {
        "f9"@
    } else
    if code == 0x6Du16 {
        "f10"@
    } else
    if code == 0x67u16 {
        "f11"@
    } else
    if code == 0x6Fu16 {
        "f12"@
    } else
    if code == 0x1Bu16 {
        "minus"@
    } else
    if code == 0x18u16 {
        "equal"@
    } else
    if code == 0x21u16 {
        "leftbracket"@
    } else
    if code == 0x1Eu16 {
        "rightbracket"@
    } else
    if code == 0x2Au16 {
        "backslash"@
    } else
    if code == 0x29u16 {
        "semicolon"@
    } else
    if code == 0x27u16 {
        "quote"@
    } else
    if code == 0x2Bu16 {
        "comma"@
    } else
    if code == 0x2Fu16 {
        "period"@
    } else
    if code == 0x2Cu16 {
        "slash"@
    } else
    if code == 0x32u16 {
        "grave"@
    } else {
        "unknown"@
    }
}

/// Map one key code back to its canonical name.
#[verifier::rlimit(50)]
pub fn key_code_to_str(code: u16) -> (r: &'static str)
    ensures
        r@ == key_name_of(code),
{
    if code == 0x00 {
        return "a";
    }
    if code == 0x0B {
        return "b";
    }
    if code == 0x08 {
        return "c";
    }
    if code == 0x02 {
        return "d";
    }
    if code == 0x0E {
        return "e";
    }
    if code == 0x03 {
        return "f";
    }
    if code == 0x05 {
        return "g";
    }
    if code == 0x04 {
        return "h";
    }
    if code == 0x22 {
        return "i";
    }
    if code == 0x26 {
        return "j";
    }
    if code == 0x28 {
        return "k";
    }
    if code == 0x25 {
        return "l";
    }
    if code == 0x2E {
        return "m";
    }
    if code == 0x2D {
        return "n";
    }
    if code == 0x1F {
        return "o";
    }
    if code == 0x23 {
        return "p";
    }
    if code == 0x0C {
        return "q";
    }
    if code == 0x0F {
        return "r";
    }
    if code == 0x01 {
        return "s";
    }
    if code == 0x11 {
        return "t";
    }
    if code == 0x20 {
        return "u";
    }
    if code == 0x09 {
        return "v";
    }
    if code == 0x0D {
        return "w";
    }
    if code == 0x07 {
        return "x";
    }
    if code == 0x10 {
        return "y";
    }
    if code == 0x06 {
        return "z";
    }
    if code == 0x12 {
        return "1";
    }
    if code == 0x13 {
        return "2";
    }
    if code == 0x14 {
        return "3";
    }
    if code == 0x15 {
        return "4";
    }
    if code == 0x17 {
        return "5";
    }
    if code == 0x16 {
        return "6";
    }
    if code == 0x1A {
        return "7";
    }
    if code == 0x1C {
        return "8";
    }
    if code == 0x19 {
        return "9";
    }
    if code == 0x1D {
        return "0";
    }
    if code == 0x24 {
        return "return";
    }
    if code == 0x30 {
        return "tab";
    }
    if code == 0x31 {
        return "space";
    }
    if code == 0x33 {
        return "delete";
    }
    if code == 0x35 {
        return "escape";
    }
    if code == 0x7B {
        return "left";
    }
    if code == 0x7C {
        return "right";
    }
    if code == 0x7D {
        return "down";
    }
    if code == 0x7E {
        return "up";
    }
    if code == 0x7A {
        return "f1";
    }
    if code == 0x78 {
        return "f2";
    }
    if code == 0x63 {
        return "f3";
    }
    if code == 0x76 {
        return "f4";
    }
    if code == 0x60 {
        return "f5";
    }
    if code == 0x61 {
        return "f6";
    }
    if code == 0x62 {
        return "f7";
    }
    if code == 0x64 {
        return "f8";
    }
    if code == 0x65 {
        return "f9";
    }
    if code == 0x6D {
        return "f10";
    }
    if code == 0x67 {
        return "f11";
    }
    if code == 0x6F {
        return "f12";
    }
    if code == 0x1B {
        return "minus";
    }
    if code == 0x18 {
        return "equal";
    }
    if code == 0x21 {
        return "leftbracket";
    }
    if code == 0x1E {
        return "rightbracket";
    }
    if code == 0x2A {
        return "backslash";
    }
    if code == 0x29 {
        return "semicolon";
    }
    if code == 0x27 {
        return "quote";
    }
    if code == 0x2B {
        return "comma";
    }
    if code == 0x2F {
        return "period";
    }
    if code == 0x2C {
        return "slash";
    }
    if code == 0x32 {
        return "grave";
    }
    "unknown"
}

/// Read a hotkey string such as `alt-1` or `cmd-shift-h`: every
/// dash-separated part but the last names a modifier, the last names the
/// key.
pub fn parse_hotkey(key_str: &str) -> (r: Result<Hotkey, String>)
    ensures
        match hotkey_parts(
            key_str@,
            Modifiers { cmd: false, alt: false, ctrl: false, shift: false },
        ) {
            HotkeyParse::Key { modifiers, key } => match key_code_of(key) {
                Some(c) => r matches Ok(h) && h == (Hotkey { key_code: c, modifiers }),
                None => r matches Err(m) && m@ == "Unknown key: "@ + key,
            },
            HotkeyParse::BadModifier { part } => r matches Err(m) && m@ == "Unknown modifier: "@
                + part,
        },
{
    let n = key_str.unicode_len();
    let mut pos: usize = 0;
    let mut mods = Modifiers { cmd: false, alt: false, ctrl: false, shift: false };
    let ghost init = mods;
    proof {
        assert(key_str@.skip(0) =~= key_str@);
    }
    while pos < n
        invariant
            pos <= n,
            n == key_str@.len(),
            init == (Modifiers { cmd: false, alt: false, ctrl: false, shift: false }),
            hotkey_parts(key_str@, init) == hotkey_parts(key_str@.skip(pos as int), mods),
        decreases n - pos,
    {
        let ghost rest = key_str@.skip(pos as int);
        // find the next dash
        let mut d: usize = pos;
        let mut has_dash = false;
        while d < n && !has_dash
            invariant
                pos <= d <= n,
                n == key_str@.len(),
                !has_dash ==> forall|k: int| pos <= k < d ==> key_str@[k] != '-',
                has_dash ==> pos <= d < n && key_str@[d as int] == '-' && forall|k: int|
                    pos <= k < d ==> key_str@[k] != '-',
            decreases n - d + (if has_dash { 0int } else { 1int }),
        {
            if key_str.get_char(d) == '-' {
                has_dash = true;
            } else {
                d = d + 1;
            }
        }
        proof {
            assert(forall|k: int| 0 <= k < d - pos ==> rest[k] == key_str@[k + pos]);
            if has_dash {
                assert(rest[d - pos] == '-');
                lemma_first_dash(rest, d - pos as int);
            } else {
                lemma_first_dash(rest, rest.len() as int);
            }
        }
        if !has_dash {
            let key_part = key_str.substring_char(pos, n);
            proof {
                assert(key_part@ =~= rest);
                assert(hotkey_parts(key_str@, init) == (HotkeyParse::Key {
                    modifiers: mods,
                    key: rest,
                }));
            }
            return match parse_key_code(key_part) {
                Ok(code) => Ok(Hotkey { key_code: code, modifiers: mods }),
                Err(m) => Err(m),
            };
        }
        let part = key_str.substring_char(pos, d);
        proof {
            assert(part@ =~= rest.take(d - pos as int));
        }
        let flag: Option<Modifiers> = if str_eq_ignore_case(part, "cmd") || str_eq_ignore_case(
            part,
            "super",
        ) || str_eq_ignore_case(part, "command") {
            Some(Modifiers { cmd: true, alt: false, ctrl: false, shift: false })
        } else if str_eq_ignore_case(part, "alt") || str_eq_ignore_case(part, "opt")
            || str_eq_ignore_case(part, "option") {
            Some(Modifiers { cmd: false, alt: true, ctrl: false, shift: false })
        } else if str_eq_ignore_case(part, "ctrl") || str_eq_ignore_case(part, "control") {
            Some(Modifiers { cmd: false, alt: false, ctrl: true, shift: false })
        } else if str_eq_ignore_case(part, "shift") {
            Some(Modifiers { cmd: false, alt: false, ctrl: false, shift: true })
        } else {
            None
        };
        match flag {
            Some(m) => {
                proof {
                    assert(modifier_of(part@) == Some(m));
                    assert(rest.skip((d - pos) + 1) =~= key_str@.skip(d + 1 as int));
                }
                mods = Modifiers {
                    cmd: mods.cmd || m.cmd,
                    alt: mods.alt || m.alt,
                    ctrl: mods.ctrl || m.ctrl,
                    shift: mods.shift || m.shift,
                };
                pos = d + 1;
            },
            None => {
                proof {
                    assert(modifier_of(part@) is None);
                }
                let mut msg = "Unknown modifier: ".to_owned();
                msg.append(part);
                return Err(msg);
            },
        }
    }
    let key_part = key_str.substring_char(pos, n);
    proof {
        let rest = key_str@.skip(pos as int);
        assert(key_part@ =~= rest);
        if pos == n {
            assert(rest =~= Seq::<char>::empty());
            lemma_first_dash(rest, 0);
        }
        assert(hotkey_parts(key_str@, init) == (HotkeyParse::Key { modifiers: mods, key: rest }));
    }
    match parse_key_code(key_part) {
        Ok(code) => Ok(Hotkey { key_code: code, modifiers: mods }),
        Err(m) => Err(m),
    }
}

/// Render a hotkey back to its canonical string: the set modifiers in
/// `cmd`, `alt`, `ctrl`, `shift` order, then the key name, joined by
/// dashes.
pub open spec fn hotkey_string(h: Hotkey) -> Seq<char> {
    (if h.modifiers.cmd {
        "cmd-"@
    } else {
        Seq::<char>::empty()
    }) + (if h.modifiers.alt {
        "alt-"@
    } else {
        Seq::<char>::empty()
    }) + (if h.modifiers.ctrl {
        "ctrl-"@
    } else {
        Seq::<char>::empty()
    }) + (if h.modifiers.shift {
        "shift-"@
    } else {
        Seq::<char>::empty()
    }) + key_name_of(h.key_code)
}

/// Render a hotkey as its canonical string.
pub fn format_hotkey(hotkey: &Hotkey) -> (r: String)
    ensures
        r@ == hotkey_string(*hotkey),
{
    let mut out = String::new();
    if hotkey.modifiers.cmd {
        out.append("cmd-");
    }
    if hotkey.modifiers.alt {
        out.append("alt-");
    }
    if hotkey.modifiers.ctrl {
        out.append("ctrl-");
    }
    if hotkey.modifiers.shift {
        out.append("shift-");
    }
    let name = key_code_to_str(hotkey.key_code);
    out.append(name);
    out
}

} // verus!
