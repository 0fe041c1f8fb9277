//! Verified text builders: hexadecimal and decimal numbers, key names and
//! the human-readable description of a button binding.

use vstd::prelude::*;

verus! {

/// The character of a digit `d` (0..=15) in lower-case hexadecimal.
pub open spec fn hex_char(d: int) -> char {
    if d < 10 {
        (48 + d) as char
    } else {
        (87 + d) as char
    }
}

/// `v` as two lower-case hexadecimal digits (as `format!("{v:02x}")` prints it).
pub open spec fn hex2(v: u8) -> Seq<char> {
    seq![hex_char(v as int / 16), hex_char(v as int % 16)]
}

/// `n` in decimal, without leading zeros (as `format!("{n}")` prints it).
pub open spec fn decimal(n: nat) -> Seq<char>
    decreases n,
{
    if n < 10 {
        seq![hex_char(n as int)]
    } else {
        decimal(n / 10).push(hex_char((n % 10) as int))
    }
}

/// `String::push`: appends one character to the string.
#[verifier::external_body]
fn push_char(s: &mut String, c: char)
    ensures
        final(s)@ == old(s)@.push(c),
{
    s.push(c);
}

/// The hexadecimal digit character for `d`.
fn digit_char(d: u8) -> (c: char)
    requires
        d < 16,
    ensures
        c == hex_char(d as int),
{
    if d < 10 {
        (48u8 + d) as char
    } else {
        (87u8 + d) as char
    }
}

/// Appends `v` as two lower-case hexadecimal digits.
pub fn push_hex2(s: &mut String, v: u8)
    ensures
        final(s)@ == old(s)@ + hex2(v),
{
    push_char(s, digit_char(v / 16));
    push_char(s, digit_char(v % 16));
    assert(s@ =~= old(s)@ + hex2(v));
}

/// Appends `n` in decimal.
pub fn push_decimal(s: &mut String, n: u64)
    ensures
        final(s)@ == old(s)@ + decimal(n as nat),
    decreases n,
{
    if n >= 10 {
        push_decimal(s, n / 10);
    }
    push_char(s, digit_char((n % 10) as u8));
    assert(s@ =~= old(s)@ + decimal(n as nat));
}

/// The name of a key whose device code is `dev_code` (the device stores the
/// HID usage minus one), after the HID usage table: letters A..Z, digits
/// 1..9 and 0, a few named keys, F1..F12, and `0x..` for anything else.
pub open spec fn spec_key_name(dev_code: u8) -> Seq<char> {
    let usage = (dev_code + 1) % 256;
    if 0x04 <= usage <= 0x1D {
        seq![(65 + usage - 0x04) as char]
    } else if 0x1E <= usage <= 0x26 {
        seq![(49 + usage - 0x1E) as char]
    } else if usage == 0x27 {
        seq!['0']
    } else if usage == 0x28 {
        "Enter"@
    } else if usage == 0x29 {
        "Esc"@
    } else if usage == 0x2A {
        "Backspace"@
    } else if usage == 0x2B {
        "Tab"@
    } else if usage == 0x2C {
        "Space"@
    } else if 0x3A <= usage <= 0x45 {
        "F"@ + decimal((usage - 0x39) as nat)
    } else {
        "0x"@ + hex2(usage as u8)
    }
}

/// The name of the key with device code `dev_code`.
pub fn key_name(dev_code: u8) -> (name: String)
    ensures
        name@ == spec_key_name(dev_code),
{
    let usage: u8 = if dev_code == 255 { 0 } else { dev_code + 1 };
    if 0x04 <= usage && usage <= 0x1D {
        let mut s = String::new();
        push_char(&mut s, (65u8 + (usage - 0x04)) as char);
        assert(s@ =~= spec_key_name(dev_code));
        s
    } else if 0x1E <= usage && usage <= 0x26 {
        let mut s = String::new();
        push_char(&mut s, (49u8 + (usage - 0x1E)) as char);
        assert(s@ =~= spec_key_name(dev_code));
        s
    } else if usage == 0x27 {
        let mut s = String::new();
        push_char(&mut s, '0');
        assert(s@ =~= spec_key_name(dev_code));
        s
    } else if usage == 0x28 {
        String::from_str("Enter")
    } else if usage == 0x29 {
        String::from_str("Esc")
    } else if usage == 0x2A {
        String::from_str("Backspace")
    } else if usage == 0x2B {
        String::from_str("Tab")
    } else if usage == 0x2C {
        String::from_str("Space")
    } else if 0x3A <= usage && usage <= 0x45 {
        let mut s = String::from_str("F");
        push_decimal(&mut s, (usage - 0x39) as u64);
        s
    } else {
        let mut s = String::from_str("0x");
        push_hex2(&mut s, usage);
        s
    }
}

/// The modifier prefix of a keyboard binding: Ctrl+, Shift+, Alt+, Win+ for bits 1, 2, 4, 8.
pub open spec fn modifier_prefix(mods: u8) -> Seq<char> {
    (if mods & 1 != 0 { "Ctrl+"@ } else { Seq::empty() }) + (if mods & 2 != 0 {
        "Shift+"@
    } else {
        Seq::empty()
    }) + (if mods & 4 != 0 { "Alt+"@ } else { Seq::empty() }) + (if mods & 8 != 0 {
        "Win+"@
    } else {
        Seq::empty()
    })
}

/// What pressing a button does, given its 7-byte struct `[kind][v0..v4][debounce]`.
pub open spec fn spec_interpret_slot(b: Seq<u8>) -> Seq<char> {
    let kind = b[0];
    let v0 = b[1];
    if kind == 0x00 {
        if v0 == 0x00 {
            "Left click"@
        } else if v0 == 0x02 {
            "Right click"@
        } else if v0 == 0x04 {
            "Middle click"@
        } else if v0 == 0x08 {
            "Back"@
        } else if v0 == 0x10 {
            "Forward"@
        } else {
            "Mouse 0x"@ + hex2(v0)
        }
    } else if kind == 0x01 {
        if v0 == 1 {
            "Scroll up"@
        } else {
            "Scroll down"@
        }
    } else if kind == 0x02 {
        modifier_prefix(v0) + spec_key_name(b[2])
    } else if kind == 0x09 {
        "DPI cycle"@
    } else if kind == 0xFF {
        "Disabled"@
    } else {
        "Kind 0x"@ + hex2(kind)
    }
}

/// Describes what a button struct does when pressed.
pub fn interpret_slot(b: &[u8]) -> (action: String)
    requires
        b@.len() >= 6,
    ensures
        action@ == spec_interpret_slot(b@),
{
    let kind = b[0];
    let v0 = b[1];
    match kind {
        0x00 => {
            match v0 {
                0x00 => String::from_str("Left click"),
                0x02 => String::from_str("Right click"),
                0x04 => String::from_str("Middle click"),
                0x08 => String::from_str("Back"),
                0x10 => String::from_str("Forward"),
                other => {
                    let mut s = String::from_str("Mouse 0x");
                    push_hex2(&mut s, other);
                    s
                },
            }
        },
        0x01 => {
            if v0 == 1 {
                String::from_str("Scroll up")
            } else {
                String::from_str("Scroll down")
            }
        },
        0x02 => {
            let mods = v0;
            let code = b[2];
            let mut s = String::new();
            if mods & 1 != 0 {
                s.append("Ctrl+");
            }
            if mods & 2 != 0 {
                s.append("Shift+");
            }
            if mods & 4 != 0 {
                s.append("Alt+");
            }
            if mods & 8 != 0 {
                s.append("Win+");
            }
            let name = key_name(code);
            s.append(name.as_str());
            assert(s@ =~= spec_interpret_slot(b@));
            s
        },
        0x09 => String::from_str("DPI cycle"),
        0xFF => String::from_str("Disabled"),
        other => {
            let mut s = String::from_str("Kind 0x");
            push_hex2(&mut s, other);
            s
        },
    }
}


/// `bytes` as lower-case hexadecimal, two digits per byte.
pub open spec fn hex_all(bytes: Seq<u8>) -> Seq<char>
    decreases bytes.len(),
{
    if bytes.len() == 0 {
        Seq::empty()
    } else {
        hex_all(bytes.drop_last()) + hex2(bytes.last())
    }
}

/// Renders `bytes` as lower-case hexadecimal, two digits per byte.
pub fn hex_string(bytes: &[u8]) -> (s: String)
    ensures
        s@ == hex_all(bytes@),
{
    let mut s = String::new();
    let n = bytes.len();
    let mut i: usize = 0;
    while i < n
        invariant
            i <= n,
            n == bytes@.len(),
            s@ == hex_all(bytes@.take(i as int)),
        decreases n - i,
    {
        push_hex2(&mut s, bytes[i]);
        assert(bytes@.take(i + 1).drop_last() =~= bytes@.take(i as int));
        i = i + 1;
    }
    assert(bytes@.take(n as int) =~= bytes@);
    s
}


/// A keyboard binding `[2][mods][code]..` is described as its modifiers
/// (bit 1 = "Ctrl+", bit 2 = "Shift+", bit 4 = "Alt+", bit 8 = "Win+", in that
/// order) followed by the name of its key; a mouse binding `[0][v0]..` names
/// the documented mouse codes (0 Left click, 2 Right click, 4 Middle click,
/// 8 Back, 0x10 Forward).
pub proof fn lemma_binding_descriptions(b: Seq<u8>)
    requires
        b.len() >= 6,
    ensures
        b[0] == 2 ==> spec_interpret_slot(b) == (if b[1] & 1 != 0 { "Ctrl+"@ } else { Seq::<char>::empty() })
            + (if b[1] & 2 != 0 { "Shift+"@ } else { Seq::<char>::empty() }) + (if b[1] & 4 != 0 {
            "Alt+"@
        } else {
            Seq::<char>::empty()
        }) + (if b[1] & 8 != 0 { "Win+"@ } else { Seq::<char>::empty() }) + spec_key_name(b[2]),
        b[0] == 0 && b[1] == 0 ==> spec_interpret_slot(b) == "Left click"@,
        b[0] == 0 && b[1] == 2 ==> spec_interpret_slot(b) == "Right click"@,
        b[0] == 0 && b[1] == 4 ==> spec_interpret_slot(b) == "Middle click"@,
        b[0] == 0 && b[1] == 8 ==> spec_interpret_slot(b) == "Back"@,
        b[0] == 0 && b[1] == 0x10 ==> spec_interpret_slot(b) == "Forward"@,
        b[0] == 9 ==> spec_interpret_slot(b) == "DPI cycle"@,
        b[0] == 0xFF ==> spec_interpret_slot(b) == "Disabled"@,
{
}

} // verus!
