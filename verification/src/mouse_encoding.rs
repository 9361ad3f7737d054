//! Mouse events as VT escape sequences.
use vstd::prelude::*;

use crate::text::push_decimal_bytes;

verus! {

/// Mouse button identifiers for VT encoding.
#[derive(Debug, Clone, Copy, PartialEq, Eq, Structural)]
pub enum MouseButton {
    Left,
    Middle,
    Right,
    /// No button (motion-only events).
    NoButton,
    WheelUp,
    WheelDown,
}

/// VT button code (without modifier bits).
pub open spec fn button_code(b: MouseButton) -> u8 {
    match b {
        MouseButton::Left => 0,
        MouseButton::Middle => 1,
        MouseButton::Right => 2,
        MouseButton::NoButton => 3,
        MouseButton::WheelUp => 64,
        MouseButton::WheelDown => 65,
    }
}

impl MouseButton {
    /// VT button code for SGR and normal modes (without modifier bits).
    pub fn code(self) -> (r: u8)
        ensures
            r == button_code(self),
    {
        match self {
            MouseButton::Left => 0,
            MouseButton::Middle => 1,
            MouseButton::Right => 2,
            MouseButton::NoButton => 3,
            MouseButton::WheelUp => 64,
            MouseButton::WheelDown => 65,
        }
    }
}

/// `ESC [ < code ; col ; row suffix`, with columns and rows counted from one.
pub open spec fn sgr_bytes(code: u8, col: nat, row: nat, suffix: u8) -> Seq<u8> {
    seq![0x1Bu8, 0x5B, 0x3C] + crate::text::decimal_bytes(code as nat) + seq![0x3Bu8]
        + crate::text::decimal_bytes(col + 1) + seq![0x3Bu8] + crate::text::decimal_bytes(row + 1)
        + seq![suffix]
}

/// How a column or row is written in the legacy format: counted from one and raised by 32, as
/// far as a byte goes. Only the low byte of the count is kept.
pub open spec fn legacy_position(n: nat) -> u8 {
    let low = (n + 1) % 256;
    (if low + 32 > 255 {
        255
    } else {
        low + 32
    }) as u8
}

/// `ESC [ M code col row`, all three raised by 32.
pub open spec fn legacy_bytes(code: int, col: nat, row: nat) -> Seq<u8> {
    seq![0x1Bu8, 0x5B, 0x4D, (code + 32) as u8, legacy_position(col), legacy_position(row)]
}

/// The bytes of a press or release. In the legacy format every release looks the same.
pub open spec fn mouse_event_bytes(
    button: MouseButton,
    press: bool,
    col: nat,
    row: nat,
    modifier_bits: u8,
    sgr: bool,
) -> Seq<u8> {
    let code = button_code(button) | modifier_bits;
    if sgr {
        sgr_bytes(
            code,
            col,
            row,
            if press {
                0x4Du8
            } else {
                0x6Du8
            },
        )
    } else if press {
        legacy_bytes(code as int, col, row)
    } else {
        legacy_bytes(3, col, row)
    }
}

/// The bytes of a motion: the button code with the motion flag.
pub open spec fn mouse_motion_bytes(
    button: MouseButton,
    col: nat,
    row: nat,
    modifier_bits: u8,
    sgr: bool,
) -> Seq<u8> {
    let code = button_code(button) | modifier_bits | 32u8;
    if sgr {
        sgr_bytes(code, col, row, 0x4D)
    } else {
        legacy_bytes(code as int, col, row)
    }
}

/// Writes an event in the SGR format.
fn encode_sgr(code: u8, col: usize, row: usize, suffix: u8) -> (r: Vec<u8>)
    requires
        col < usize::MAX,
        row < usize::MAX,
    ensures
        r@ == sgr_bytes(code, col as nat, row as nat, suffix),
{
    let mut v: Vec<u8> = vec![0x1B, 0x5B, 0x3C];
    push_decimal_bytes(&mut v, code as u64);
    v.push(0x3B);
    push_decimal_bytes(&mut v, (col + 1) as u64);
    v.push(0x3B);
    push_decimal_bytes(&mut v, (row + 1) as u64);
    v.push(suffix);
    assert(v@ =~= sgr_bytes(code, col as nat, row as nat, suffix));
    v
}

/// Writes a column or row in the legacy format.
fn legacy_byte(n: usize) -> (r: u8)
    requires
        n < usize::MAX,
    ensures
        r == legacy_position(n as nat),
{
    let low: u8 = ((n + 1) % 256) as u8;
    low.saturating_add(32)
}

/// Encode a mouse press/release event as a VT escape sequence.
///
/// Uses SGR format when `sgr` is true, otherwise the legacy X10 format.
///
/// `col` and `row` are 0-based; the encoding converts to 1-based as needed.
/// `modifier_bits`: 4=shift, 8=alt, 16=ctrl (OR'd into button code).
pub fn encode_mouse_event(
    button: MouseButton,
    press: bool,
    col: usize,
    row: usize,
    modifier_bits: u8,
    sgr: bool,
) -> (r: Vec<u8>)
    requires
        col < usize::MAX,
        row < usize::MAX,
        press && !sgr ==> (button_code(button) | modifier_bits) + 32 <= 255,
    ensures
        r@ == mouse_event_bytes(button, press, col as nat, row as nat, modifier_bits, sgr),
{
    let cb: u8 = button.code() | modifier_bits;
    if sgr {
        let suffix: u8 = if press {
            0x4D
        } else {
            0x6D
        };
        encode_sgr(cb, col, row, suffix)
    } else {
        let cb: u8 = if press {
            cb + 32
        } else {
            3 + 32
        };
        vec![0x1B, 0x5B, 0x4D, cb, legacy_byte(col), legacy_byte(row)]
    }
}

/// Encode a mouse motion event as a VT escape sequence.
///
/// Motion events set 32 in the button code to indicate movement.
pub fn encode_mouse_motion(
    button: MouseButton,
    col: usize,
    row: usize,
    modifier_bits: u8,
    sgr: bool,
) -> (r: Vec<u8>)
    requires
        col < usize::MAX,
        row < usize::MAX,
        !sgr ==> (button_code(button) | modifier_bits | 32u8) + 32 <= 255,
    ensures
        r@ == mouse_motion_bytes(button, col as nat, row as nat, modifier_bits, sgr),
{
    let cb: u8 = button.code() | modifier_bits | 32;
    if sgr {
        encode_sgr(cb, col, row, 0x4D)
    } else {
        vec![0x1B, 0x5B, 0x4D, cb + 32, legacy_byte(col), legacy_byte(row)]
    }
}

// ── Laws ─────────────────────────────────────────────────────────────────────

/// The code that names a button and what happens with it: two bits for the buttons, 32 for motion,
/// 64 for the wheel.
pub proof fn law_buttons_have_their_codes()
    ensures
        button_code(MouseButton::Left) == 0,
        button_code(MouseButton::Middle) == 1,
        button_code(MouseButton::Right) == 2,
        button_code(MouseButton::NoButton) == 3,
        button_code(MouseButton::WheelUp) == 64,
        button_code(MouseButton::WheelDown) == 65,
{
}

/// In the SGR format an event is ESC [ < and three numbers with semicolons between them: the code,
/// the column and the row, both counted from one. A capital M ends a press and a motion, a small m a
/// release. Shift, Alt and Ctrl add 4, 8 and 16 to the code, and motion adds 32.
pub proof fn law_sgr_events(
    button: MouseButton,
    col: nat,
    row: nat,
    shift: bool,
    alt: bool,
    ctrl: bool,
)
    ensures
        ({
            let bits = ((if shift { 4int } else { 0 }) + (if alt { 8int } else { 0 }) + (if ctrl {
                16int
            } else {
                0
            })) as u8;
            let number = match button {
                MouseButton::Left => 0int,
                MouseButton::Middle => 1,
                MouseButton::Right => 2,
                MouseButton::NoButton => 3,
                MouseButton::WheelUp => 64,
                MouseButton::WheelDown => 65,
            };
            let place = seq![0x3Bu8] + crate::text::decimal_bytes(col + 1) + seq![0x3Bu8]
                + crate::text::decimal_bytes(row + 1);
            let start = seq![0x1Bu8, 0x5B, 0x3C];
            &&& mouse_event_bytes(button, true, col, row, bits, true) == start
                + crate::text::decimal_bytes((number + bits) as nat) + place + seq![0x4Du8]
            &&& mouse_event_bytes(button, false, col, row, bits, true) == start
                + crate::text::decimal_bytes((number + bits) as nat) + place + seq![0x6Du8]
            &&& mouse_motion_bytes(button, col, row, bits, true) == start
                + crate::text::decimal_bytes((number + bits + 32) as nat) + place + seq![0x4Du8]
        }),
{
    let bits = ((if shift { 4int } else { 0 }) + (if alt { 8int } else { 0 }) + (if ctrl {
        16int
    } else {
        0
    })) as u8;
    let b = button_code(button);
    lemma_code_bits(b, bits);
    lemma_sgr_parts(b | bits, col, row, 0x4D);
    lemma_sgr_parts(b | bits, col, row, 0x6D);
    lemma_sgr_parts(b | bits | 32u8, col, row, 0x4D);
}

proof fn lemma_sgr_parts(code: u8, col: nat, row: nat, suffix: u8)
    ensures
        sgr_bytes(code, col, row, suffix) == seq![0x1Bu8, 0x5B, 0x3C] + crate::text::decimal_bytes(
            code as nat,
        ) + (seq![0x3Bu8] + crate::text::decimal_bytes(col + 1) + seq![0x3Bu8]
            + crate::text::decimal_bytes(row + 1)) + seq![suffix],
{
    let a = seq![0x1Bu8, 0x5B, 0x3C] + crate::text::decimal_bytes(code as nat);
    let x = crate::text::decimal_bytes(col + 1);
    let y = crate::text::decimal_bytes(row + 1);
    let sep = seq![0x3Bu8];
    assert(a + sep + x + sep + y =~= a + (sep + x + sep + y));
}

/// In the legacy format an event is ESC [ M and three bytes: the code, the column and the row, both
/// counted from one, each raised by 32. Every release has the code 3.
pub proof fn law_legacy_events(
    button: MouseButton,
    col: nat,
    row: nat,
    shift: bool,
    alt: bool,
    ctrl: bool,
)
    requires
        col < 223,
        row < 223,
    ensures
        ({
            let bits = ((if shift { 4int } else { 0 }) + (if alt { 8int } else { 0 }) + (if ctrl {
                16int
            } else {
                0
            })) as u8;
            let number = match button {
                MouseButton::Left => 0int,
                MouseButton::Middle => 1,
                MouseButton::Right => 2,
                MouseButton::NoButton => 3,
                MouseButton::WheelUp => 64,
                MouseButton::WheelDown => 65,
            };
            let x = (col + 33) as u8;
            let y = (row + 33) as u8;
            &&& mouse_event_bytes(button, true, col, row, bits, false) == seq![
                0x1Bu8,
                0x5B,
                0x4D,
                (number + bits + 32) as u8,
                x,
                y,
            ]
            &&& mouse_event_bytes(button, false, col, row, bits, false) == seq![
                0x1Bu8,
                0x5B,
                0x4D,
                35,
                x,
                y,
            ]
            &&& mouse_motion_bytes(button, col, row, bits, false) == seq![
                0x1Bu8,
                0x5B,
                0x4D,
                (number + bits + 64) as u8,
                x,
                y,
            ]
        }),
{
    let bits = ((if shift { 4int } else { 0 }) + (if alt { 8int } else { 0 }) + (if ctrl {
        16int
    } else {
        0
    })) as u8;
    lemma_code_bits(button_code(button), bits);
}

proof fn lemma_code_bits(b: u8, bits: u8)
    requires
        b == 0 || b == 1 || b == 2 || b == 3 || b == 64 || b == 65,
        bits == 0 || bits == 4 || bits == 8 || bits == 12 || bits == 16 || bits == 20 || bits == 24
            || bits == 28,
    ensures
        b | bits == b + bits,
        b | bits | 32u8 == b + bits + 32,
{
    assert(b | bits == b + bits && b | bits | 32u8 == b + bits + 32) by (bit_vector)
        requires
            b == 0 || b == 1 || b == 2 || b == 3 || b == 64 || b == 65,
            bits == 0 || bits == 4 || bits == 8 || bits == 12 || bits == 16 || bits == 20 || bits
                == 24 || bits == 28,
    ;
}

/// A position that the legacy format cannot reach is written as the last one that it can, or, where
/// its low byte is small, as that byte.
pub proof fn law_legacy_positions(n: nat)
    ensures
        n < 223 ==> legacy_position(n) == n + 33,
        223 <= n < 255 ==> legacy_position(n) == 255,
        legacy_position(n + 256) == legacy_position(n),
{
}

} // verus!
