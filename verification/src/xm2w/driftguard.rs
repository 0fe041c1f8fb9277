//! Drift Guard: cancels the XM2w's phantom (-1,-1) report offset.
//!
//! The dongle's pointing interface emits a constant (-1,-1) delta on every
//! report (raw report `01 00 ff ff ff ff 00 00`). Reports at or below the dead
//! zone are dropped; real movement and button changes are re-injected, so the
//! OS only ever sees intentional input. This module holds the decisions; the
//! host side seizes the device and posts the resulting events.

use vstd::prelude::*;

verus! {

// pointer event kinds posted for the host (CGEventType values)
pub const K_CG_MOUSE_MOVED: u32 = 5;
pub const K_CG_LEFT_DOWN: u32 = 1;
pub const K_CG_LEFT_UP: u32 = 2;
pub const K_CG_RIGHT_DOWN: u32 = 3;
pub const K_CG_RIGHT_UP: u32 = 4;
pub const K_CG_OTHER_DOWN: u32 = 25;
pub const K_CG_OTHER_UP: u32 = 26;

/// The largest dead zone the guard accepts.
pub const MAX_DEADZONE: i16 = 32;

pub open spec fn abs(v: i16) -> int {
    if v < 0 {
        -v
    } else {
        v as int
    }
}

/// A movement is kept unless both deltas are within the dead zone.
pub open spec fn spec_filter_report(deadzone: i16, dx: i16, dy: i16) -> (i16, i16) {
    if abs(dx) <= deadzone && abs(dy) <= deadzone {
        (0, 0)
    } else {
        (dx, dy)
    }
}

/// Drops reports at or below the dead zone (the phantom is exactly (-1,-1)
/// on every report; real flicks are far larger).
pub fn filter_report(deadzone: i16, dx: i16, dy: i16) -> (r: (i16, i16))
    requires
        dx != i16::MIN,
        dy != i16::MIN,
    ensures
        r == spec_filter_report(deadzone, dx, dy),
{
    let ax = if dx < 0 { -dx } else { dx };
    let ay = if dy < 0 { -dy } else { dy };
    if ax <= deadzone && ay <= deadzone {
        (0, 0)
    } else {
        (dx, dy)
    }
}

/// Whether bit `bit` of `x` is set.
pub open spec fn bit_set(x: u8, bit: u32) -> bool {
    x & (1u8 << bit) != 0
}

/// The event for button `bit` going down or up: Left and Right have their own
/// kinds, every other button is an "other" button.
pub open spec fn button_event(bit: u32, down: bool) -> (u32, u32) {
    let kind = if bit == 0 {
        if down { K_CG_LEFT_DOWN } else { K_CG_LEFT_UP }
    } else if bit == 1 {
        if down { K_CG_RIGHT_DOWN } else { K_CG_RIGHT_UP }
    } else {
        if down { K_CG_OTHER_DOWN } else { K_CG_OTHER_UP }
    };
    (kind, bit)
}

/// The events for the buttons among the first `n` whose state differs
/// between `prev` and `new`, lowest button first.
pub open spec fn changes_upto(prev: u8, new: u8, n: nat) -> Seq<(u32, u32)>
    decreases n,
{
    if n == 0 {
        Seq::empty()
    } else {
        let bit = (n - 1) as u32;
        let before = changes_upto(prev, new, (n - 1) as nat);
        if bit_set(prev ^ new, bit) {
            before.push(button_event(bit, bit_set(new, bit)))
        } else {
            before
        }
    }
}

pub open spec fn spec_button_changes(prev: u8, new: u8) -> Seq<(u32, u32)> {
    changes_upto(prev, new, 8)
}

/// Maps the report's button bits (1=Left, 2=Right, 3=Middle, 4=Back,
/// 5=Forward, 6..8=extra) to (event kind, button) pairs for the buttons that
/// changed.
pub fn button_changes(prev: u8, new: u8) -> (out: Vec<(u32, u32)>)
    ensures
        out@ == spec_button_changes(prev, new),
{
    let mut out: Vec<(u32, u32)> = Vec::new();
    let changed = prev ^ new;
    let mut bit: u32 = 0;
    while bit < 8
        invariant
            bit <= 8,
            changed == prev ^ new,
            out@ == changes_upto(prev, new, bit as nat),
        decreases 8 - bit,
    {
        if changed & (1u8 << bit) != 0 {
            let down = new & (1u8 << bit) != 0;
            let kind = if bit == 0 {
                if down { K_CG_LEFT_DOWN } else { K_CG_LEFT_UP }
            } else if bit == 1 {
                if down { K_CG_RIGHT_DOWN } else { K_CG_RIGHT_UP }
            } else {
                if down { K_CG_OTHER_DOWN } else { K_CG_OTHER_UP }
            };
            out.push((kind, bit));
        }
        bit = bit + 1;
    }
    out
}

/// Whether an event kind is a button going down.
pub open spec fn is_down_kind(kind: u32) -> bool {
    kind == K_CG_LEFT_DOWN || kind == K_CG_RIGHT_DOWN || kind == K_CG_OTHER_DOWN
}

/// Whether button `bit` is held after `events` are replayed on the state `prev`.
pub open spec fn held_after(prev: u8, events: Seq<(u32, u32)>, bit: u32) -> bool
    decreases events.len(),
{
    if events.len() == 0 {
        bit_set(prev, bit)
    } else if events.last().1 == bit {
        is_down_kind(events.last().0)
    } else {
        held_after(prev, events.drop_last(), bit)
    }
}

proof fn lemma_changes_upto_replay(prev: u8, new: u8, n: nat)
    requires
        n <= 8,
    ensures
        forall|bit: u32|
            bit < 8 ==> #[trigger] held_after(prev, changes_upto(prev, new, n), bit) == (if bit < n {
                bit_set(new, bit)
            } else {
                bit_set(prev, bit)
            }),
    decreases n,
{
    if n > 0 {
        lemma_changes_upto_replay(prev, new, (n - 1) as nat);
        let b = (n - 1) as u32;
        assert(b < 8);
        let p = prev;
        let q = new;
        assert((p ^ q) & (1u8 << b) == 0 ==> ((p & (1u8 << b) != 0) == (q & (1u8 << b) != 0)))
            by (bit_vector);
        let before = changes_upto(prev, new, (n - 1) as nat);
        let after = changes_upto(prev, new, n);
        if bit_set(prev ^ new, b) {
            assert(after.drop_last() =~= before);
        }
        assert forall|bit: u32| bit < 8 implies #[trigger] held_after(prev, after, bit) == (if bit < n {
            bit_set(new, bit)
        } else {
            bit_set(prev, bit)
        }) by {
            assert(held_after(prev, before, bit) == (if bit < n - 1 {
                bit_set(new, bit)
            } else {
                bit_set(prev, bit)
            }));
            if bit == b {
                if !bit_set(prev ^ new, b) {
                    assert(bit_set(prev, b) == bit_set(new, b));
                }
            }
        }
    }
}

/// Replaying the reported button events on the previous button state gives
/// the new button state, for every one of the eight buttons.
pub proof fn lemma_button_changes_replay(prev: u8, new: u8)
    ensures
        forall|bit: u32|
            bit < 8 ==> #[trigger] held_after(prev, spec_button_changes(prev, new), bit) == bit_set(new, bit),
{
    lemma_changes_upto_replay(prev, new, 8);
}

proof fn lemma_no_changes_upto(b: u8, n: nat)
    requires
        n <= 8,
    ensures
        changes_upto(b, b, n) == Seq::<(u32, u32)>::empty(),
    decreases n,
{
    if n > 0 {
        lemma_no_changes_upto(b, (n - 1) as nat);
        let k = (n - 1) as u32;
        assert(k < 8 ==> (b ^ b) & (1u8 << k) == 0) by (bit_vector);
    }
}

/// When no button changed there are no button events.
pub proof fn lemma_no_button_changes(b: u8)
    ensures
        spec_button_changes(b, b) == Seq::<(u32, u32)>::empty(),
{
    lemma_no_changes_upto(b, 8);
}


/// The guard's state: whether it is running, its dead zone (always within
/// `0..=MAX_DEADZONE`), and the button bits of the last movement report.
#[derive(Debug)]
pub struct GuardState {
    active: bool,
    deadzone: i16,
    prev_buttons: u8,
}

/// The mathematical model of the guard's state.
pub struct GuardView {
    pub active: bool,
    pub deadzone: i16,
    pub prev_buttons: u8,
}

impl View for GuardState {
    type V = GuardView;

    closed spec fn view(&self) -> GuardView {
        GuardView { active: self.active, deadzone: self.deadzone, prev_buttons: self.prev_buttons }
    }
}

impl GuardState {
    /// The dead zone stays within `0..=MAX_DEADZONE`.
    #[verifier::type_invariant]
    spec fn deadzone_in_range(self) -> bool {
        0 <= self.deadzone <= MAX_DEADZONE
    }

    /// A stopped guard with dead zone 1 and no button held.
    pub fn new() -> (g: Self)
        ensures
            g@ == (GuardView { active: false, deadzone: 1, prev_buttons: 0 }),
    {
        GuardState { active: false, deadzone: 1, prev_buttons: 0 }
    }
}

/// Whether the guard is running.
pub fn is_active(guard: &GuardState) -> (on: bool)
    ensures
        on == guard@.active,
{
    guard.active
}

/// Records whether the guard is running.
pub fn set_active(guard: &mut GuardState, on: bool)
    ensures
        final(guard)@ == (GuardView { active: on, ..old(guard)@ }),
{
    proof {
        use_type_invariant(&*guard);
    }
    guard.active = on;
}

/// The button bits of the last movement report.
pub fn prev_buttons(guard: &GuardState) -> (b: u8)
    ensures
        b == guard@.prev_buttons,
{
    guard.prev_buttons
}

/// `n` clamped to `0..=MAX_DEADZONE`.
pub open spec fn clamp_deadzone(n: i16) -> i16 {
    if n < 0 {
        0
    } else if n > MAX_DEADZONE {
        MAX_DEADZONE
    } else {
        n
    }
}

/// Sets the dead zone, clamped to `0..=32`.
pub fn set_deadzone(guard: &mut GuardState, n: i16)
    ensures
        final(guard)@ == (GuardView { deadzone: clamp_deadzone(n), ..old(guard)@ }),
{
    let lo = if n < 0 { 0 } else { n };
    guard.deadzone = if lo > MAX_DEADZONE { MAX_DEADZONE } else { lo };
}

/// The current dead zone, which is always within `0..=32`.
pub fn deadzone(guard: &GuardState) -> (n: i16)
    ensures
        n == guard@.deadzone,
        0 <= n <= MAX_DEADZONE,
{
    proof {
        use_type_invariant(guard);
    }
    guard.deadzone
}

/// What the guard re-injects for one raw report.
#[derive(Debug, Clone, Copy, PartialEq, Eq)]
pub enum PointerEvent {
    /// A pointer movement by `dx`, `dy`.
    Move { dx: i16, dy: i16 },
    /// A button event: `kind` is a `K_CG_*` kind, `button` the button number.
    Button { kind: u32, button: u32 },
}

/// The signed 16-bit value stored little-endian as `lo`, `hi`.
pub open spec fn spec_le_i16(lo: u8, hi: u8) -> int {
    lo + 256 * hi - (if hi >= 128 { 65536int } else { 0 })
}

/// Decodes a little-endian signed 16-bit value.
pub fn le_i16(lo: u8, hi: u8) -> (v: i16)
    ensures
        v == spec_le_i16(lo, hi),
{
    if hi < 128 {
        lo as i16 + (hi as i16) * 256
    } else {
        ((hi as i16) - 256) * 256 + lo as i16
    }
}

/// Whether `report` is a movement report (id 1, at least 6 bytes).
pub open spec fn is_movement_report(report: Seq<u8>) -> bool {
    report.len() >= 6 && report[0] == 0x01
}

/// The events for a movement report: a move if the filtered delta is not zero,
/// then the changes of the button bits since the last report.
pub open spec fn spec_report_events(deadzone: i16, prev_buttons: u8, report: Seq<u8>) -> Seq<PointerEvent> {
    let d = spec_filter_report(
        deadzone,
        spec_le_i16(report[2], report[3]) as i16,
        spec_le_i16(report[4], report[5]) as i16,
    );
    let moves = if d.0 != 0 || d.1 != 0 {
        seq![PointerEvent::Move { dx: d.0, dy: d.1 }]
    } else {
        Seq::empty()
    };
    moves + spec_button_changes(prev_buttons, report[1]).map_values(
        |c: (u32, u32)| PointerEvent::Button { kind: c.0, button: c.1 },
    )
}

/// Handles one raw report `[id][buttons][dx lo][dx hi][dy lo][dy hi]...`:
/// anything but a movement report is ignored; for a movement report the
/// guard remembers the new button bits and returns the events to re-inject.
pub fn handle_report(guard: &mut GuardState, report: &[u8]) -> (events: Vec<PointerEvent>)
    requires
        is_movement_report(report@) ==> spec_le_i16(report@[2], report@[3]) != i16::MIN
            && spec_le_i16(report@[4], report@[5]) != i16::MIN,
    ensures
        !is_movement_report(report@) ==> events@ == Seq::<PointerEvent>::empty() && final(guard)@
            == old(guard)@,
        is_movement_report(report@) ==> events@ == spec_report_events(
            old(guard)@.deadzone,
            old(guard)@.prev_buttons,
            report@,
        ) && final(guard)@ == (GuardView { prev_buttons: report@[1], ..old(guard)@ }),
{
    let mut events: Vec<PointerEvent> = Vec::new();
    if report.len() < 6 || report[0] != 0x01 {
        return events;
    }
    let buttons = report[1];
    let raw_dx = le_i16(report[2], report[3]);
    let raw_dy = le_i16(report[4], report[5]);
    let (dx, dy) = filter_report(guard.deadzone, raw_dx, raw_dy);
    if dx != 0 || dy != 0 {
        events.push(PointerEvent::Move { dx, dy });
    }
    let ghost moves = events@;
    let prev = guard.prev_buttons;
    proof {
        use_type_invariant(&*guard);
    }
    guard.prev_buttons = buttons;
    if prev != buttons {
        let changes = button_changes(prev, buttons);
        let n = changes.len();
        let mut i: usize = 0;
        while i < n
            invariant
                i <= n,
                n == changes@.len(),
                events@ == moves + changes@.take(i as int).map_values(
                    |c: (u32, u32)| PointerEvent::Button { kind: c.0, button: c.1 },
                ),
            decreases n - i,
        {
            let (kind, button) = changes[i];
            events.push(PointerEvent::Button { kind, button });
            assert(changes@.take(i + 1) =~= changes@.take(i as int).push(changes@[i as int]));
            i = i + 1;
        }
        assert(changes@.take(n as int) =~= changes@);
    } else {
        proof {
            lemma_no_button_changes(prev);
        }
    }
    assert(events@ =~= spec_report_events(old(guard)@.deadzone, old(guard)@.prev_buttons, report@));
    events
}


/// What starting the guard does.
#[derive(Debug, Clone, Copy, PartialEq, Eq)]
pub enum GuardStart {
    /// It is already running: nothing to do.
    AlreadyActive,
    /// Refused: the guard cannot run against the emulator.
    EmulatorMode,
    /// Refused: the guard needs macOS.
    NotMacOs,
    /// Refused until the Accessibility permission is granted: ask for it.
    NeedsAccessibility,
    /// Start the guard thread.
    Spawn,
}

/// The start decision: a running guard stays as it is; otherwise the emulator
/// and other platforms than macOS refuse, and on macOS the Accessibility
/// permission is needed before the guard thread starts.
pub open spec fn spec_start_decision(active: bool, emulator_on: bool, macos: bool, accessibility: bool) -> GuardStart {
    if active {
        GuardStart::AlreadyActive
    } else if emulator_on {
        GuardStart::EmulatorMode
    } else if !macos {
        GuardStart::NotMacOs
    } else if !accessibility {
        GuardStart::NeedsAccessibility
    } else {
        GuardStart::Spawn
    }
}

/// Decides what starting the guard does.
pub fn start_decision(active: bool, emulator_on: bool, macos: bool, accessibility: bool) -> (d: GuardStart)
    ensures
        d == spec_start_decision(active, emulator_on, macos, accessibility),
{
    if active {
        GuardStart::AlreadyActive
    } else if emulator_on {
        GuardStart::EmulatorMode
    } else if !macos {
        GuardStart::NotMacOs
    } else if !accessibility {
        GuardStart::NeedsAccessibility
    } else {
        GuardStart::Spawn
    }
}


/// The event for each changed button has that button's own kind: bit 0 is
/// the left button (kinds 1 down / 2 up), bit 1 the right button (3 / 4), any
/// other bit an "other" button (25 / 26); down exactly when the button is
/// pressed in `new`. Every event is for a button whose bit changed.
proof fn lemma_changes_upto_kinds(prev: u8, new: u8, n: nat)
    requires
        n <= 8,
    ensures
        forall|i: int|
            0 <= i < changes_upto(prev, new, n).len() ==> {
                let k = (#[trigger] changes_upto(prev, new, n)[i]).0;
                let b = changes_upto(prev, new, n)[i].1;
                let down = new & (1u8 << b) != 0;
                &&& b < n
                &&& (prev ^ new) & (1u8 << b) != 0
                &&& (b == 0 && down ==> k == 1)
                &&& (b == 0 && !down ==> k == 2)
                &&& (b == 1 && down ==> k == 3)
                &&& (b == 1 && !down ==> k == 4)
                &&& (b >= 2 && down ==> k == 25)
                &&& (b >= 2 && !down ==> k == 26)
            },
    decreases n,
{
    if n > 0 {
        lemma_changes_upto_kinds(prev, new, (n - 1) as nat);
        let before = changes_upto(prev, new, (n - 1) as nat);
        let after = changes_upto(prev, new, n);
        let bit = (n - 1) as u32;
        if bit_set(prev ^ new, bit) {
            assert forall|i: int| 0 <= i < before.len() implies after[i] == #[trigger] before[i] by {}
            let ev = button_event(bit, bit_set(new, bit));
            assert(after[before.len() as int] == ev);
            assert(ev.1 == bit);
        }
    }
}

/// The events for the buttons that changed between `prev` and `new` carry
/// the documented kinds: left down/up = 1/2 for bit 0, right down/up = 3/4
/// for bit 1, other down/up = 25/26 for bits 2..7, down exactly when the bit
/// is set in `new`; each event's bit changed. So a right-button release is
/// `(K_CG_RIGHT_UP, 1)`.
pub proof fn lemma_button_event_kinds(prev: u8, new: u8)
    ensures
        forall|i: int|
            0 <= i < spec_button_changes(prev, new).len() ==> {
                let k = (#[trigger] spec_button_changes(prev, new)[i]).0;
                let b = spec_button_changes(prev, new)[i].1;
                let down = new & (1u8 << b) != 0;
                &&& b < 8
                &&& (prev ^ new) & (1u8 << b) != 0
                &&& (b == 0 && down ==> k == 1)
                &&& (b == 0 && !down ==> k == 2)
                &&& (b == 1 && down ==> k == 3)
                &&& (b == 1 && !down ==> k == 4)
                &&& (b >= 2 && down ==> k == 25)
                &&& (b >= 2 && !down ==> k == 26)
            },
{
    lemma_changes_upto_kinds(prev, new, 8);
}

/// A running guard is never started again; a guard that is not running is
/// refused in emulator mode, off macOS, and without the Accessibility
/// permission, and it is spawned exactly when none of these holds.
pub proof fn lemma_start_decision(active: bool, emulator_on: bool, macos: bool, accessibility: bool)
    ensures
        active ==> spec_start_decision(active, emulator_on, macos, accessibility) == GuardStart::AlreadyActive,
        (spec_start_decision(active, emulator_on, macos, accessibility) == GuardStart::Spawn) <==> (!active
            && !emulator_on && macos && accessibility),
        (spec_start_decision(active, emulator_on, macos, accessibility) == GuardStart::EmulatorMode) <==> (
        !active && emulator_on),
        (spec_start_decision(active, emulator_on, macos, accessibility) == GuardStart::NotMacOs) <==> (!active
            && !emulator_on && !macos),
        (spec_start_decision(active, emulator_on, macos, accessibility) == GuardStart::NeedsAccessibility)
            <==> (!active && !emulator_on && macos && !accessibility),
{
}

} // verus!
