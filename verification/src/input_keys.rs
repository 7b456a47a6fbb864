//! Decoding raw Linux input events into keyboard key events, tracking the
//! pending scan code and the modifier keys held down.
use vstd::prelude::*;

verus! {

/// Event type: synchronisation marker.
pub const EV_SYN: u16 = 0x00;

/// Event type: key press, release or repeat.
pub const EV_KEY: u16 = 0x01;

/// Event type: miscellaneous data, such as a scan code.
pub const EV_MSC: u16 = 0x04;

/// `EV_SYN` code that ends one report.
pub const SYN_REPORT: u16 = 0x00;

/// `EV_MSC` code that carries the hardware scan code of the next key event.
pub const MSC_SCAN: u16 = 0x04;

// Key codes of the modifier keys, from Linux `input-event-codes.h` (the
// values of `evdev::KeyCode`'s constants of the same names).
pub const KEY_LEFTCTRL: u16 = 29;

pub const KEY_RIGHTCTRL: u16 = 97;

pub const KEY_LEFTSHIFT: u16 = 42;

pub const KEY_RIGHTSHIFT: u16 = 54;

pub const KEY_LEFTALT: u16 = 56;

pub const KEY_RIGHTALT: u16 = 100;

pub const KEY_LEFTMETA: u16 = 125;

pub const KEY_RIGHTMETA: u16 = 126;

/// The symbolic name `evdev` gives key code `code` (the `Debug` text of
/// `evdev::KeyCode::new(code)`).
pub uninterp spec fn evdev_key_name(code: u16) -> Seq<char>;

/// `format!("{:?}", evdev::KeyCode::new(code))`: the text is `evdev`'s and is
/// only named here, as a function of the code.
#[verifier::external_body]
fn evdev_key_debug_name(code: u16) -> (r: String)
    ensures
        r@ == evdev_key_name(code),
{
    format!("{:?}", evdev::KeyCode::new(code))
}

/// The symbolic name of a Linux key code, such as `KEY_T`.
pub fn linux_key_name(code: u16) -> (r: String)
    ensures
        r@ == evdev_key_name(code),
{
    evdev_key_debug_name(code)
}

/// One raw `input_event`: type, code and value.
#[derive(Clone, Copy, Debug, PartialEq, Eq, Structural)]
pub struct RawInputEvent {
    pub event_type: u16,
    pub code: u16,
    pub value: i32,
}

impl RawInputEvent {
    pub fn new(event_type: u16, code: u16, value: i32) -> (r: Self)
        ensures
            r == (RawInputEvent { event_type, code, value }),
    {
        RawInputEvent { event_type, code, value }
    }
}

/// Whether a key went up, down, or repeats while held.
#[derive(Clone, Copy, Debug, PartialEq, Eq, Structural)]
pub enum KeyState {
    Up,
    Down,
    Repeat,
}

impl KeyState {
    /// The state an `EV_KEY` value encodes: 0 up, 1 down, 2 repeat.
    pub open spec fn spec_from_raw(value: i32) -> Option<KeyState> {
        if value == 0 {
            Some(KeyState::Up)
        } else if value == 1 {
            Some(KeyState::Down)
        } else if value == 2 {
            Some(KeyState::Repeat)
        } else {
            None
        }
    }

    pub fn from_raw(value: i32) -> (r: Option<Self>)
        ensures
            r == Self::spec_from_raw(value),
    {
        match value {
            0 => Some(KeyState::Up),
            1 => Some(KeyState::Down),
            2 => Some(KeyState::Repeat),
            _ => None,
        }
    }

    /// A key is pressed unless it went up.
    pub fn is_pressed(self) -> (b: bool)
        ensures
            b == (self != KeyState::Up),
    {
        !matches!(self, KeyState::Up)
    }
}

/// The modifier keys held down.
#[derive(Clone, Copy, Debug, PartialEq, Eq, Structural)]
pub struct Modifiers {
    pub ctrl: bool,
    pub shift: bool,
    pub alt: bool,
    pub meta: bool,
}

impl Default for Modifiers {
    fn default() -> (r: Self)
        ensures
            r == (Modifiers { ctrl: false, shift: false, alt: false, meta: false }),
    {
        Modifiers { ctrl: false, shift: false, alt: false, meta: false }
    }
}

/// One decoded key event.
#[derive(Debug, PartialEq, Eq)]
pub struct KeyboardKeyEvent {
    pub linux_code: u16,
    pub key_name: String,
    pub state: KeyState,
    pub raw_scancode: Option<i32>,
    pub modifiers: Modifiers,
}

impl Clone for KeyboardKeyEvent {
    fn clone(&self) -> (r: Self)
        ensures
            r == *self,
    {
        KeyboardKeyEvent {
            linux_code: self.linux_code,
            key_name: self.key_name.clone(),
            state: self.state,
            raw_scancode: self.raw_scancode,
            modifiers: self.modifiers,
        }
    }
}

/// A decoded key event waiting to be stored, with its capture time and
/// device.
#[derive(Debug, PartialEq, Eq)]
pub struct PendingKeyboardEvent {
    pub captured_at_ms: u64,
    pub device_ptr: Option<String>,
    pub key: KeyboardKeyEvent,
}

/// A stored key event with its sequence number.
#[derive(Debug, PartialEq, Eq)]
pub struct KeyboardInputEvent {
    pub sequence: u64,
    pub captured_at_ms: u64,
    pub device_ptr: Option<String>,
    pub key: KeyboardKeyEvent,
}

/// A copy of an optional string.
pub fn clone_opt_string(s: &Option<String>) -> (r: Option<String>)
    ensures
        r == *s,
{
    match s {
        Some(v) => Some(v.clone()),
        None => None,
    }
}

impl Clone for KeyboardInputEvent {
    fn clone(&self) -> (r: Self)
        ensures
            r == *self,
    {
        KeyboardInputEvent {
            sequence: self.sequence,
            captured_at_ms: self.captured_at_ms,
            device_ptr: clone_opt_string(&self.device_ptr),
            key: self.key.clone(),
        }
    }
}

/// Key events published together.
#[derive(Debug, PartialEq, Eq)]
pub struct KeyboardEventBatch {
    pub published_at_ms: u64,
    pub dropped_events: u64,
    pub events: Vec<KeyboardInputEvent>,
}

/// The answer to a keyboard history query.
#[derive(Debug, PartialEq, Eq)]
pub struct KeyboardHistoryResponse {
    pub generated_at_ms: u64,
    pub retention_secs: u64,
    pub dropped_events: u64,
    pub events: Vec<KeyboardInputEvent>,
}

/// The content of a decoded key event, with its name as characters.
pub struct KeyEventView {
    pub linux_code: u16,
    pub key_name: Seq<char>,
    pub state: KeyState,
    pub raw_scancode: Option<i32>,
    pub modifiers: Modifiers,
}

/// The content of `k`.
pub open spec fn key_view(k: KeyboardKeyEvent) -> KeyEventView {
    KeyEventView {
        linux_code: k.linux_code,
        key_name: k.key_name@,
        state: k.state,
        raw_scancode: k.raw_scancode,
        modifiers: k.modifiers,
    }
}

/// The state of a decoder: the scan code announced for the next key event,
/// and the modifiers held.
pub struct DecoderModel {
    pub pending_scan: Option<i32>,
    pub modifiers: Modifiers,
}

/// The modifiers after a key event: a control, shift, alt or meta key
/// (left or right) sets its flag to whether the key is pressed.
pub open spec fn update_modifiers_spec(m: Modifiers, code: u16, state: KeyState) -> Modifiers {
    let pressed = state != KeyState::Up;
    if code == KEY_LEFTCTRL || code == KEY_RIGHTCTRL {
        Modifiers { ctrl: pressed, ..m }
    } else if code == KEY_LEFTSHIFT || code == KEY_RIGHTSHIFT {
        Modifiers { shift: pressed, ..m }
    } else if code == KEY_LEFTALT || code == KEY_RIGHTALT {
        Modifiers { alt: pressed, ..m }
    } else if code == KEY_LEFTMETA || code == KEY_RIGHTMETA {
        Modifiers { meta: pressed, ..m }
    } else {
        m
    }
}

/// One decoding step: a scan code is remembered, a report marker forgets it,
/// and a key event with a valid state updates the modifiers and is emitted
/// with the remembered scan code, which it consumes. Anything else, and a
/// key event with an unknown value, changes nothing.
pub open spec fn decode_step(d: DecoderModel, e: RawInputEvent) -> (DecoderModel, Option<
    KeyEventView,
>) {
    if e.event_type == EV_MSC && e.code == MSC_SCAN {
        (DecoderModel { pending_scan: Some(e.value), ..d }, None)
    } else if e.event_type == EV_SYN && e.code == SYN_REPORT {
        (DecoderModel { pending_scan: None, ..d }, None)
    } else if e.event_type == EV_KEY {
        match KeyState::spec_from_raw(e.value) {
            None => (d, None),
            Some(s) => {
                let m = update_modifiers_spec(d.modifiers, e.code, s);
                (
                    DecoderModel { pending_scan: None, modifiers: m },
                    Some(
                        KeyEventView {
                            linux_code: e.code,
                            key_name: evdev_key_name(e.code),
                            state: s,
                            raw_scancode: d.pending_scan,
                            modifiers: m,
                        },
                    ),
                )
            },
        }
    } else {
        (d, None)
    }
}

/// Decoding a trace event by event: the final decoder and the key events
/// emitted, in order.
pub open spec fn decode_trace(d: DecoderModel, evs: Seq<RawInputEvent>) -> (DecoderModel, Seq<
    KeyEventView,
>)
    decreases evs.len(),
{
    if evs.len() == 0 {
        (d, Seq::empty())
    } else {
        let (d1, out) = decode_trace(d, evs.drop_last());
        let (d2, o) = decode_step(d1, evs.last());
        (
            d2,
            match o {
                Some(k) => out.push(k),
                None => out,
            },
        )
    }
}

/// Turns raw input events into key events.
#[derive(Debug)]
pub struct KeyboardEventDecoder {
    pending_scan: Option<i32>,
    modifiers: Modifiers,
}

impl View for KeyboardEventDecoder {
    type V = DecoderModel;

    closed spec fn view(&self) -> DecoderModel {
        DecoderModel { pending_scan: self.pending_scan, modifiers: self.modifiers }
    }
}

impl Default for KeyboardEventDecoder {
    /// A decoder with no pending scan code and no modifier held.
    fn default() -> (r: Self)
        ensures
            r@ == (DecoderModel {
                pending_scan: None,
                modifiers: Modifiers { ctrl: false, shift: false, alt: false, meta: false },
            }),
    {
        KeyboardEventDecoder { pending_scan: None, modifiers: Modifiers::default() }
    }
}

impl KeyboardEventDecoder {
    /// Feeds one raw event; returns the key event it completes, if any.
    pub fn decode_event(&mut self, event: RawInputEvent) -> (r: Option<KeyboardKeyEvent>)
        ensures
            final(self)@ == decode_step(old(self)@, event).0,
            match r {
                Some(k) => decode_step(old(self)@, event).1 == Some(key_view(k)),
                None => decode_step(old(self)@, event).1 is None,
            },
    {
        if event.event_type == EV_MSC && event.code == MSC_SCAN {
            self.pending_scan = Some(event.value);
            None
        } else if event.event_type == EV_SYN && event.code == SYN_REPORT {
            self.pending_scan = None;
            None
        } else if event.event_type == EV_KEY {
            let state = match KeyState::from_raw(event.value) {
                Some(s) => s,
                None => return None,
            };
            let code = event.code;
            self.update_modifiers(code, state);
            let raw_scancode = self.pending_scan;
            self.pending_scan = None;
            Some(
                KeyboardKeyEvent {
                    linux_code: code,
                    key_name: linux_key_name(code),
                    state,
                    raw_scancode,
                    modifiers: self.modifiers,
                },
            )
        } else {
            None
        }
    }

    /// Feeds every event of a trace in order; returns the key events
    /// completed.
    pub fn decode_all(&mut self, events: Vec<RawInputEvent>) -> (r: Vec<KeyboardKeyEvent>)
        ensures
            decode_trace(old(self)@, events@).0 == final(self)@,
            decode_trace(old(self)@, events@).1 == r@.map_values(|k: KeyboardKeyEvent| key_view(k)),
    {
        let ghost start = self@;
        let mut out: Vec<KeyboardKeyEvent> = Vec::new();
        let mut i: usize = 0;
        while i < events.len()
            invariant
                i <= events.len(),
                decode_trace(start, events@.take(i as int)).0 == self@,
                decode_trace(start, events@.take(i as int)).1 == out@.map_values(
                    |k: KeyboardKeyEvent| key_view(k),
                ),
            decreases events.len() - i,
        {
            proof {
                assert(events@.take(i + 1).drop_last() =~= events@.take(i as int));
            }
            let e = events[i];
            match self.decode_event(e) {
                Some(k) => {
                    out.push(k);
                },
                None => {},
            }
            proof {
                assert(out@.map_values(|k: KeyboardKeyEvent| key_view(k)) =~= decode_trace(
                    start,
                    events@.take(i + 1),
                ).1);
            }
            i += 1;
        }
        assert(events@.take(events.len() as int) =~= events@);
        out
    }

    fn update_modifiers(&mut self, code: u16, state: KeyState)
        ensures
            final(self).modifiers == update_modifiers_spec(old(self).modifiers, code, state),
            final(self).pending_scan == old(self).pending_scan,
    {
        let pressed = state.is_pressed();
        if code == KEY_LEFTCTRL || code == KEY_RIGHTCTRL {
            self.modifiers.ctrl = pressed;
        } else if code == KEY_LEFTSHIFT || code == KEY_RIGHTSHIFT {
            self.modifiers.shift = pressed;
        } else if code == KEY_LEFTALT || code == KEY_RIGHTALT {
            self.modifiers.alt = pressed;
        } else if code == KEY_LEFTMETA || code == KEY_RIGHTMETA {
            self.modifiers.meta = pressed;
        }
    }
}

/// One of the four modifier flags.
#[derive(Clone, Copy, Debug, PartialEq, Eq, Structural)]
pub enum ModifierKey {
    Ctrl,
    Shift,
    Alt,
    Meta,
}

/// Whether `code` is the left or right key of modifier `k`.
pub open spec fn is_modifier_code(k: ModifierKey, code: u16) -> bool {
    match k {
        ModifierKey::Ctrl => code == KEY_LEFTCTRL || code == KEY_RIGHTCTRL,
        ModifierKey::Shift => code == KEY_LEFTSHIFT || code == KEY_RIGHTSHIFT,
        ModifierKey::Alt => code == KEY_LEFTALT || code == KEY_RIGHTALT,
        ModifierKey::Meta => code == KEY_LEFTMETA || code == KEY_RIGHTMETA,
    }
}

/// The flag of modifier `k` in `m`.
pub open spec fn modifier_flag(m: Modifiers, k: ModifierKey) -> bool {
    match k {
        ModifierKey::Ctrl => m.ctrl,
        ModifierKey::Shift => m.shift,
        ModifierKey::Alt => m.alt,
        ModifierKey::Meta => m.meta,
    }
}

/// Whether the last key event of modifier `k` in `evs` (with a valid state)
/// left it pressed; `initial` when there is none.
pub open spec fn last_modifier_press(initial: bool, k: ModifierKey, evs: Seq<RawInputEvent>) -> bool
    decreases evs.len(),
{
    if evs.len() == 0 {
        initial
    } else {
        let e = evs.last();
        if e.event_type == EV_KEY && is_modifier_code(k, e.code) && KeyState::spec_from_raw(
            e.value,
        ) is Some {
            e.value != 0
        } else {
            last_modifier_press(initial, k, evs.drop_last())
        }
    }
}

/// Decoding a trace in two pieces, handing the decoder over from the first
/// piece to the second, gives the same decoder and the same key events, in
/// order, as decoding it whole.
pub proof fn law_decode_trace_split(d: DecoderModel, a: Seq<RawInputEvent>, b: Seq<RawInputEvent>)
    ensures
        decode_trace(d, a + b).0 == decode_trace(decode_trace(d, a).0, b).0,
        decode_trace(d, a + b).1 == decode_trace(d, a).1 + decode_trace(
            decode_trace(d, a).0,
            b,
        ).1,
    decreases b.len(),
{
    let mid = decode_trace(d, a).0;
    if b.len() == 0 {
        assert(a + b =~= a);
        assert(decode_trace(d, a).1 + decode_trace(mid, b).1 =~= decode_trace(d, a).1);
    } else {
        law_decode_trace_split(d, a, b.drop_last());
        assert((a + b).drop_last() =~= a + b.drop_last());
        assert((a + b).last() == b.last());
        let x = decode_trace(d, a).1;
        let y = decode_trace(mid, b.drop_last()).1;
        let (_, o) = decode_step(decode_trace(mid, b.drop_last()).0, b.last());
        match o {
            Some(k) => {
                assert((x + y).push(k) =~= x + y.push(k));
            },
            None => {},
        }
    }
}

/// Every decoded key event comes from one raw event: a trace yields at most
/// as many key events as it has raw events.
pub proof fn law_decode_trace_len(d: DecoderModel, evs: Seq<RawInputEvent>)
    ensures
        decode_trace(d, evs).1.len() <= evs.len(),
    decreases evs.len(),
{
    if evs.len() > 0 {
        law_decode_trace_len(d, evs.drop_last());
    }
}

/// After any trace, each modifier flag tells whether the last key event of
/// that modifier (left or right key, with a valid state) was a press or a
/// repeat; with no such event the flag is unchanged.
pub proof fn law_modifier_follows_last_key_event(
    d: DecoderModel,
    k: ModifierKey,
    evs: Seq<RawInputEvent>,
)
    ensures
        modifier_flag(decode_trace(d, evs).0.modifiers, k) == last_modifier_press(
            modifier_flag(d.modifiers, k),
            k,
            evs,
        ),
    decreases evs.len(),
{
    if evs.len() > 0 {
        law_modifier_follows_last_key_event(d, k, evs.drop_last());
    }
}

/// A decoded key event reports the modifiers as they stand after the event
/// itself, and the scan code announced since the last report marker or key
/// event; that scan code is then spent.
pub proof fn law_key_event_reports_state(d: DecoderModel, e: RawInputEvent)
    requires
        decode_step(d, e).1 is Some,
    ensures
        decode_step(d, e).1.unwrap().modifiers == decode_step(d, e).0.modifiers,
        decode_step(d, e).1.unwrap().raw_scancode == d.pending_scan,
        decode_step(d, e).0.pending_scan is None,
        decode_step(d, e).1.unwrap().linux_code == e.code,
        decode_step(d, e).1.unwrap().key_name == evdev_key_name(e.code),
{
}

} // verus!
