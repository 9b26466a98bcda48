//! The bridge from the toolkit's key notifications to native keyboard
//! events for the engine's surface.

use vstd::prelude::*;

verus! {

/// `egui::Key`, the toolkit's key identifier, carried through as it is:
/// nothing is known of a value but that it has a name, `toolkit_key_name`.
#[verifier::external_type_specification]
#[verifier::external_body]
pub struct ExKey(egui::Key);

/// The delay, in milliseconds, between the synthetic Control key-down and
/// the synthetic Control key-up that follows it.
pub const KEYUP_DELAY_MS: i32 = 15;

/// Whether a native keyboard event reports a key going down or coming up.
#[derive(Clone, Copy, Debug, PartialEq, Eq, Structural)]
pub enum KeyEventKind {
    Down,
    Up,
}

impl KeyEventKind {
    /// The native name of the event type.
    pub open spec fn spec_name(self) -> Seq<char> {
        match self {
            KeyEventKind::Down => "keydown"@,
            KeyEventKind::Up => "keyup"@,
        }
    }

    /// The native name of the event type: `keydown` or `keyup`.
    pub fn name(self) -> (name: &'static str)
        ensures
            name@ == self.spec_name(),
    {
        match self {
            KeyEventKind::Down => "keydown",
            KeyEventKind::Up => "keyup",
        }
    }

    /// The kind that reports a key as pressed or as released.
    pub open spec fn spec_of_pressed(pressed: bool) -> KeyEventKind {
        if pressed {
            KeyEventKind::Down
        } else {
            KeyEventKind::Up
        }
    }
}

/// A native keyboard event to dispatch at the engine's surface.
#[derive(Debug, PartialEq, Eq)]
pub struct NativeKeyEvent {
    pub kind: KeyEventKind,
    pub key: String,
    pub ctrl: bool,
    pub alt: bool,
    pub shift: bool,
    pub bubbles: bool,
    pub cancelable: bool,
}

/// What a native keyboard event says, apart from the buffer that carries
/// its key name.
pub struct NativeKey {
    pub kind: KeyEventKind,
    pub key: Seq<char>,
    pub ctrl: bool,
    pub alt: bool,
    pub shift: bool,
    pub bubbles: bool,
    pub cancelable: bool,
}

impl View for NativeKeyEvent {
    type V = NativeKey;

    open spec fn view(&self) -> NativeKey {
        NativeKey {
            kind: self.kind,
            key: self.key@,
            ctrl: self.ctrl,
            alt: self.alt,
            shift: self.shift,
            bubbles: self.bubbles,
            cancelable: self.cancelable,
        }
    }
}

/// A key notification of the toolkit: the toolkit's name of the key, and
/// whether the key went down or came up.
#[derive(Debug, PartialEq, Eq)]
pub struct KeyNotification {
    pub name: String,
    pub pressed: bool,
}

/// The native key name that goes with a toolkit key name. The arrow keys
/// and the space bar have native names of their own; every other key keeps
/// the toolkit's name.
pub open spec fn native_key_name(name: Seq<char>) -> Seq<char> {
    if name == "Down"@ {
        "ArrowDown"@
    } else if name == "Left"@ {
        "ArrowLeft"@
    } else if name == "Right"@ {
        "ArrowRight"@
    } else if name == "Up"@ {
        "ArrowUp"@
    } else if name == "Space"@ {
        " "@
    } else {
        name
    }
}

/// The native event that forwards a key notification: of the matching
/// kind, under the native key name, bubbling and cancelable, without
/// modifiers.
pub open spec fn forwarded(name: Seq<char>, pressed: bool) -> NativeKey {
    NativeKey {
        kind: KeyEventKind::spec_of_pressed(pressed),
        key: native_key_name(name),
        ctrl: false,
        alt: false,
        shift: false,
        bubbles: true,
        cancelable: true,
    }
}

/// The English name that the toolkit gives a key: what `egui::Key::name`
/// returns for it. The name depends on the key alone; which text it is for
/// which key is the toolkit's table and is not stated here.
pub uninterp spec fn toolkit_key_name(key: egui::Key) -> Seq<char>;

/// `egui::Key::name`: the toolkit's English name of a key. All that is
/// claimed is that the text handed out is the key's name, the same for the
/// same key every time; the method is a table from keys to fixed texts.
#[verifier::external_body]
fn toolkit_name(key: egui::Key) -> (name: &'static str)
    ensures
        name@ == toolkit_key_name(key),
{
    key.name()
}

/// The native key name that goes with a toolkit key name.
pub fn event_key(name: &str) -> (key: String)
    ensures
        key@ == native_key_name(name@),
{
    let given = name.to_owned();
    if given == String::from_str("Down") {
        String::from_str("ArrowDown")
    } else if given == String::from_str("Left") {
        String::from_str("ArrowLeft")
    } else if given == String::from_str("Right") {
        String::from_str("ArrowRight")
    } else if given == String::from_str("Up") {
        String::from_str("ArrowUp")
    } else if given == String::from_str("Space") {
        String::from_str(" ")
    } else {
        given
    }
}

/// The native key name of a toolkit key: the native name that goes with
/// the name that the toolkit gives the key.
pub fn egui_key_to_event_key(key: egui::Key) -> (name: String)
    ensures
        name@ == native_key_name(toolkit_key_name(key)),
{
    event_key(toolkit_name(key))
}

impl KeyNotification {
    /// The notification that a toolkit key went down or came up, under the
    /// name that the toolkit gives the key.
    pub fn of_key(key: egui::Key, pressed: bool) -> (notification: KeyNotification)
        ensures
            notification.name@ == toolkit_key_name(key),
            notification.pressed == pressed,
    {
        KeyNotification { name: String::from_str(toolkit_name(key)), pressed }
    }

    /// The native event that forwards this notification.
    pub fn forward(&self) -> (event: NativeKeyEvent)
        ensures
            event@ == forwarded(self.name@, self.pressed),
    {
        NativeKeyEvent {
            kind: if self.pressed {
                KeyEventKind::Down
            } else {
                KeyEventKind::Up
            },
            key: event_key(self.name.as_str()),
            ctrl: false,
            alt: false,
            shift: false,
            bubbles: true,
            cancelable: true,
        }
    }
}

/// The native events that forward the key notifications of one frame: one
/// for each notification, in the order in which they came.
pub fn forward_key_events(notifications: &[KeyNotification]) -> (events: Vec<NativeKeyEvent>)
    ensures
        events@.len() == notifications@.len(),
        forall|i: int|
            0 <= i < notifications@.len() ==> (#[trigger] events@[i])@ == forwarded(
                notifications@[i].name@,
                notifications@[i].pressed,
            ),
{
    let mut events: Vec<NativeKeyEvent> = Vec::new();
    let mut i: usize = 0;
    while i < notifications.len()
        invariant
            i <= notifications.len(),
            events@.len() == i,
            forall|j: int|
                0 <= j < i ==> (#[trigger] events@[j])@ == forwarded(
                    notifications@[j].name@,
                    notifications@[j].pressed,
                ),
        decreases notifications.len() - i,
    {
        events.push(notifications[i].forward());
        i += 1;
    }
    events
}

/// The modifier keys that a native key-down reports as held.
#[derive(Clone, Copy, Debug, PartialEq, Eq, Structural)]
pub struct Modifiers {
    pub ctrl: bool,
    pub shift: bool,
    pub alt: bool,
    pub meta: bool,
}

impl Modifiers {
    /// Whether Control is held and no other modifier is.
    pub open spec fn spec_control_only(self) -> bool {
        self.ctrl && !self.shift && !self.alt && !self.meta
    }

    /// Whether Control is held and no other modifier is.
    #[verifier::when_used_as_spec(spec_control_only)]
    pub fn control_only(self) -> (only: bool)
        ensures
            only == self.spec_control_only(),
    {
        self.ctrl && !self.shift && !self.alt && !self.meta
    }
}

/// The synthetic Control event of a kind: named `Control`, with the Control
/// modifier set, neither bubbling nor cancelable.
pub open spec fn control_key(kind: KeyEventKind) -> NativeKey {
    NativeKey {
        kind,
        key: "Control"@,
        ctrl: true,
        alt: false,
        shift: false,
        bubbles: false,
        cancelable: false,
    }
}

/// The synthetic Control event of a kind.
pub fn control_event(kind: KeyEventKind) -> (event: NativeKeyEvent)
    ensures
        event@ == control_key(kind),
{
    NativeKeyEvent {
        kind,
        key: String::from_str("Control"),
        ctrl: true,
        alt: false,
        shift: false,
        bubbles: false,
        cancelable: false,
    }
}

/// What the Control tap asks of its caller after a native key-down.
#[derive(Debug, PartialEq, Eq)]
pub struct TapPlan {
    /// The event to dispatch at once.
    pub down: NativeKeyEvent,
    /// How long to wait, in milliseconds, before `on_timer` is called for
    /// this tap.
    pub delay_ms: i32,
}

/// What goes into a Control tap.
pub enum TapInput {
    /// A native key-down at the document, with the modifiers it reports.
    KeyDown(Modifiers),
    /// A timer that a plan asked for has run out.
    Timer,
}

/// The number of taps whose timer is running after one more input.
pub open spec fn tap_step(armed: nat, input: TapInput) -> nat {
    match input {
        TapInput::KeyDown(modifiers) => if modifiers.spec_control_only() {
            armed + 1
        } else {
            armed
        },
        TapInput::Timer => if armed > 0 {
            (armed - 1) as nat
        } else {
            0
        },
    }
}

/// An input to the Control tap together with the time, in milliseconds, at
/// which it comes.
pub struct TimedInput {
    pub at: nat,
    pub input: TapInput,
}

/// The number of taps whose timer is running after a row of inputs, from
/// the idle state.
pub open spec fn tap_armed(trace: Seq<TimedInput>) -> nat
    decreases trace.len(),
{
    if trace.len() == 0 {
        0
    } else {
        tap_step(tap_armed(trace.drop_last()), trace.last().input)
    }
}

/// The times at which a synthetic key-down is dispatched over a row of
/// inputs: those of the key-downs with Control alone.
pub open spec fn key_down_times(trace: Seq<TimedInput>) -> Seq<nat>
    decreases trace.len(),
{
    if trace.len() == 0 {
        Seq::empty()
    } else {
        let before = key_down_times(trace.drop_last());
        match trace.last().input {
            TapInput::KeyDown(modifiers) => if modifiers.spec_control_only() {
                before.push(trace.last().at)
            } else {
                before
            },
            TapInput::Timer => before,
        }
    }
}

/// The times at which a synthetic key-up is dispatched over a row of
/// inputs, from the idle state: those of the timers that run out while a
/// tap is under way. No key-down brings a key-up with it.
pub open spec fn key_up_times(trace: Seq<TimedInput>) -> Seq<nat>
    decreases trace.len(),
{
    if trace.len() == 0 {
        Seq::empty()
    } else {
        let before = key_up_times(trace.drop_last());
        match trace.last().input {
            TapInput::KeyDown(_) => before,
            TapInput::Timer => if tap_armed(trace.drop_last()) > 0 {
                before.push(trace.last().at)
            } else {
                before
            },
        }
    }
}

/// Every synthetic key-up answers a synthetic key-down of its own that
/// came before it: at any time the key-downs dispatched are the key-ups
/// dispatched and the taps whose timer is still running.
pub proof fn lemma_tap_balance(trace: Seq<TimedInput>)
    ensures
        key_down_times(trace).len() == key_up_times(trace).len() + tap_armed(trace),
    decreases trace.len(),
{
    if trace.len() > 0 {
        lemma_tap_balance(trace.drop_last());
    }
}

/// Whether the caller keeps the timers as the plans ask: a timer runs out
/// no sooner than the plan's delay after the key-down that started it, the
/// timers running out in the order in which they were started.
pub open spec fn timers_kept(trace: Seq<TimedInput>) -> bool
    decreases trace.len(),
{
    if trace.len() == 0 {
        true
    } else {
        let before = trace.drop_last();
        &&& timers_kept(before)
        &&& trace.last().input is Timer && tap_armed(before) > 0 ==> trace.last().at
            >= key_down_times(before)[key_up_times(before).len() as int] + KEYUP_DELAY_MS
    }
}

/// With the timers kept, every synthetic key-up comes no sooner than the
/// fixed delay after the synthetic key-down that it answers.
pub proof fn lemma_tap_timing(trace: Seq<TimedInput>)
    requires
        timers_kept(trace),
    ensures
        key_up_times(trace).len() <= key_down_times(trace).len(),
        forall|k: int|
            0 <= k < key_up_times(trace).len() ==> #[trigger] key_up_times(trace)[k]
                >= key_down_times(trace)[k] + KEYUP_DELAY_MS,
    decreases trace.len(),
{
    lemma_tap_balance(trace);
    if trace.len() > 0 {
        let before = trace.drop_last();
        lemma_tap_timing(before);
        lemma_tap_balance(before);
        assert forall|k: int| 0 <= k < key_up_times(trace).len() implies #[trigger] key_up_times(
            trace,
        )[k] >= key_down_times(trace)[k] + KEYUP_DELAY_MS by {
            if k < key_up_times(before).len() {
                assert(key_up_times(trace)[k] == key_up_times(before)[k]);
                assert(key_down_times(trace)[k] == key_down_times(before)[k]);
            } else {
                assert(key_down_times(trace)[k] == key_down_times(before)[k]);
            }
        }
    }
}

/// The workaround for Control presses that the toolkit keeps to itself: a
/// native Control-only key-down is answered with a synthetic Control
/// key-down at once and a synthetic Control key-up after a fixed delay.
/// Each tap has a timer of its own; timers are neither merged nor
/// cancelled.
#[derive(Debug)]
pub struct ControlTap {
    armed: usize,
}

impl View for ControlTap {
    type V = nat;

    closed spec fn view(&self) -> nat {
        self.armed as nat
    }
}

impl ControlTap {
    /// The idle state: no tap under way.
    pub fn new() -> (tap: ControlTap)
        ensures
            tap@ == 0,
    {
        ControlTap { armed: 0 }
    }

    /// How many taps have their timer running. Idle at zero.
    pub fn armed(&self) -> (armed: usize)
        ensures
            armed == self@,
    {
        self.armed
    }

    /// Takes a native key-down at the document. With Control held and no
    /// other modifier, the plan holds the synthetic Control key-down to
    /// dispatch at once and the delay after which `on_timer` is due, and
    /// one more tap is under way. Any other key-down changes nothing.
    pub fn on_keydown(&mut self, modifiers: Modifiers) -> (plan: Option<TapPlan>)
        requires
            old(self)@ < usize::MAX,
        ensures
            final(self)@ == tap_step(old(self)@, TapInput::KeyDown(modifiers)),
            plan is Some <==> modifiers.spec_control_only(),
            plan is Some ==> plan->0.down@ == control_key(KeyEventKind::Down) && plan->0.delay_ms
                == KEYUP_DELAY_MS,
    {
        if modifiers.control_only() {
            self.armed = self.armed + 1;
            Some(TapPlan { down: control_event(KeyEventKind::Down), delay_ms: KEYUP_DELAY_MS })
        } else {
            None
        }
    }

    /// Takes the running out of a timer: hands out the synthetic Control
    /// key-up that ends one tap. Without a tap under way there is nothing
    /// to dispatch.
    pub fn on_timer(&mut self) -> (up: Option<NativeKeyEvent>)
        ensures
            final(self)@ == tap_step(old(self)@, TapInput::Timer),
            up is Some <==> old(self)@ > 0,
            up is Some ==> up->0@ == control_key(KeyEventKind::Up),
    {
        if self.armed > 0 {
            self.armed = self.armed - 1;
            Some(control_event(KeyEventKind::Up))
        } else {
            None
        }
    }
}

} // verus!
