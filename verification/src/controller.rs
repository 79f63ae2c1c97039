//! The DualSense controller as the input layer sees it: button and device
//! types, edge detection for buttons and analog triggers, and the counters of
//! the event channel.
use vstd::prelude::*;
use crate::text;

verus! {

/// Sony's USB vendor identifier.
pub const SONY_VENDOR_ID: u16 = 0x054c;

/// The DualSense product identifier.
pub const DUALSENSE_PRODUCT_ID: u16 = 0x0ce6;

/// A controller button, named as on the DualSense.
#[derive(Clone, Copy, Debug, PartialEq, Eq, Structural, PartialOrd, Ord, Hash)]
pub enum ControllerButton {
    Triangle,
    Circle,
    Cross,
    Square,
    Create,
    PlayStation,
    Options,
    L3,
    R3,
    L1,
    R1,
    L2,
    R2,
    DPadUp,
    DPadDown,
    DPadLeft,
    DPadRight,
    Microphone,
    Touchpad,
}

/// An analog axis.
#[derive(Clone, Copy, Debug, PartialEq, Eq, Structural, PartialOrd, Ord, Hash)]
pub enum ControllerAxis {
    LeftX,
    LeftY,
    RightX,
    RightY,
    L2,
    R2,
}

/// Whether a button went down or up.
#[derive(Clone, Copy, Debug, PartialEq, Eq, Structural)]
pub enum ButtonState {
    Pressed,
    Released,
}

/// How the controller is connected.
#[derive(Clone, Copy, Debug, PartialEq, Eq, Structural)]
pub enum ConnectionKind {
    Wired,
    Wireless,
    Unknown,
}

/// The charging state of the battery.
#[derive(Clone, Copy, Debug, PartialEq, Eq, Structural)]
pub enum BatteryState {
    Charging,
    Charged,
    Discharging,
    NotPresent,
    Unknown,
}

/// The battery state and charge.
#[derive(Clone, Copy, Debug, PartialEq, Eq, Structural)]
pub struct BatteryInfo {
    pub state: BatteryState,
    pub percentage: Option<u8>,
}

/// The connected controller.
#[derive(Clone, Debug, PartialEq, Eq)]
pub struct ControllerDevice {
    pub instance_id: u32,
    pub name: String,
    pub path: Option<String>,
    pub serial_number: Option<String>,
    pub vendor_id: u16,
    pub product_id: u16,
    pub product_version: Option<u16>,
    pub firmware_version: Option<u16>,
    pub connection: ConnectionKind,
    pub battery: BatteryInfo,
}

/// The battery charge to report for a percentage from the driver: only
/// values from 0 to 100 are kept.
pub fn battery_percentage(raw: i32) -> (r: Option<u8>)
    ensures
        r == (if 0 <= raw <= 100 {
            Some(raw as u8)
        } else {
            None
        }),
{
    if 0 <= raw && raw <= 100 {
        Some(raw as u8)
    } else {
        None
    }
}

// ----- Errors -----

/// Why the controller runtime could not start.
#[derive(Clone, Debug, PartialEq, Eq)]
pub enum ControllerError {
    InvalidConfiguration(String),
    AlreadyRunning,
    WorkerStart(String),
    Initialization(String),
    InitializationStopped,
    InitializationTimedOut,
}

/// The text of a controller error.
pub open spec fn controller_error_text(e: ControllerError) -> Seq<char> {
    match e {
        ControllerError::InvalidConfiguration(m) => "invalid controller configuration: "@ + m@,
        ControllerError::AlreadyRunning => "the controller runtime is already active"@,
        ControllerError::WorkerStart(m) => "failed to start the controller worker: "@ + m@,
        ControllerError::Initialization(m) => "failed to initialize the SDL controller backend: "@
            + m@,
        ControllerError::InitializationStopped => "the controller worker stopped during initialization"@,
        ControllerError::InitializationTimedOut => "the controller worker did not initialize within 10 seconds"@,
    }
}

impl ControllerError {
    /// The error's message.
    pub fn message(&self) -> (r: String)
        ensures
            r@ == controller_error_text(*self),
    {
        match self {
            ControllerError::InvalidConfiguration(m) => text::concat(
                "invalid controller configuration: ",
                m.as_str(),
            ),
            ControllerError::AlreadyRunning => "the controller runtime is already active".to_owned(),
            ControllerError::WorkerStart(m) => text::concat(
                "failed to start the controller worker: ",
                m.as_str(),
            ),
            ControllerError::Initialization(m) => text::concat(
                "failed to initialize the SDL controller backend: ",
                m.as_str(),
            ),
            ControllerError::InitializationStopped => "the controller worker stopped during initialization".to_owned(),
            ControllerError::InitializationTimedOut => "the controller worker did not initialize within 10 seconds".to_owned(),
        }
    }
}

/// The configuration checks in order: a positive event capacity, at least
/// one allowed product, trigger thresholds with `0 <= release < press <= 1`
/// (`thresholds_ordered`), an axis epsilon between 0 and 1
/// (`epsilon_in_range`), and positive polling intervals.
pub open spec fn config_problem(
    event_capacity: usize,
    allowed_products: usize,
    thresholds_ordered: bool,
    epsilon_in_range: bool,
    axis_interval_ns: u128,
    device_info_interval_ns: u128,
) -> Option<Seq<char>> {
    if event_capacity == 0 {
        Some("event capacity must be greater than zero"@)
    } else if allowed_products == 0 {
        Some("at least one controller product ID is required"@)
    } else if !thresholds_ordered {
        Some("trigger thresholds must satisfy 0 <= release < press <= 1"@)
    } else if !epsilon_in_range {
        Some("axis epsilon must be between zero and one"@)
    } else if axis_interval_ns == 0 {
        Some("axis interval must be greater than zero"@)
    } else if device_info_interval_ns == 0 {
        Some("device info interval must be greater than zero"@)
    } else {
        None
    }
}

/// Checks a controller configuration; the comparisons of its fractional
/// settings come in as their outcomes.
pub fn validate_config(
    event_capacity: usize,
    allowed_products: usize,
    thresholds_ordered: bool,
    epsilon_in_range: bool,
    axis_interval_ns: u128,
    device_info_interval_ns: u128,
) -> (r: Result<(), String>)
    ensures
        match config_problem(
            event_capacity,
            allowed_products,
            thresholds_ordered,
            epsilon_in_range,
            axis_interval_ns,
            device_info_interval_ns,
        ) {
            Some(m) => r matches Err(e) && e@ == m,
            None => r is Ok,
        },
{
    if event_capacity == 0 {
        return Err("event capacity must be greater than zero".to_owned());
    }
    if allowed_products == 0 {
        return Err("at least one controller product ID is required".to_owned());
    }
    if !thresholds_ordered {
        return Err("trigger thresholds must satisfy 0 <= release < press <= 1".to_owned());
    }
    if !epsilon_in_range {
        return Err("axis epsilon must be between zero and one".to_owned());
    }
    if axis_interval_ns == 0 {
        return Err("axis interval must be greater than zero".to_owned());
    }
    if device_info_interval_ns == 0 {
        return Err("device info interval must be greater than zero".to_owned());
    }
    Ok(())
}

/// The axis interval in nanoseconds as the worker keeps it: saturated to
/// the `u64` range.
pub fn interval_ns(nanos: u128) -> (r: u64)
    ensures
        r == (if nanos > u64::MAX {
            u64::MAX as u128
        } else {
            nanos
        }),
{
    if nanos > u64::MAX as u128 {
        u64::MAX
    } else {
        nanos as u64
    }
}

// ----- Edge detection -----

/// A digital button: its physical position and whether a press was
/// reported that still awaits its release.
#[derive(Clone, Copy, Debug, PartialEq, Eq, Structural)]
pub struct DigitalLatch {
    pub physical: bool,
    pub active: bool,
}

impl Default for DigitalLatch {
    fn default() -> (r: DigitalLatch)
        ensures
            r == (DigitalLatch { physical: false, active: false }),
    {
        DigitalLatch { physical: false, active: false }
    }
}

/// What observing a button position reports, and the latch after it.
pub open spec fn latch_step(l: DigitalLatch, pressed: bool, emit: bool) -> (DigitalLatch, Option<ButtonState>) {
    if l.physical == pressed {
        (l, None)
    } else if pressed {
        if emit {
            (DigitalLatch { physical: true, active: true }, Some(ButtonState::Pressed))
        } else {
            (DigitalLatch { physical: true, active: l.active }, None)
        }
    } else if l.active {
        (DigitalLatch { physical: false, active: false }, Some(ButtonState::Released))
    } else {
        (DigitalLatch { physical: false, active: false }, None)
    }
}

impl DigitalLatch {
    /// Observes the button's position: a change to pressed is reported when
    /// `emit` allows it, a change to released only after a reported press.
    pub fn observe(&mut self, pressed: bool, emit: bool) -> (r: Option<ButtonState>)
        ensures
            (*final(self), r) == latch_step(*old(self), pressed, emit),
    {
        if self.physical == pressed {
            return None;
        }
        self.physical = pressed;
        if pressed {
            if emit {
                self.active = true;
                Some(ButtonState::Pressed)
            } else {
                None
            }
        } else if self.active {
            self.active = false;
            Some(ButtonState::Released)
        } else {
            None
        }
    }

    /// Forgets a reported press; whether there was one.
    pub fn deactivate(&mut self) -> (was_active: bool)
        ensures
            was_active == old(self).active,
            *final(self) == (DigitalLatch { active: false, ..*old(self) }),
    {
        let was_active = self.active;
        self.active = false;
        was_active
    }
}

/// A trigger's digital state with hysteresis: it becomes pressed at or
/// above the press threshold and released at or below the release one.
#[derive(Clone, Copy, Debug, PartialEq, Eq, Structural)]
pub struct HysteresisGate {
    pub pressed: bool,
}

impl HysteresisGate {
    /// Observes a trigger value through the outcomes of its two threshold
    /// comparisons; the new digital state when it changed.
    pub fn observe(&mut self, at_or_above_press: bool, at_or_below_release: bool) -> (r: Option<bool>)
        ensures
            !old(self).pressed && at_or_above_press ==> r == Some(true) && final(self).pressed,
            old(self).pressed && at_or_below_release ==> r == Some(false) && !final(self).pressed,
            !(!old(self).pressed && at_or_above_press) && !(old(self).pressed && at_or_below_release)
                ==> r is None && *final(self) == *old(self),
    {
        if !self.pressed && at_or_above_press {
            self.pressed = true;
            Some(true)
        } else if self.pressed && at_or_below_release {
            self.pressed = false;
            Some(false)
        } else {
            None
        }
    }
}

/// An analog trigger read as a button.
#[derive(Clone, Copy, Debug, PartialEq, Eq, Structural)]
pub struct TriggerLatch {
    pub gate: HysteresisGate,
    pub active: bool,
}

impl TriggerLatch {
    /// A released trigger.
    pub fn new() -> (r: TriggerLatch)
        ensures
            !r.gate.pressed && !r.active,
    {
        TriggerLatch { gate: HysteresisGate { pressed: false }, active: false }
    }

    /// Observes a trigger value: a crossing of the press threshold is
    /// reported when `emit` allows it, a crossing of the release threshold
    /// only after a reported press.
    pub fn observe(&mut self, at_or_above_press: bool, at_or_below_release: bool, emit: bool) -> (r:
        Option<ButtonState>)
        ensures
            !old(self).gate.pressed && at_or_above_press ==> final(self).gate.pressed && if emit {
                r == Some(ButtonState::Pressed) && final(self).active
            } else {
                r is None && final(self).active == old(self).active
            },
            old(self).gate.pressed && at_or_below_release ==> !final(self).gate.pressed && if old(
                self,
            ).active {
                r == Some(ButtonState::Released) && !final(self).active
            } else {
                r is None && !final(self).active
            },
            !(!old(self).gate.pressed && at_or_above_press) && !(old(self).gate.pressed
                && at_or_below_release) ==> r is None && *final(self) == *old(self),
    {
        match self.gate.observe(at_or_above_press, at_or_below_release) {
            Some(true) => {
                if emit {
                    self.active = true;
                    Some(ButtonState::Pressed)
                } else {
                    None
                }
            },
            Some(false) => {
                if self.active {
                    self.active = false;
                    Some(ButtonState::Released)
                } else {
                    None
                }
            },
            None => None,
        }
    }

    /// Forgets a reported press; whether there was one.
    pub fn deactivate(&mut self) -> (was_active: bool)
        ensures
            was_active == old(self).active,
            *final(self) == (TriggerLatch { active: false, ..*old(self) }),
    {
        let was_active = self.active;
        self.active = false;
        was_active
    }
}

/// The button an axis doubles as: the analog triggers.
pub fn trigger_button(axis: ControllerAxis) -> (r: Option<ControllerButton>)
    ensures
        r == match axis {
            ControllerAxis::L2 => Some(ControllerButton::L2),
            ControllerAxis::R2 => Some(ControllerButton::R2),
            _ => None::<ControllerButton>,
        },
{
    match axis {
        ControllerAxis::L2 => Some(ControllerButton::L2),
        ControllerAxis::R2 => Some(ControllerButton::R2),
        _ => None,
    }
}

// ----- Gamepad buttons -----

/// A gamepad button as the platform driver names it, by position.
#[derive(Clone, Copy, Debug, PartialEq, Eq, Structural)]
pub enum GamepadButton {
    South,
    East,
    West,
    North,
    Back,
    Guide,
    Start,
    LeftStick,
    RightStick,
    LeftShoulder,
    RightShoulder,
    DPadUp,
    DPadDown,
    DPadLeft,
    DPadRight,
    Misc1,
    RightPaddle1,
    LeftPaddle1,
    RightPaddle2,
    LeftPaddle2,
    Touchpad,
    Misc2,
    Misc3,
    Misc4,
    Misc5,
    Misc6,
}

/// The DualSense name of a positional button; `None` for buttons the
/// DualSense does not have.
pub open spec fn gamepad_button_name(b: GamepadButton) -> Option<ControllerButton> {
    match b {
        GamepadButton::North => Some(ControllerButton::Triangle),
        GamepadButton::East => Some(ControllerButton::Circle),
        GamepadButton::South => Some(ControllerButton::Cross),
        GamepadButton::West => Some(ControllerButton::Square),
        GamepadButton::Back => Some(ControllerButton::Create),
        GamepadButton::Guide => Some(ControllerButton::PlayStation),
        GamepadButton::Start => Some(ControllerButton::Options),
        GamepadButton::LeftStick => Some(ControllerButton::L3),
        GamepadButton::RightStick => Some(ControllerButton::R3),
        GamepadButton::LeftShoulder => Some(ControllerButton::L1),
        GamepadButton::RightShoulder => Some(ControllerButton::R1),
        GamepadButton::DPadUp => Some(ControllerButton::DPadUp),
        GamepadButton::DPadDown => Some(ControllerButton::DPadDown),
        GamepadButton::DPadLeft => Some(ControllerButton::DPadLeft),
        GamepadButton::DPadRight => Some(ControllerButton::DPadRight),
        GamepadButton::Misc1 => Some(ControllerButton::Microphone),
        GamepadButton::Touchpad => Some(ControllerButton::Touchpad),
        _ => None,
    }
}

/// Names a positional button as on the DualSense.
pub fn map_gamepad_button(button: GamepadButton) -> (r: Option<ControllerButton>)
    ensures
        r == gamepad_button_name(button),
{
    match button {
        GamepadButton::North => Some(ControllerButton::Triangle),
        GamepadButton::East => Some(ControllerButton::Circle),
        GamepadButton::South => Some(ControllerButton::Cross),
        GamepadButton::West => Some(ControllerButton::Square),
        GamepadButton::Back => Some(ControllerButton::Create),
        GamepadButton::Guide => Some(ControllerButton::PlayStation),
        GamepadButton::Start => Some(ControllerButton::Options),
        GamepadButton::LeftStick => Some(ControllerButton::L3),
        GamepadButton::RightStick => Some(ControllerButton::R3),
        GamepadButton::LeftShoulder => Some(ControllerButton::L1),
        GamepadButton::RightShoulder => Some(ControllerButton::R1),
        GamepadButton::DPadUp => Some(ControllerButton::DPadUp),
        GamepadButton::DPadDown => Some(ControllerButton::DPadDown),
        GamepadButton::DPadLeft => Some(ControllerButton::DPadLeft),
        GamepadButton::DPadRight => Some(ControllerButton::DPadRight),
        GamepadButton::Misc1 => Some(ControllerButton::Microphone),
        GamepadButton::Touchpad => Some(ControllerButton::Touchpad),
        _ => None,
    }
}

// ----- The event channel -----

/// What became of an attempt to queue an event without waiting.
#[derive(Clone, Copy, Debug, PartialEq, Eq, Structural)]
pub enum SendResult {
    Sent,
    Full,
    Closed,
}

/// What the worker must do after a send.
#[derive(Clone, Copy, Debug, PartialEq, Eq, Structural)]
pub enum SinkAction {
    Nothing,
    /// The receiver is gone: the worker shuts down.
    Shutdown,
    /// An event was lost: the snapshot records this many lost events.
    RecordDropped(u64),
}

/// The numbering of events and the record of lost ones.
#[derive(Clone, Copy, Debug, PartialEq, Eq, Structural)]
pub struct EventCounters {
    pub sequence: u64,
    pub dropped: u64,
    pub reconciliation_pending: bool,
}

/// `n + 1`, or `n` at the top of the range.
pub open spec fn saturating_next(n: u64) -> u64 {
    if n == u64::MAX {
        n
    } else {
        (n + 1) as u64
    }
}

impl EventCounters {
    /// No event sent yet.
    pub fn new() -> (r: EventCounters)
        ensures
            r == (EventCounters { sequence: 0, dropped: 0, reconciliation_pending: false }),
    {
        EventCounters { sequence: 0, dropped: 0, reconciliation_pending: false }
    }

    /// The sequence number of the next event; numbers start at 1 and stop
    /// growing at the top of the range.
    pub fn next_sequence(&mut self) -> (r: u64)
        ensures
            r == saturating_next(old(self).sequence),
            *final(self) == (EventCounters { sequence: r, ..*old(self) }),
    {
        self.sequence = self.sequence.saturating_add(1);
        self.sequence
    }

    /// Records the outcome of queuing a droppable event (an axis motion): a
    /// full channel loses it and asks for a reconciliation notice.
    pub fn lossy_sent(&mut self, result: SendResult) -> (r: SinkAction)
        ensures
            match result {
                SendResult::Sent => r == SinkAction::Nothing && *final(self) == *old(self),
                SendResult::Closed => r == SinkAction::Shutdown && *final(self) == *old(self),
                SendResult::Full => {
                    &&& final(self).dropped == saturating_next(old(self).dropped)
                    &&& final(self).reconciliation_pending
                    &&& final(self).sequence == old(self).sequence
                    &&& r == SinkAction::RecordDropped(final(self).dropped)
                },
            },
    {
        match result {
            SendResult::Sent => SinkAction::Nothing,
            SendResult::Closed => SinkAction::Shutdown,
            SendResult::Full => {
                self.dropped = self.dropped.saturating_add(1);
                self.reconciliation_pending = true;
                SinkAction::RecordDropped(self.dropped)
            },
        }
    }

    /// Records the outcome of queuing a reconciliation notice: once it is
    /// queued none is pending; a full channel keeps it pending.
    pub fn notice_sent(&mut self, result: SendResult) -> (r: SinkAction)
        ensures
            match result {
                SendResult::Sent => r == SinkAction::Nothing && *final(self) == (EventCounters {
                    reconciliation_pending: false,
                    ..*old(self)
                }),
                SendResult::Closed => r == SinkAction::Shutdown && *final(self) == *old(self),
                SendResult::Full => r == SinkAction::Nothing && *final(self) == *old(self),
            },
    {
        match result {
            SendResult::Sent => {
                self.reconciliation_pending = false;
                SinkAction::Nothing
            },
            SendResult::Closed => SinkAction::Shutdown,
            SendResult::Full => SinkAction::Nothing,
        }
    }
}


// ----- Button edges -----

/// The number of controller buttons.
pub const BUTTON_COUNT: usize = 19;

/// The position of a button in the declared (and sorted) order.
pub open spec fn button_index(b: ControllerButton) -> nat {
    match b {
        ControllerButton::Triangle => 0,
        ControllerButton::Circle => 1,
        ControllerButton::Cross => 2,
        ControllerButton::Square => 3,
        ControllerButton::Create => 4,
        ControllerButton::PlayStation => 5,
        ControllerButton::Options => 6,
        ControllerButton::L3 => 7,
        ControllerButton::R3 => 8,
        ControllerButton::L1 => 9,
        ControllerButton::R1 => 10,
        ControllerButton::L2 => 11,
        ControllerButton::R2 => 12,
        ControllerButton::DPadUp => 13,
        ControllerButton::DPadDown => 14,
        ControllerButton::DPadLeft => 15,
        ControllerButton::DPadRight => 16,
        ControllerButton::Microphone => 17,
        ControllerButton::Touchpad => 18,
    }
}

/// The button at a position of the declared order.
pub open spec fn button_at(i: int) -> ControllerButton {
    if i == 0 {
        ControllerButton::Triangle
    } else
    if i == 1 {
        ControllerButton::Circle
    } else
    if i == 2 {
        ControllerButton::Cross
    } else
    if i == 3 {
        ControllerButton::Square
    } else
    if i == 4 {
        ControllerButton::Create
    } else
    if i == 5 {
        ControllerButton::PlayStation
    } else
    if i == 6 {
        ControllerButton::Options
    } else
    if i == 7 {
        ControllerButton::L3
    } else
    if i == 8 {
        ControllerButton::R3
    } else
    if i == 9 {
        ControllerButton::L1
    } else
    if i == 10 {
        ControllerButton::R1
    } else
    if i == 11 {
        ControllerButton::L2
    } else
    if i == 12 {
        ControllerButton::R2
    } else
    if i == 13 {
        ControllerButton::DPadUp
    } else
    if i == 14 {
        ControllerButton::DPadDown
    } else
    if i == 15 {
        ControllerButton::DPadLeft
    } else
    if i == 16 {
        ControllerButton::DPadRight
    } else
    if i == 17 {
        ControllerButton::Microphone
    } else {
        ControllerButton::Touchpad
    }
}

/// The position of a button.
fn index_of(b: ControllerButton) -> (r: usize)
    ensures
        r == button_index(b),
        r < BUTTON_COUNT,
        button_at(r as int) == b,
{
    match b {
        ControllerButton::Triangle => 0,
        ControllerButton::Circle => 1,
        ControllerButton::Cross => 2,
        ControllerButton::Square => 3,
        ControllerButton::Create => 4,
        ControllerButton::PlayStation => 5,
        ControllerButton::Options => 6,
        ControllerButton::L3 => 7,
        ControllerButton::R3 => 8,
        ControllerButton::L1 => 9,
        ControllerButton::R1 => 10,
        ControllerButton::L2 => 11,
        ControllerButton::R2 => 12,
        ControllerButton::DPadUp => 13,
        ControllerButton::DPadDown => 14,
        ControllerButton::DPadLeft => 15,
        ControllerButton::DPadRight => 16,
        ControllerButton::Microphone => 17,
        ControllerButton::Touchpad => 18,
    }
}

/// The button at position `i`.
fn button_of(i: usize) -> (r: ControllerButton)
    requires
        i < BUTTON_COUNT,
    ensures
        r == button_at(i as int),
        button_index(r) == i,
{
    if i == 0 {
        ControllerButton::Triangle
    } else
    if i == 1 {
        ControllerButton::Circle
    } else
    if i == 2 {
        ControllerButton::Cross
    } else
    if i == 3 {
        ControllerButton::Square
    } else
    if i == 4 {
        ControllerButton::Create
    } else
    if i == 5 {
        ControllerButton::PlayStation
    } else
    if i == 6 {
        ControllerButton::Options
    } else
    if i == 7 {
        ControllerButton::L3
    } else
    if i == 8 {
        ControllerButton::R3
    } else
    if i == 9 {
        ControllerButton::L1
    } else
    if i == 10 {
        ControllerButton::R1
    } else
    if i == 11 {
        ControllerButton::L2
    } else
    if i == 12 {
        ControllerButton::R2
    } else
    if i == 13 {
        ControllerButton::DPadUp
    } else
    if i == 14 {
        ControllerButton::DPadDown
    } else
    if i == 15 {
        ControllerButton::DPadLeft
    } else
    if i == 16 {
        ControllerButton::DPadRight
    } else
    if i == 17 {
        ControllerButton::Microphone
    } else {
        ControllerButton::Touchpad
    }
}

/// A button edge with the time of the change that caused it.
#[derive(Clone, Copy, Debug, PartialEq, Eq, Structural)]
pub struct NormalizedButton {
    pub timestamp_ns: u64,
    pub button: ControllerButton,
    pub state: ButtonState,
}

/// The digital side of input normalisation: a latch per button, the two
/// analog triggers read as buttons, and whether observation is paused.
pub struct ButtonNormalizer {
    /// By button position.
    pub buttons: Vec<DigitalLatch>,
    pub l2: TriggerLatch,
    pub r2: TriggerLatch,
    pub paused: bool,
}

/// An edge report, if any, for `button` at `ts`.
pub open spec fn edge(button: ControllerButton, state: Option<ButtonState>, ts: u64) -> Option<NormalizedButton> {
    match state {
        Some(s) => Some(NormalizedButton { timestamp_ns: ts, button, state: s }),
        None => None,
    }
}

/// Whether the button at position `i` is reported pressed, as a button or
/// as a trigger.
pub open spec fn held_at(latches: Seq<DigitalLatch>, l2: TriggerLatch, r2: TriggerLatch, i: int) -> bool {
    latches[i].active || (i == 11 && l2.active) || (i == 12 && r2.active)
}

/// The buttons reported pressed among the first `n` positions, in order.
pub open spec fn held_prefix(latches: Seq<DigitalLatch>, l2: TriggerLatch, r2: TriggerLatch, n: int) -> Seq<ControllerButton>
    decreases n,
{
    if n <= 0 {
        Seq::empty()
    } else if held_at(latches, l2, r2, n - 1) {
        held_prefix(latches, l2, r2, n - 1).push(button_at(n - 1))
    } else {
        held_prefix(latches, l2, r2, n - 1)
    }
}

/// Releases for the buttons (not triggers) reported pressed among the
/// first `n` positions, in order.
pub open spec fn releases_prefix(latches: Seq<DigitalLatch>, n: int, ts: u64) -> Seq<NormalizedButton>
    decreases n,
{
    if n <= 0 {
        Seq::empty()
    } else if latches[n - 1].active {
        releases_prefix(latches, n - 1, ts).push(
            NormalizedButton { timestamp_ns: ts, button: button_at(n - 1), state: ButtonState::Released },
        )
    } else {
        releases_prefix(latches, n - 1, ts)
    }
}

impl ButtonNormalizer {
    /// A latch per button.
    pub open spec fn wf(&self) -> bool {
        self.buttons@.len() == BUTTON_COUNT
    }

    /// Nothing pressed.
    pub fn new(paused: bool) -> (r: ButtonNormalizer)
        ensures
            r.wf(),
            r.paused == paused,
            forall|i: int| 0 <= i < BUTTON_COUNT ==> #[trigger] r.buttons@[i] == DigitalLatch::default_value(),
            r.l2 == TriggerLatch::released() && r.r2 == TriggerLatch::released(),
    {
        let mut buttons: Vec<DigitalLatch> = Vec::new();
        let mut i: usize = 0;
        while i < BUTTON_COUNT
            invariant
                i <= BUTTON_COUNT,
                buttons@.len() == i,
                forall|k: int| 0 <= k < i ==> #[trigger] buttons@[k] == DigitalLatch::default_value(),
            decreases BUTTON_COUNT - i,
        {
            buttons.push(DigitalLatch { physical: false, active: false });
            i += 1;
        }
        ButtonNormalizer { buttons, l2: TriggerLatch::new(), r2: TriggerLatch::new(), paused }
    }

    /// Observes a digital button; the edge it makes, stamped with `timestamp_ns`.
    pub fn button(&mut self, button: ControllerButton, pressed: bool, timestamp_ns: u64) -> (r: Option<
        NormalizedButton,
    >)
        requires
            old(self).wf(),
        ensures
            final(self).wf(),
            ({
                let i = button_index(button) as int;
                let (l, s) = latch_step(old(self).buttons@[i], pressed, true);
                &&& final(self).buttons@ == old(self).buttons@.update(i, l)
                &&& r == edge(button, s, timestamp_ns)
            }),
            final(self).l2 == old(self).l2,
            final(self).r2 == old(self).r2,
            final(self).paused == old(self).paused,
    {
        let i = index_of(button);
        let mut latch = self.buttons[i];
        let state = latch.observe(pressed, true);
        self.buttons.set(i, latch);
        match state {
            Some(s) => Some(NormalizedButton { timestamp_ns, button, state: s }),
            None => None,
        }
    }

    /// Observes an analog trigger through the outcomes of its threshold
    /// comparisons; other axes make no button edge.
    pub fn trigger(&mut self, axis: ControllerAxis, at_or_above_press: bool, at_or_below_release: bool, timestamp_ns: u64) -> (r:
        Option<NormalizedButton>)
        requires
            old(self).wf(),
        ensures
            final(self).wf(),
            final(self).buttons@ == old(self).buttons@,
            final(self).paused == old(self).paused,
            axis != ControllerAxis::L2 ==> final(self).l2 == old(self).l2,
            axis != ControllerAxis::R2 ==> final(self).r2 == old(self).r2,
            axis != ControllerAxis::L2 && axis != ControllerAxis::R2 ==> r is None,
            r matches Some(e) ==> e.timestamp_ns == timestamp_ns && Some(e.button) == match axis {
                ControllerAxis::L2 => Some(ControllerButton::L2),
                ControllerAxis::R2 => Some(ControllerButton::R2),
                _ => None::<ControllerButton>,
            },
            axis == ControllerAxis::L2 ==> trigger_edge(old(self).l2, final(self).l2, at_or_above_press, at_or_below_release, r),
            axis == ControllerAxis::R2 ==> trigger_edge(old(self).r2, final(self).r2, at_or_above_press, at_or_below_release, r),
    {
        match axis {
            ControllerAxis::L2 => {
                let state = self.l2.observe(at_or_above_press, at_or_below_release, true);
                match state {
                    Some(s) => Some(NormalizedButton { timestamp_ns, button: ControllerButton::L2, state: s }),
                    None => None,
                }
            },
            ControllerAxis::R2 => {
                let state = self.r2.observe(at_or_above_press, at_or_below_release, true);
                match state {
                    Some(s) => Some(NormalizedButton { timestamp_ns, button: ControllerButton::R2, state: s }),
                    None => None,
                }
            },
            _ => None,
        }
    }

    /// Pausing changes what is observed for no button: it makes no edge.
    pub fn set_paused(&mut self, paused: bool) -> (r: Vec<NormalizedButton>)
        ensures
            r@.len() == 0,
            final(self).paused == paused,
            final(self).buttons@ == old(self).buttons@,
            final(self).l2 == old(self).l2,
            final(self).r2 == old(self).r2,
    {
        self.paused = paused;
        Vec::new()
    }

    /// The buttons reported pressed, in order.
    pub fn pressed_buttons(&self) -> (r: Vec<ControllerButton>)
        requires
            self.wf(),
        ensures
            r@ == held_prefix(self.buttons@, self.l2, self.r2, BUTTON_COUNT as int),
    {
        let mut r: Vec<ControllerButton> = Vec::new();
        let mut i: usize = 0;
        while i < BUTTON_COUNT
            invariant
                self.wf(),
                i <= BUTTON_COUNT,
                r@ == held_prefix(self.buttons@, self.l2, self.r2, i as int),
            decreases BUTTON_COUNT - i,
        {
            if self.buttons[i].active || (i == 11 && self.l2.active) || (i == 12 && self.r2.active) {
                r.push(button_of(i));
            }
            i += 1;
        }
        r
    }

    /// The controller went away: releases for every reported press (buttons
    /// in order, then the left and the right trigger), and nothing held
    /// afterwards.
    pub fn disconnect(&mut self, timestamp_ns: u64) -> (r: Vec<NormalizedButton>)
        requires
            old(self).wf(),
        ensures
            final(self).wf(),
            final(self).paused == old(self).paused,
            forall|i: int| 0 <= i < BUTTON_COUNT ==> #[trigger] final(self).buttons@[i] == DigitalLatch::default_value(),
            final(self).l2 == TriggerLatch::released() && final(self).r2 == TriggerLatch::released(),
            r@ == releases_prefix(old(self).buttons@, BUTTON_COUNT as int, timestamp_ns) + (if old(self).l2.active {
                seq![NormalizedButton { timestamp_ns, button: ControllerButton::L2, state: ButtonState::Released }]
            } else {
                Seq::empty()
            }) + (if old(self).r2.active {
                seq![NormalizedButton { timestamp_ns, button: ControllerButton::R2, state: ButtonState::Released }]
            } else {
                Seq::empty()
            }),
    {
        let ghost before = self.buttons@;
        let mut r: Vec<NormalizedButton> = Vec::new();
        let mut i: usize = 0;
        while i < BUTTON_COUNT
            invariant
                self.wf(),
                before.len() == BUTTON_COUNT,
                self.l2 == old(self).l2,
                self.r2 == old(self).r2,
                self.paused == old(self).paused,
                before == old(self).buttons@,
                i <= BUTTON_COUNT,
                r@ == releases_prefix(before, i as int, timestamp_ns),
                forall|k: int| 0 <= k < i ==> #[trigger] self.buttons@[k] == DigitalLatch::default_value(),
                forall|k: int| i <= k < BUTTON_COUNT ==> #[trigger] self.buttons@[k] == before[k],
            decreases BUTTON_COUNT - i,
        {
            let mut latch = self.buttons[i];
            if latch.deactivate() {
                r.push(NormalizedButton { timestamp_ns, button: button_of(i), state: ButtonState::Released });
            }
            self.buttons.set(i, DigitalLatch { physical: false, active: false });
            i += 1;
        }
        if self.l2.deactivate() {
            r.push(NormalizedButton { timestamp_ns, button: ControllerButton::L2, state: ButtonState::Released });
        }
        if self.r2.deactivate() {
            r.push(NormalizedButton { timestamp_ns, button: ControllerButton::R2, state: ButtonState::Released });
        }
        self.l2 = TriggerLatch::new();
        self.r2 = TriggerLatch::new();
        proof {
            assert(r@ =~= releases_prefix(before, BUTTON_COUNT as int, timestamp_ns) + (if old(self).l2.active {
                seq![NormalizedButton { timestamp_ns, button: ControllerButton::L2, state: ButtonState::Released }]
            } else {
                Seq::empty()
            }) + (if old(self).r2.active {
                seq![NormalizedButton { timestamp_ns, button: ControllerButton::R2, state: ButtonState::Released }]
            } else {
                Seq::empty()
            }));
        }
        r
    }
}

/// What observing a trigger did: the edge and the latch after it.
pub open spec fn trigger_edge(before: TriggerLatch, after: TriggerLatch, above: bool, below: bool, r: Option<NormalizedButton>) -> bool {
    &&& (!before.gate.pressed && above) ==> (after.gate.pressed && after.active && (r matches Some(e) && e.state == ButtonState::Pressed))
    &&& (before.gate.pressed && below) ==> (!after.gate.pressed && !after.active && if before.active {
        r matches Some(e) && e.state == ButtonState::Released
    } else {
        r is None
    })
    &&& !(!before.gate.pressed && above) && !(before.gate.pressed && below) ==> r is None && after == before
}

impl DigitalLatch {
    /// A released button.
    pub open spec fn default_value() -> DigitalLatch {
        DigitalLatch { physical: false, active: false }
    }
}

impl TriggerLatch {
    /// A released trigger.
    pub open spec fn released() -> TriggerLatch {
        TriggerLatch { gate: HysteresisGate { pressed: false }, active: false }
    }
}

} // verus!
