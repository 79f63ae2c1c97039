//! Turning button changes into scheduled mapping runs: which mappings of the
//! active profile fire on a change, and the bookkeeping that lets a pending
//! long press or hold notice that its button was released.
use vstd::prelude::*;
use crate::controller::{self, ButtonState};
use crate::domain::{AppSettings, ControllerButton, ControllerInput, ExecutionOutcome, InputBinding, Trigger};
use crate::error::CommandError;
use crate::text;
use std::collections::{HashMap, HashSet};
use vstd::std_specs::hash::spec_hash_map_iter;
use vstd::std_specs::iter::IteratorSpec;

verus! {

broadcast use vstd::std_specs::hash::group_hash_axioms;

/// A mapping run to start, now or after a wait.
#[derive(Clone, Copy, Debug, PartialEq, Eq, Structural)]
pub enum ScheduledAction {
    Immediate { binding_id: u128 },
    LongPress { binding_id: u128, generation: u64, duration_ms: u64 },
    HoldRepeat { binding_id: u128, generation: u64, initial_delay_ms: u64, interval_ms: u64 },
}

/// The mapping that a scheduled run runs.
pub open spec fn run_binding(a: ScheduledAction) -> u128 {
    match a {
        ScheduledAction::Immediate { binding_id } => binding_id,
        ScheduledAction::LongPress { binding_id, .. } => binding_id,
        ScheduledAction::HoldRepeat { binding_id, .. } => binding_id,
    }
}

impl ScheduledAction {
    /// The mapping to run.
    pub fn binding_id(&self) -> (r: u128)
        ensures
            r == run_binding(*self),
    {
        match self {
            ScheduledAction::Immediate { binding_id } => *binding_id,
            ScheduledAction::LongPress { binding_id, .. } => *binding_id,
            ScheduledAction::HoldRepeat { binding_id, .. } => *binding_id,
        }
    }
}

// ----- Counters -----

/// `g + 1`, wrapping to 0 at the top of the range.
pub open spec fn wrapping_next(g: u64) -> u64 {
    if g == u64::MAX {
        0
    } else {
        (g + 1) as u64
    }
}

/// Every counter advanced by one.
pub open spec fn all_advanced(m: Map<u128, u64>) -> Map<u128, u64> {
    Map::new(|k: u128| m.contains_key(k), |k: u128| wrapping_next(m[k]))
}

/// The counter of `id` after a new generation starts: one more than before
/// (wrapping), counting from 0 for an identifier not seen yet.
pub open spec fn advanced(m: Map<u128, u64>, id: u128) -> Map<u128, u64> {
    m.insert(id, wrapping_next(if m.contains_key(id) { m[id] } else { 0 }))
}

/// The buttons listed.
pub open spec fn button_set(s: Seq<ControllerButton>) -> Set<ControllerButton> {
    Set::new(|b: ControllerButton| s.contains(b))
}

// ----- The tracker -----

/// What the dispatcher remembers between button changes: the profile it
/// tracks, the buttons held, the mappings whose input is held, a
/// generation per mapping (a pending delayed run is valid only while its
/// generation is current) and the time of the first press of a pending
/// double press.
pub struct TriggerTracker {
    pub profile_id: Option<u128>,
    pub pressed: Vec<ControllerButton>,
    pub active_bindings: HashSet<u128>,
    pub generations: HashMap<u128, u64>,
    pub last_press_ns: HashMap<u128, u64>,
}

impl TriggerTracker {
    /// The buttons held.
    pub open spec fn pressed_set(&self) -> Set<ControllerButton> {
        button_set(self.pressed@)
    }

    /// The mappings whose input is held.
    pub open spec fn active_set(&self) -> Set<u128> {
        self.active_bindings@
    }

    /// The generation of each mapping seen.
    pub open spec fn generation_map(&self) -> Map<u128, u64> {
        self.generations@
    }

    /// When the first press of each pending double press happened.
    pub open spec fn first_press_map(&self) -> Map<u128, u64> {
        self.last_press_ns@
    }

    /// An empty tracker.
    pub fn new() -> (t: TriggerTracker)
        ensures
            t.profile_id is None,
            t.pressed_set() == Set::<ControllerButton>::empty(),
            t.active_set() == Set::<u128>::empty(),
            t.generation_map() == Map::<u128, u64>::empty(),
            t.first_press_map() == Map::<u128, u64>::empty(),
    {
        let t = TriggerTracker {
            profile_id: None,
            pressed: Vec::new(),
            active_bindings: HashSet::new(),
            generations: HashMap::new(),
            last_press_ns: HashMap::new(),
        };
        proof {
            assert(t.pressed_set() =~= Set::<ControllerButton>::empty());
        }
        t
    }

    /// Forgets held buttons, active mappings and pending double presses, and
    /// starts a new generation of every mapping, which invalidates every
    /// pending delayed run.
    pub fn reset(&mut self)
        ensures
            final(self).profile_id == old(self).profile_id,
            final(self).pressed_set() == Set::<ControllerButton>::empty(),
            final(self).active_set() == Set::<u128>::empty(),
            final(self).first_press_map() == Map::<u128, u64>::empty(),
            final(self).generation_map() == all_advanced(old(self).generation_map()),
    {
        self.pressed.clear();
        self.active_bindings.clear();
        self.last_press_ns.clear();
        let ghost before = self.generations@;
        let ghost pairs = spec_hash_map_iter(&self.generations).remaining();
        let mut next: HashMap<u128, u64> = HashMap::new();
        for entry in it: self.generations.iter()
            invariant
                before == self.generations@,
                it.seq() == pairs,
                forall|k: u128| #[trigger] next@.contains_key(k) ==> before.contains_key(k)
                    && next@[k] == wrapping_next(before[k]),
                forall|j: int| 0 <= j < it.index() ==> next@.contains_key(*(#[trigger] pairs[j]).0),
        {
            let (id, g) = entry;
            next.insert(*id, g.wrapping_add(1));
        }
        proof {
            assert forall|k: u128| #[trigger] before.contains_key(k) implies next@.contains_key(k) by {
                assert(pairs.contains((&k, &before[k])));
            }
            assert(next@ =~= all_advanced(before));
        }
        self.generations = next;
        proof {
            assert(self.pressed_set() =~= Set::<ControllerButton>::empty());
        }
    }

    /// Starts a new generation of mapping `id` and returns its number.
    pub fn generation(&mut self, id: u128) -> (g: u64)
        ensures
            final(self).generation_map() == advanced(old(self).generation_map(), id),
            g == final(self).generation_map()[id],
            final(self).profile_id == old(self).profile_id,
            final(self).pressed@ == old(self).pressed@,
            final(self).active_bindings@ == old(self).active_bindings@,
            final(self).last_press_ns@ == old(self).last_press_ns@,
    {
        let current = match self.generations.get(&id) {
            Some(g) => *g,
            None => 0,
        };
        let next = current.wrapping_add(1);
        self.generations.insert(id, next);
        next
    }

    /// Whether a delayed run of mapping `id` scheduled in generation
    /// `generation` may still run: no newer generation started and the
    /// mapping's input is still held.
    pub fn generation_is_current(&self, id: u128, generation: u64) -> (r: bool)
        ensures
            r == (self.generation_map().contains_key(id) && self.generation_map()[id] == generation
                && self.active_set().contains(id)),
    {
        let current = match self.generations.get(&id) {
            Some(g) => *g == generation,
            None => false,
        };
        current && self.active_bindings.contains(&id)
    }

    /// Notes that `button` went down.
    pub fn press(&mut self, button: ControllerButton)
        ensures
            final(self).pressed_set() == old(self).pressed_set().insert(button),
            final(self).profile_id == old(self).profile_id,
            final(self).active_bindings@ == old(self).active_bindings@,
            final(self).generations@ == old(self).generations@,
            final(self).last_press_ns@ == old(self).last_press_ns@,
    {
        let ghost before = self.pressed@;
        if !vec_contains_button(&self.pressed, button) {
            self.pressed.push(button);
        }
        proof {
            assert forall|b: ControllerButton| #[trigger] self.pressed@.contains(b) == (before.contains(b) || b == button) by {
                if before.contains(b) {
                    let k = choose|k: int| 0 <= k < before.len() && before[k] == b;
                    assert(self.pressed@[k] == b);
                }
                if b == button && !before.contains(b) {
                    assert(self.pressed@[before.len() as int] == b);
                }
                if self.pressed@.contains(b) && !before.contains(b) {
                    let k = choose|k: int| 0 <= k < self.pressed@.len() && self.pressed@[k] == b;
                    if k < before.len() {
                        assert(before[k] == b);
                    }
                }
            }
            assert(self.pressed_set() =~= old(self).pressed_set().insert(button));
        }
    }

    /// Notes that `button` went up.
    pub fn release(&mut self, button: ControllerButton)
        ensures
            final(self).pressed_set() == old(self).pressed_set().remove(button),
            final(self).profile_id == old(self).profile_id,
            final(self).active_bindings@ == old(self).active_bindings@,
            final(self).generations@ == old(self).generations@,
            final(self).last_press_ns@ == old(self).last_press_ns@,
    {
        let ghost before = self.pressed@;
        let mut kept: Vec<ControllerButton> = Vec::new();
        let mut i: usize = 0;
        while i < self.pressed.len()
            invariant
                self.pressed@ == before,
                i <= before.len(),
                forall|b: ControllerButton| #[trigger] kept@.contains(b) == (b != button && exists|k: int| 0 <= k < i && before[k] == b),
            decreases before.len() - i,
        {
            let b = self.pressed[i];
            let ghost kept_before = kept@;
            if b != button {
                kept.push(b);
            }
            proof {
                assert forall|x: ControllerButton| #[trigger] kept@.contains(x) == (x != button && exists|k: int| 0 <= k < i + 1 && before[k] == x) by {
                    if kept@.contains(x) {
                        let m = choose|m: int| 0 <= m < kept@.len() && kept@[m] == x;
                        if m < kept_before.len() {
                            assert(kept_before[m] == x);
                            assert(kept_before.contains(x));
                            let k = choose|k: int| 0 <= k < i && before[k] == x;
                            assert(0 <= k < i + 1 && before[k] == x);
                        } else {
                            assert(before[i as int] == x);
                        }
                    }
                    if x != button && exists|k: int| 0 <= k < i + 1 && before[k] == x {
                        let k = choose|k: int| 0 <= k < i + 1 && before[k] == x;
                        if k < i {
                            assert(kept_before.contains(x));
                            let m = choose|m: int| 0 <= m < kept_before.len() && kept_before[m] == x;
                            assert(kept@[m] == x);
                        } else {
                            assert(kept@[kept@.len() - 1] == x);
                        }
                    }
                }
            }
            i += 1;
        }
        self.pressed = kept;
        proof {
            assert forall|b: ControllerButton| #[trigger] self.pressed@.contains(b) == (before.contains(b) && b != button) by {
                if before.contains(b) && b != button {
                    let k = choose|k: int| 0 <= k < before.len() && before[k] == b;
                    assert(exists|k: int| 0 <= k < before.len() && before[k] == b);
                }
            }
            assert(self.pressed_set() =~= old(self).pressed_set().remove(button));
        }
    }

    /// Replaces the held buttons.
    pub fn set_pressed(&mut self, buttons: Vec<ControllerButton>)
        ensures
            final(self).pressed@ == buttons@,
            final(self).profile_id == old(self).profile_id,
            final(self).active_bindings@ == old(self).active_bindings@,
            final(self).generations@ == old(self).generations@,
            final(self).last_press_ns@ == old(self).last_press_ns@,
    {
        self.pressed = buttons;
    }
}

/// Whether `v` holds `b`.
fn vec_contains_button(v: &Vec<ControllerButton>, b: ControllerButton) -> (r: bool)
    ensures
        r == v@.contains(b),
{
    let mut i: usize = 0;
    while i < v.len()
        invariant
            i <= v@.len(),
            forall|k: int| 0 <= k < i ==> v@[k] != b,
        decreases v@.len() - i,
    {
        if v[i] == b {
            assert(v@[i as int] == b);
            return true;
        }
        i += 1;
    }
    false
}


// ----- Which mappings fire -----

/// Whether a mapping's input is held: a button when it is pressed, a
/// combination when it is not empty and all its buttons are pressed. Other
/// inputs are not handled here.
pub open spec fn input_held(input: ControllerInput, pressed: Set<ControllerButton>) -> Option<bool> {
    match input {
        ControllerInput::Button(b) => Some(pressed.contains(b)),
        ControllerInput::Combination(bs) => Some(
            bs@.len() > 0 && forall|i: int| 0 <= i < bs@.len() ==> pressed.contains(#[trigger] bs@[i]),
        ),
        _ => None,
    }
}

/// Whether `input` is held while the buttons in `pressed` are down.
pub fn input_active(input: &ControllerInput, pressed: &Vec<ControllerButton>) -> (r: Option<bool>)
    ensures
        r == input_held(*input, button_set(pressed@)),
{
    match input {
        ControllerInput::Button(button) => Some(vec_contains_button(pressed, *button)),
        ControllerInput::Combination(buttons) => {
            if buttons.len() == 0 {
                return Some(false);
            }
            let mut i: usize = 0;
            while i < buttons.len()
                invariant
                    *input matches ControllerInput::Combination(bs) && bs == *buttons,
                    buttons@.len() > 0,
                    i <= buttons@.len(),
                    forall|k: int| 0 <= k < i ==> button_set(pressed@).contains(#[trigger] buttons@[k]),
                decreases buttons@.len() - i,
            {
                if !vec_contains_button(pressed, buttons[i]) {
                    assert(!button_set(pressed@).contains(buttons@[i as int]));
                    return Some(false);
                }
                i += 1;
            }
            Some(true)
        },
        _ => None,
    }
}

/// `a - b`, or 0 below zero.
pub open spec fn saturating_minus(a: u64, b: u64) -> u64 {
    if a >= b {
        (a - b) as u64
    } else {
        0
    }
}

/// `ms` milliseconds in nanoseconds, capped at the top of the range.
pub open spec fn millis_to_nanos(ms: u64) -> u64 {
    if ms * 1_000_000 > u64::MAX {
        u64::MAX
    } else {
        (ms * 1_000_000) as u64
    }
}

/// The part of the tracker a mapping changes: the active mappings, the
/// generations and the pending double presses.
pub type TrackedState = (Set<u128>, Map<u128, u64>, Map<u128, u64>);

/// What one enabled mapping does when the held buttons are `pressed` at
/// time `ts`: its input becoming held fires a press, a long press or a hold
/// (the latter two under a new generation), its input no longer held fires
/// a release and ends a pending long press or hold (a new generation), and
/// a second press within the interval of a first fires a double press.
pub open spec fn binding_step(st: TrackedState, pressed: Set<ControllerButton>, b: InputBinding, ts: u64) -> (
    TrackedState,
    Option<ScheduledAction>,
) {
    let (active, gens, first) = st;
    if !b.enabled {
        (st, None)
    } else {
        match input_held(b.input, pressed) {
            None => (st, None),
            Some(now) => {
                let id = b.id;
                let was = active.contains(id);
                let act = if now {
                    active.insert(id)
                } else {
                    active.remove(id)
                };
                match b.trigger {
                    Trigger::Press => (
                        (act, gens, first),
                        if now && !was {
                            Some(ScheduledAction::Immediate { binding_id: id })
                        } else {
                            None
                        },
                    ),
                    Trigger::Release => (
                        (act, gens, first),
                        if !now && was {
                            Some(ScheduledAction::Immediate { binding_id: id })
                        } else {
                            None
                        },
                    ),
                    Trigger::LongPress { duration_ms } => if now && !was {
                        let g = advanced(gens, id);
                        (
                            (act, g, first),
                            Some(
                                ScheduledAction::LongPress {
                                    binding_id: id,
                                    generation: g[id],
                                    duration_ms,
                                },
                            ),
                        )
                    } else if !now && was {
                        ((act, advanced(gens, id), first), None)
                    } else {
                        ((act, gens, first), None)
                    },
                    Trigger::HoldRepeat { initial_delay_ms, interval_ms } => if now && !was {
                        let g = advanced(gens, id);
                        (
                            (act, g, first),
                            Some(
                                ScheduledAction::HoldRepeat {
                                    binding_id: id,
                                    generation: g[id],
                                    initial_delay_ms,
                                    interval_ms,
                                },
                            ),
                        )
                    } else if !now && was {
                        ((act, advanced(gens, id), first), None)
                    } else {
                        ((act, gens, first), None)
                    },
                    Trigger::DoublePress { interval_ms } => if now && !was {
                        if first.contains_key(id) && saturating_minus(ts, first[id])
                            <= millis_to_nanos(interval_ms) {
                            (
                                (act, gens, first.remove(id)),
                                Some(ScheduledAction::Immediate { binding_id: id }),
                            )
                        } else {
                            ((act, gens, first.insert(id, ts)), None)
                        }
                    } else {
                        ((act, gens, first), None)
                    },
                }
            },
        }
    }
}

/// The state after the first `n` mappings of `bs`, and the runs they
/// scheduled, in order.
pub open spec fn collect_prefix(
    st: TrackedState,
    pressed: Set<ControllerButton>,
    bs: Seq<InputBinding>,
    ts: u64,
    n: nat,
) -> (TrackedState, Seq<ScheduledAction>)
    decreases n,
{
    if n == 0 {
        (st, Seq::empty())
    } else {
        let (s1, out) = collect_prefix(st, pressed, bs, ts, (n - 1) as nat);
        let (s2, a) = binding_step(s1, pressed, bs[n - 1], ts);
        (
            s2,
            match a {
                Some(x) => out.push(x),
                None => out,
            },
        )
    }
}

impl TriggerTracker {
    /// The state the step rules change.
    pub open spec fn trigger_state(&self) -> TrackedState {
        (self.active_set(), self.generation_map(), self.first_press_map())
    }
}

/// Runs every mapping of `bindings` in order through the step rules with
/// the tracker's held buttons; the runs to schedule, in order.
pub fn collect_actions(bindings: &Vec<InputBinding>, timestamp_ns: u64, tracker: &mut TriggerTracker) -> (r:
    Vec<ScheduledAction>)
    ensures
        final(tracker).profile_id == old(tracker).profile_id,
        final(tracker).pressed@ == old(tracker).pressed@,
        (final(tracker).trigger_state(), r@) == collect_prefix(
            old(tracker).trigger_state(),
            old(tracker).pressed_set(),
            bindings@,
            timestamp_ns,
            bindings@.len(),
        ),
{
    let mut out: Vec<ScheduledAction> = Vec::new();
    let mut i: usize = 0;
    while i < bindings.len()
        invariant
            i <= bindings@.len(),
            tracker.profile_id == old(tracker).profile_id,
            tracker.pressed@ == old(tracker).pressed@,
            (tracker.trigger_state(), out@) == collect_prefix(
                old(tracker).trigger_state(),
                old(tracker).pressed_set(),
                bindings@,
                timestamp_ns,
                i as nat,
            ),
        decreases bindings@.len() - i,
    {
        let ghost st = tracker.trigger_state();
        let ghost out_before = out@;
        let b = &bindings[i];
        let ghost pressed = tracker.pressed_set();
        if b.enabled {
            match input_active(&b.input, &tracker.pressed) {
                None => {},
                Some(now) => {
                    let id = b.id;
                    let was = tracker.active_bindings.contains(&id);
                    if now {
                        tracker.active_bindings.insert(id);
                    } else {
                        tracker.active_bindings.remove(&id);
                    }
                    match b.trigger {
                        Trigger::Press => {
                            if now && !was {
                                out.push(ScheduledAction::Immediate { binding_id: id });
                            }
                        },
                        Trigger::Release => {
                            if !now && was {
                                out.push(ScheduledAction::Immediate { binding_id: id });
                            }
                        },
                        Trigger::LongPress { duration_ms } => {
                            if now && !was {
                                let generation = tracker.generation(id);
                                out.push(ScheduledAction::LongPress { binding_id: id, generation, duration_ms });
                            } else if !now && was {
                                tracker.generation(id);
                            }
                        },
                        Trigger::HoldRepeat { initial_delay_ms, interval_ms } => {
                            if now && !was {
                                let generation = tracker.generation(id);
                                out.push(
                                    ScheduledAction::HoldRepeat {
                                        binding_id: id,
                                        generation,
                                        initial_delay_ms,
                                        interval_ms,
                                    },
                                );
                            } else if !now && was {
                                tracker.generation(id);
                            }
                        },
                        Trigger::DoublePress { interval_ms } => {
                            if now && !was {
                                let previous = tracker.last_press_ns.remove(&id);
                                let within = match previous {
                                    Some(p) => {
                                        let window = if interval_ms > u64::MAX / 1_000_000 {
                                            u64::MAX
                                        } else {
                                            interval_ms * 1_000_000
                                        };
                                        timestamp_ns.saturating_sub(p) <= window
                                    },
                                    None => false,
                                };
                                if within {
                                    out.push(ScheduledAction::Immediate { binding_id: id });
                                } else {
                                    tracker.last_press_ns.insert(id, timestamp_ns);
                                }
                            }
                        },
                    }
                },
            }
        }
        proof {
            assert((tracker.trigger_state(), out@) == binding_step_output(st, pressed, bindings@[i as int], timestamp_ns, out_before));
        }
        i += 1;
    }
    out
}

/// The state after one mapping, with its run appended to `out`.
pub open spec fn binding_step_output(
    st: TrackedState,
    pressed: Set<ControllerButton>,
    b: InputBinding,
    ts: u64,
    out: Seq<ScheduledAction>,
) -> (TrackedState, Seq<ScheduledAction>) {
    let (s2, a) = binding_step(st, pressed, b, ts);
    (
        s2,
        match a {
            Some(x) => out.push(x),
            None => out,
        },
    )
}


// ----- Button names -----

/// The profile name of a controller button.
pub open spec fn profile_button(b: controller::ControllerButton) -> ControllerButton {
    match b {
        controller::ControllerButton::Triangle => ControllerButton::Triangle,
        controller::ControllerButton::Circle => ControllerButton::Circle,
        controller::ControllerButton::Cross => ControllerButton::Cross,
        controller::ControllerButton::Square => ControllerButton::Square,
        controller::ControllerButton::Create => ControllerButton::Create,
        controller::ControllerButton::PlayStation => ControllerButton::Playstation,
        controller::ControllerButton::Options => ControllerButton::Options,
        controller::ControllerButton::L3 => ControllerButton::LeftStick,
        controller::ControllerButton::R3 => ControllerButton::RightStick,
        controller::ControllerButton::L1 => ControllerButton::LeftBumper,
        controller::ControllerButton::R1 => ControllerButton::RightBumper,
        controller::ControllerButton::L2 => ControllerButton::LeftTrigger,
        controller::ControllerButton::R2 => ControllerButton::RightTrigger,
        controller::ControllerButton::DPadUp => ControllerButton::DpadUp,
        controller::ControllerButton::DPadRight => ControllerButton::DpadRight,
        controller::ControllerButton::DPadDown => ControllerButton::DpadDown,
        controller::ControllerButton::DPadLeft => ControllerButton::DpadLeft,
        controller::ControllerButton::Microphone => ControllerButton::Mute,
        controller::ControllerButton::Touchpad => ControllerButton::Touchpad,
    }
}

/// Names a controller button as profiles do.
pub fn map_button(button: controller::ControllerButton) -> (r: ControllerButton)
    ensures
        r == profile_button(button),
{
    match button {
        controller::ControllerButton::Triangle => ControllerButton::Triangle,
        controller::ControllerButton::Circle => ControllerButton::Circle,
        controller::ControllerButton::Cross => ControllerButton::Cross,
        controller::ControllerButton::Square => ControllerButton::Square,
        controller::ControllerButton::Create => ControllerButton::Create,
        controller::ControllerButton::PlayStation => ControllerButton::Playstation,
        controller::ControllerButton::Options => ControllerButton::Options,
        controller::ControllerButton::L3 => ControllerButton::LeftStick,
        controller::ControllerButton::R3 => ControllerButton::RightStick,
        controller::ControllerButton::L1 => ControllerButton::LeftBumper,
        controller::ControllerButton::R1 => ControllerButton::RightBumper,
        controller::ControllerButton::L2 => ControllerButton::LeftTrigger,
        controller::ControllerButton::R2 => ControllerButton::RightTrigger,
        controller::ControllerButton::DPadUp => ControllerButton::DpadUp,
        controller::ControllerButton::DPadRight => ControllerButton::DpadRight,
        controller::ControllerButton::DPadDown => ControllerButton::DpadDown,
        controller::ControllerButton::DPadLeft => ControllerButton::DpadLeft,
        controller::ControllerButton::Microphone => ControllerButton::Mute,
        controller::ControllerButton::Touchpad => ControllerButton::Touchpad,
    }
}

// ----- Dispatching -----

/// The state the step rules start from after a change: everything is
/// forgotten (a reset) when the active profile is not the one tracked.
pub open spec fn start_state(t: TriggerTracker, active_profile: u128) -> TrackedState {
    if t.profile_id == Some(active_profile) {
        t.trigger_state()
    } else {
        (Set::empty(), all_advanced(t.generation_map()), Map::empty())
    }
}

/// The buttons held before a change, as the step rules start from them.
pub open spec fn start_pressed(t: TriggerTracker, active_profile: u128) -> Set<ControllerButton> {
    if t.profile_id == Some(active_profile) {
        t.pressed_set()
    } else {
        Set::empty()
    }
}

impl TriggerTracker {
    /// Resets the tracker when the active profile changed, and tracks it.
    fn follow_profile(&mut self, active_profile: u128)
        ensures
            final(self).profile_id == Some(active_profile),
            final(self).trigger_state() == start_state(*old(self), active_profile),
            final(self).pressed_set() == start_pressed(*old(self), active_profile),
    {
        if self.profile_id != Some(active_profile) {
            self.reset();
            self.profile_id = Some(active_profile);
        }
    }
}

/// Handles a button change: nothing while mappings are paused; otherwise
/// the held buttons change and the mappings of the active profile
/// (`bindings`) are run through the step rules.
pub fn dispatch_button(
    tracker: &mut TriggerTracker,
    settings: &AppSettings,
    bindings: &Vec<InputBinding>,
    raw_button: controller::ControllerButton,
    state: ButtonState,
    timestamp_ns: u64,
) -> (r: Vec<ScheduledAction>)
    ensures
        settings.mappings_paused ==> r@.len() == 0 && *final(tracker) == *old(tracker),
        !settings.mappings_paused ==> {
            let button = profile_button(raw_button);
            let held = match state {
                ButtonState::Pressed => start_pressed(*old(tracker), settings.active_profile_id).insert(
                    button,
                ),
                ButtonState::Released => start_pressed(*old(tracker), settings.active_profile_id).remove(
                    button,
                ),
            };
            &&& final(tracker).profile_id == Some(settings.active_profile_id)
            &&& final(tracker).pressed_set() == held
            &&& (final(tracker).trigger_state(), r@) == collect_prefix(
                start_state(*old(tracker), settings.active_profile_id),
                held,
                bindings@,
                timestamp_ns,
                bindings@.len(),
            )
        },
{
    if settings.mappings_paused {
        return Vec::new();
    }
    let button = map_button(raw_button);
    tracker.follow_profile(settings.active_profile_id);
    match state {
        ButtonState::Pressed => tracker.press(button),
        ButtonState::Released => tracker.release(button),
    }
    collect_actions(bindings, timestamp_ns, tracker)
}

/// The profile names of a list of controller buttons.
fn map_buttons(raw: &Vec<controller::ControllerButton>) -> (r: Vec<ControllerButton>)
    ensures
        r@.len() == raw@.len(),
        forall|i: int| 0 <= i < raw@.len() ==> r@[i] == profile_button(#[trigger] raw@[i]),
{
    let mut r: Vec<ControllerButton> = Vec::new();
    let mut i: usize = 0;
    while i < raw.len()
        invariant
            i <= raw@.len(),
            r@.len() == i,
            forall|k: int| 0 <= k < i ==> r@[k] == profile_button(#[trigger] raw@[k]),
        decreases raw@.len() - i,
    {
        r.push(map_button(raw[i]));
        i += 1;
    }
    r
}

/// Handles a snapshot that stands in for lost events: a paused or
/// disconnected controller, or paused mappings, forget everything (a reset);
/// otherwise the held buttons become those of the snapshot and the mappings
/// of the active profile are run through the step rules.
pub fn dispatch_snapshot(
    tracker: &mut TriggerTracker,
    controller_paused: bool,
    connected: bool,
    settings: &AppSettings,
    bindings: &Vec<InputBinding>,
    pressed_buttons: &Vec<controller::ControllerButton>,
    timestamp_ns: u64,
) -> (r: Vec<ScheduledAction>)
    ensures
        controller_paused || !connected || settings.mappings_paused ==> {
            &&& r@.len() == 0
            &&& final(tracker).profile_id == old(tracker).profile_id
            &&& final(tracker).pressed_set() == Set::<ControllerButton>::empty()
            &&& final(tracker).trigger_state() == (
                Set::<u128>::empty(),
                all_advanced(old(tracker).generation_map()),
                Map::<u128, u64>::empty(),
            )
        },
        !(controller_paused || !connected || settings.mappings_paused) ==> {
            let held = Set::new(
                |b: ControllerButton|
                    exists|i: int| 0 <= i < pressed_buttons@.len() && profile_button(#[trigger] pressed_buttons@[i]) == b,
            );
            &&& final(tracker).profile_id == Some(settings.active_profile_id)
            &&& final(tracker).pressed_set() == held
            &&& (final(tracker).trigger_state(), r@) == collect_prefix(
                start_state(*old(tracker), settings.active_profile_id),
                held,
                bindings@,
                timestamp_ns,
                bindings@.len(),
            )
        },
{
    if controller_paused || !connected || settings.mappings_paused {
        tracker.reset();
        return Vec::new();
    }
    let pressed = map_buttons(pressed_buttons);
    tracker.follow_profile(settings.active_profile_id);
    tracker.set_pressed(pressed);
    proof {
        let held = Set::new(
            |b: ControllerButton|
                exists|i: int| 0 <= i < pressed_buttons@.len() && profile_button(#[trigger] pressed_buttons@[i]) == b,
        );
        assert forall|b: ControllerButton| #[trigger] tracker.pressed_set().contains(b) == held.contains(b) by {
            if tracker.pressed@.contains(b) {
                let k = choose|k: int| 0 <= k < tracker.pressed@.len() && tracker.pressed@[k] == b;
                assert(profile_button(pressed_buttons@[k]) == b);
            }
            if held.contains(b) {
                let k = choose|k: int| 0 <= k < pressed_buttons@.len() && profile_button(#[trigger] pressed_buttons@[k]) == b;
                assert(tracker.pressed@[k] == b);
            }
        }
        assert(tracker.pressed_set() =~= held);
    }
    collect_actions(bindings, timestamp_ns, tracker)
}

// ----- Outcomes -----

/// How a run ended, as the dispatcher sees it.
#[derive(Clone, Copy, Debug, PartialEq, Eq, Structural)]
pub enum ExecutionStatus {
    Completed,
    Cancelled,
    Failed,
}

/// The error codes that mean a run no longer applies rather than failed:
/// its mapping was deleted, disabled or left the active profile, or
/// mappings were paused.
pub open spec fn cancelled_code(code: Seq<char>) -> bool {
    code == "bindingNotFound"@ || code == "mappingDisabled"@ || code == "mappingInactive"@ || code
        == "mappingsPaused"@
}

/// Whether an error code means the run was cancelled.
pub fn execution_was_cancelled(code: &str) -> (r: bool)
    ensures
        r == cancelled_code(code@),
{
    text::same_text(code, "bindingNotFound") || text::same_text(code, "mappingDisabled")
        || text::same_text(code, "mappingInactive") || text::same_text(code, "mappingsPaused")
}

/// Whether a hold keeps repeating after a run that ended with `status`: only
/// a completed run is followed by another after the interval; a cancelled
/// or failed one ends the hold.
pub fn hold_continues(status: ExecutionStatus) -> (r: bool)
    ensures
        r == (status == ExecutionStatus::Completed),
{
    match status {
        ExecutionStatus::Completed => true,
        _ => false,
    }
}

/// How a run ended: completed with an outcome, cancelled before it ran or
/// by a cancelling error, or failed (to be reported).
pub fn execution_status(result: &Result<Option<ExecutionOutcome>, CommandError>) -> (r: ExecutionStatus)
    ensures
        r == match *result {
            Ok(Some(_)) => ExecutionStatus::Completed,
            Ok(None) => ExecutionStatus::Cancelled,
            Err(e) => if cancelled_code(e.code@) {
                ExecutionStatus::Cancelled
            } else {
                ExecutionStatus::Failed
            },
        },
{
    match result {
        Ok(Some(_)) => ExecutionStatus::Completed,
        Ok(None) => ExecutionStatus::Cancelled,
        Err(e) => if execution_was_cancelled(e.code.as_str()) {
            ExecutionStatus::Cancelled
        } else {
            ExecutionStatus::Failed
        },
    }
}


// ----- Laws of the step rules -----

/// Mapping identifiers are unique in `bs`.
pub open spec fn ids_unique(bs: Seq<InputBinding>) -> bool {
    forall|i: int, j: int|
        #![trigger bs[i], bs[j]]
        0 <= i < j < bs.len() ==> bs[i].id != bs[j].id
}

/// A mapping the step rules look at: enabled, with an input they handle.
pub open spec fn watched(b: InputBinding, pressed: Set<ControllerButton>) -> bool {
    b.enabled && input_held(b.input, pressed) is Some
}

/// After a pass over mappings with unique identifiers, each watched mapping
/// is active exactly when its input is held; in particular a mapping whose
/// input was released can no longer run a pending long press or hold.
pub proof fn lemma_active_follows_input(
    st: TrackedState,
    pressed: Set<ControllerButton>,
    bs: Seq<InputBinding>,
    ts: u64,
    k: nat,
)
    requires
        ids_unique(bs),
        k <= bs.len(),
    ensures
        forall|j: int|
            0 <= j < k && watched(#[trigger] bs[j], pressed) ==> collect_prefix(st, pressed, bs, ts, k).0.0.contains(
                bs[j].id,
            ) == input_held(bs[j].input, pressed)->Some_0,
    decreases k,
{
    if k > 0 {
        lemma_active_follows_input(st, pressed, bs, ts, (k - 1) as nat);
        let prev = collect_prefix(st, pressed, bs, ts, (k - 1) as nat).0;
        let b = bs[k - 1];
        assert forall|j: int|
            0 <= j < k && watched(#[trigger] bs[j], pressed) implies collect_prefix(st, pressed, bs, ts, k).0.0.contains(
                bs[j].id,
            ) == input_held(bs[j].input, pressed)->Some_0 by {
            if j < k - 1 {
                assert(bs[j].id != b.id);
            }
        }
    }
}

/// From a state in which every watched mapping is active exactly when its
/// input is held, the step rules schedule nothing and change nothing.
proof fn lemma_settled_pass(
    st: TrackedState,
    pressed: Set<ControllerButton>,
    bs: Seq<InputBinding>,
    ts: u64,
    k: nat,
)
    requires
        k <= bs.len(),
        forall|j: int|
            0 <= j < bs.len() && watched(#[trigger] bs[j], pressed) ==> st.0.contains(bs[j].id)
                == input_held(bs[j].input, pressed)->Some_0,
    ensures
        collect_prefix(st, pressed, bs, ts, k) == (st, Seq::<ScheduledAction>::empty()),
    decreases k,
{
    if k > 0 {
        lemma_settled_pass(st, pressed, bs, ts, (k - 1) as nat);
        let b = bs[k - 1];
        if watched(b, pressed) {
            let now = input_held(b.input, pressed)->Some_0;
            assert(st.0.contains(b.id) == now);
            if now {
                assert(st.0.insert(b.id) =~= st.0);
            } else {
                assert(st.0.remove(b.id) =~= st.0);
            }
        }
    }
}

/// Running the same mappings (with unique identifiers) a second time while
/// the held buttons stay the same schedules nothing and changes nothing:
/// every trigger fires on an edge only.
pub proof fn lemma_no_change_no_runs(
    st: TrackedState,
    pressed: Set<ControllerButton>,
    bs: Seq<InputBinding>,
    ts1: u64,
    ts2: u64,
)
    requires
        ids_unique(bs),
    ensures
        ({
            let settled = collect_prefix(st, pressed, bs, ts1, bs.len()).0;
            collect_prefix(settled, pressed, bs, ts2, bs.len()) == (settled, Seq::<ScheduledAction>::empty())
        }),
{
    lemma_active_follows_input(st, pressed, bs, ts1, bs.len());
    let settled = collect_prefix(st, pressed, bs, ts1, bs.len()).0;
    lemma_settled_pass(settled, pressed, bs, ts2, bs.len());
}

/// Whether some mapping among the first `n` of `bs` has identifier `id`.
pub open spec fn among_first(bs: Seq<InputBinding>, n: int, id: u128) -> bool {
    exists|j: int| 0 <= j < n && (#[trigger] bs[j]).id == id
}

/// Whether `b` is watched and its input's being held differs from its
/// activity in `st`.
pub open spec fn activity_changed(st: TrackedState, pressed: Set<ControllerButton>, b: InputBinding) -> bool {
    watched(b, pressed) && st.0.contains(b.id) != input_held(b.input, pressed)->Some_0
}

/// Over mappings with unique identifiers, every run that a pass over the
/// first `k` mappings schedules names a distinct mapping among them that is
/// enabled, has a button or combination input, and whose input's being held
/// changed against its activity before the pass; mappings the pass has not
/// reached keep their activity.
pub proof fn lemma_runs_name_changed_mappings(
    st: TrackedState,
    pressed: Set<ControllerButton>,
    bs: Seq<InputBinding>,
    ts: u64,
    k: nat,
)
    requires
        ids_unique(bs),
        k <= bs.len(),
    ensures
        ({
            let (s, out) = collect_prefix(st, pressed, bs, ts, k);
            &&& forall|r: int|
                0 <= r < out.len() ==> exists|j: int|
                    0 <= j < k && (#[trigger] bs[j]).id == run_binding(#[trigger] out[r])
                        && activity_changed(st, pressed, bs[j])
            &&& forall|r1: int, r2: int|
                0 <= r1 < r2 < out.len() ==> run_binding(#[trigger] out[r1]) != run_binding(
                    #[trigger] out[r2],
                )
            &&& forall|id: u128| !among_first(bs, k as int, id) ==> (#[trigger] s.0.contains(id)) == st.0.contains(id)
        }),
    decreases k,
{
    if k > 0 {
        let n = (k - 1) as nat;
        lemma_runs_name_changed_mappings(st, pressed, bs, ts, n);
        let (s1, out1) = collect_prefix(st, pressed, bs, ts, n);
        let (s2, out2) = collect_prefix(st, pressed, bs, ts, k);
        let b = bs[n as int];
        assert(!among_first(bs, n as int, b.id)) by {
            if among_first(bs, n as int, b.id) {
                let j = choose|j: int| 0 <= j < n && (#[trigger] bs[j]).id == b.id;
                assert(bs[j].id != bs[n as int].id);
            }
        }
        assert(s1.0.contains(b.id) == st.0.contains(b.id));
        let step = binding_step(s1, pressed, b, ts);
        assert(s2 == step.0);
        assert forall|id: u128| !among_first(bs, k as int, id) implies (#[trigger] s2.0.contains(id))
            == st.0.contains(id) by {
            assert(id != b.id) by {
                if id == b.id {
                    assert(bs[n as int].id == id);
                }
            }
            assert(!among_first(bs, n as int, id)) by {
                if among_first(bs, n as int, id) {
                    let j = choose|j: int| 0 <= j < n && (#[trigger] bs[j]).id == id;
                    assert(0 <= j < k && bs[j].id == id);
                }
            }
        }
        match step.1 {
            None => {
                assert(out2 == out1);
                assert forall|r: int| 0 <= r < out2.len() implies exists|j: int|
                    0 <= j < k && (#[trigger] bs[j]).id == run_binding(#[trigger] out2[r])
                        && activity_changed(st, pressed, bs[j]) by {
                    let j = choose|j: int|
                        0 <= j < n && (#[trigger] bs[j]).id == run_binding(#[trigger] out1[r])
                            && activity_changed(st, pressed, bs[j]);
                    assert(0 <= j < k);
                }
            },
            Some(x) => {
                assert(out2 == out1.push(x));
                assert(run_binding(x) == b.id && activity_changed(st, pressed, b));
                assert forall|r: int| 0 <= r < out2.len() implies exists|j: int|
                    0 <= j < k && (#[trigger] bs[j]).id == run_binding(#[trigger] out2[r])
                        && activity_changed(st, pressed, bs[j]) by {
                    if r < out1.len() {
                        assert(out2[r] == out1[r]);
                        let j = choose|j: int|
                            0 <= j < n && (#[trigger] bs[j]).id == run_binding(#[trigger] out1[r])
                                && activity_changed(st, pressed, bs[j]);
                        assert(0 <= j < k);
                    } else {
                        assert(out2[r] == x);
                        assert(bs[n as int].id == run_binding(out2[r]));
                    }
                }
                assert forall|r1: int, r2: int| 0 <= r1 < r2 < out2.len() implies run_binding(
                    #[trigger] out2[r1],
                ) != run_binding(#[trigger] out2[r2]) by {
                    if r2 == out1.len() {
                        assert(out2[r1] == out1[r1]);
                        let j = choose|j: int|
                            0 <= j < n && (#[trigger] bs[j]).id == run_binding(#[trigger] out1[r1])
                                && activity_changed(st, pressed, bs[j]);
                        assert(bs[j].id != bs[n as int].id);
                    } else {
                        assert(out2[r1] == out1[r1] && out2[r2] == out1[r2]);
                    }
                }
            },
        }
    }
}

/// A combination is not held while any of its buttons is up, whatever else
/// is pressed: releasing one button of a combination ends it.
pub proof fn lemma_combination_needs_every_button(
    buttons: Vec<ControllerButton>,
    pressed: Set<ControllerButton>,
    up: ControllerButton,
)
    requires
        buttons@.contains(up),
        !pressed.contains(up),
    ensures
        input_held(ControllerInput::Combination(buttons), pressed) == Some(false),
{
    let k = choose|k: int| 0 <= k < buttons@.len() && buttons@[k] == up;
    assert(!pressed.contains(buttons@[k]));
}

/// What being held means for a mapping's input: a single button is held
/// exactly while it is pressed, and a combination exactly while it names
/// some button and every button it names is pressed; other inputs are
/// never looked at.
pub proof fn lemma_held_means_pressed(input: ControllerInput, pressed: Set<ControllerButton>)
    ensures
        match input {
            ControllerInput::Button(b) => input_held(input, pressed) == Some(pressed.contains(b)),
            ControllerInput::Combination(bs) => input_held(input, pressed) == Some(
                bs@.len() > 0 && forall|b: ControllerButton| #[trigger] bs@.contains(b) ==> pressed.contains(b),
            ),
            _ => input_held(input, pressed) is None,
        },
{
    if let ControllerInput::Combination(bs) = input {
        if bs@.len() > 0 && forall|i: int| 0 <= i < bs@.len() ==> pressed.contains(#[trigger] bs@[i]) {
            assert forall|b: ControllerButton| #[trigger] bs@.contains(b) implies pressed.contains(b) by {
                let k = choose|k: int| 0 <= k < bs@.len() && bs@[k] == b;
            }
        }
        if forall|b: ControllerButton| #[trigger] bs@.contains(b) ==> pressed.contains(b) {
            assert forall|i: int| 0 <= i < bs@.len() implies pressed.contains(#[trigger] bs@[i]) by {
                assert(bs@.contains(bs@[i]));
            }
        }
    }
}

/// Pressing more buttons never ends a held input.
pub proof fn lemma_held_input_stays_held(input: ControllerInput, pressed: Set<ControllerButton>, more: Set<ControllerButton>)
    requires
        pressed.subset_of(more),
        input_held(input, pressed) == Some(true),
    ensures
        input_held(input, more) == Some(true),
{
}

} // verus!
