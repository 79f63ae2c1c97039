//! Profiles, controller mappings, actions and settings.
//!
//! Identifiers are the 128-bit values of UUIDs, timestamps are instants as
//! seconds and nanoseconds since the Unix epoch (UTC), and file-system paths
//! are their text.
use vstd::prelude::*;

verus! {

/// An instant as a UTC date and time gives it: whole seconds since the Unix
/// epoch and the nanoseconds into that second (1_000_000_000 and more during
/// a leap second).
#[derive(Debug, Clone, Copy, PartialEq, Eq, Structural)]
pub struct Timestamp {
    pub seconds: i64,
    pub nanos: u32,
}

/// Whether `a` is a later instant than `b`.
pub open spec fn later(a: Timestamp, b: Timestamp) -> bool {
    a.seconds > b.seconds || (a.seconds == b.seconds && a.nanos > b.nanos)
}

/// Whether `a` is a later instant than `b`.
pub fn is_later(a: Timestamp, b: Timestamp) -> (r: bool)
    ensures
        r == later(a, b),
{
    a.seconds > b.seconds || (a.seconds == b.seconds && a.nanos > b.nanos)
}

/// A named set of mappings.
#[derive(Debug, Clone, PartialEq, Eq)]
pub struct Profile {
    pub id: u128,
    pub name: String,
    pub description: Option<String>,
    pub automatic_app: Option<String>,
    pub sort_order: i64,
    pub created_at: Timestamp,
    pub updated_at: Timestamp,
}

/// What a user submits to create or edit a profile.
#[derive(Debug, Clone, PartialEq, Eq)]
pub struct ProfileDraft {
    pub name: String,
    pub description: Option<String>,
    pub automatic_app: Option<String>,
}

/// The physical input a mapping listens to.
#[derive(Debug, Clone, PartialEq, Eq, Hash)]
pub enum ControllerInput {
    Button(ControllerButton),
    StickDirection(StickDirection),
    TriggerZone(TriggerZone),
    TouchpadZone(TouchpadZone),
    Combination(Vec<ControllerButton>),
}

/// A DualSense button as profiles name it.
#[derive(Debug, Clone, Copy, PartialEq, Eq, Structural, Hash)]
pub enum ControllerButton {
    Cross,
    Circle,
    Square,
    Triangle,
    DpadUp,
    DpadRight,
    DpadDown,
    DpadLeft,
    LeftBumper,
    RightBumper,
    LeftTrigger,
    RightTrigger,
    Create,
    Options,
    Playstation,
    Mute,
    LeftStick,
    RightStick,
    Touchpad,
}

#[derive(Debug, Clone, Copy, PartialEq, Eq, Structural, Hash)]
pub enum StickDirection {
    LeftUp,
    LeftRight,
    LeftDown,
    LeftLeft,
    RightUp,
    RightRight,
    RightDown,
    RightLeft,
}

#[derive(Debug, Clone, Copy, PartialEq, Eq, Structural, Hash)]
pub enum TriggerZone {
    LeftSoft,
    LeftFull,
    RightSoft,
    RightFull,
}

#[derive(Debug, Clone, Copy, PartialEq, Eq, Structural, Hash)]
pub enum TouchpadZone {
    Left,
    Center,
    Right,
}

/// When a mapping fires.
#[derive(Debug, Clone, Copy, PartialEq, Eq, Structural)]
pub enum Trigger {
    Press,
    Release,
    LongPress { duration_ms: u64 },
    DoublePress { interval_ms: u64 },
    HoldRepeat { initial_delay_ms: u64, interval_ms: u64 },
}

impl Default for Trigger {
    fn default() -> (t: Trigger)
        ensures
            t == Trigger::Press,
    {
        Trigger::Press
    }
}

/// What a mapping does.
///
/// The configuration of an incomplete draft is kept as its JSON text.
#[derive(Debug, PartialEq)]
pub enum ActionDefinition {
    Incomplete { action_id: String, configuration: String },
    OpenApplication { path: String, arguments: Vec<String>, working_directory: Option<String> },
    OpenPath { path: String },
    OpenUrl { url: String },
    Hotkey { hotkey: Hotkey },
    TypeText { text: String },
    Media { command: MediaCommand },
    Volume { command: VolumeCommand },
    PlaySound { path: String },
    Webhook { request: WebhookRequest },
    CloseApplication { executable_name: String },
    SwitchProfile { profile_id: u128 },
    Delay { duration_ms: u64 },
    MultiAction { steps: Vec<ActionStep>, stop_on_error: bool },
}

/// Whether a multi-action stops at its first failing step when the draft
/// does not say.
pub fn default_stop_on_error() -> (r: bool)
    ensures
        r,
{
    true
}

/// One step of a multi-action.
#[derive(Debug, PartialEq)]
pub struct ActionStep {
    pub action: ActionDefinition,
    pub delay_after_ms: u64,
}

#[derive(Debug, Clone, PartialEq, Eq)]
pub struct Hotkey {
    pub modifiers: Vec<KeyModifier>,
    pub key: String,
}

#[derive(Debug, Clone, Copy, PartialEq, Eq, Structural)]
pub enum KeyModifier {
    Control,
    Alt,
    Shift,
    Meta,
}

#[derive(Debug, Clone, Copy, PartialEq, Eq, Structural)]
pub enum MediaCommand {
    PlayPause,
    NextTrack,
    PreviousTrack,
    Stop,
}

#[derive(Debug, Clone, Copy, PartialEq, Eq, Structural)]
pub enum VolumeCommand {
    Up,
    Down,
    Mute,
}

/// An HTTP request sent by a mapping.
///
/// The headers are kept as a list of (name, value) pairs; a request passes
/// validation only with its names in strictly ascending order
/// (`validation::header_names_ascending`), so each name occurs once.
#[derive(Debug, Clone, PartialEq, Eq)]
pub struct WebhookRequest {
    pub url: String,
    pub method: WebhookMethod,
    pub headers: Vec<(String, String)>,
    pub body: Option<String>,
    pub timeout_ms: u64,
}

/// How long a webhook may take when the draft does not say.
pub fn default_timeout_ms() -> (r: u64)
    ensures
        r == 10_000,
{
    10_000
}

#[derive(Debug, Clone, Copy, PartialEq, Eq, Structural)]
pub enum WebhookMethod {
    Get,
    Post,
    Put,
    Patch,
    Delete,
}

impl Default for WebhookMethod {
    fn default() -> (m: WebhookMethod)
        ensures
            m == WebhookMethod::Get,
    {
        WebhookMethod::Get
    }
}

/// A stored mapping.
#[derive(Debug, Clone, PartialEq)]
pub struct InputBinding {
    pub id: u128,
    pub profile_id: u128,
    pub input: ControllerInput,
    pub trigger: Trigger,
    pub action: ActionDefinition,
    pub label: String,
    pub enabled: bool,
    pub created_at: Timestamp,
    pub updated_at: Timestamp,
}

/// What a user submits to create or edit a mapping.
#[derive(Debug, Clone, PartialEq)]
pub struct BindingDraft {
    pub profile_id: u128,
    pub input: ControllerInput,
    pub trigger: Trigger,
    pub action: ActionDefinition,
    pub label: String,
    pub enabled: bool,
}

/// Whether a new mapping is enabled when the draft does not say.
pub fn default_true() -> (r: bool)
    ensures
        r,
{
    true
}

#[derive(Debug, Clone, Copy, PartialEq, Eq, Structural)]
pub struct AppSettings {
    pub active_profile_id: u128,
    pub launch_at_startup: bool,
    pub start_minimized: bool,
    pub minimize_to_tray: bool,
    pub close_to_tray: bool,
    pub mappings_paused: bool,
    pub check_for_updates: bool,
    pub automatic_profile_switching: bool,
    pub action_toasts: bool,
    pub controller_feedback: bool,
    pub reduced_motion: bool,
    pub update_channel: UpdateChannel,
}

#[derive(Debug, Clone, Copy, PartialEq, Eq, Structural)]
pub enum UpdateChannel {
    Stable,
    Preview,
}

impl Default for UpdateChannel {
    fn default() -> (c: UpdateChannel)
        ensures
            c == UpdateChannel::Stable,
    {
        UpdateChannel::Stable
    }
}

/// Everything the editor shows at once.
#[derive(Debug, Clone, PartialEq)]
pub struct AppSnapshot {
    pub profiles: Vec<Profile>,
    pub active_profile: Profile,
    pub bindings: Vec<InputBinding>,
    pub settings: AppSettings,
}

/// What running a mapping achieved.
#[derive(Debug, Clone, Copy, PartialEq, Eq, Structural)]
pub struct ExecutionOutcome {
    pub completed_steps: usize,
    pub profile_switched_to: Option<u128>,
}

// ----- Equality of values that hold sequences -----

/// Two inputs name the same control.
pub open spec fn same_input(a: ControllerInput, b: ControllerInput) -> bool {
    match (a, b) {
        (ControllerInput::Button(x), ControllerInput::Button(y)) => x == y,
        (ControllerInput::StickDirection(x), ControllerInput::StickDirection(y)) => x == y,
        (ControllerInput::TriggerZone(x), ControllerInput::TriggerZone(y)) => x == y,
        (ControllerInput::TouchpadZone(x), ControllerInput::TouchpadZone(y)) => x == y,
        (ControllerInput::Combination(x), ControllerInput::Combination(y)) => x@ == y@,
        _ => false,
    }
}

/// The texts of an optional text.
pub open spec fn opt_view(o: Option<String>) -> Option<Seq<char>> {
    match o {
        Some(s) => Some(s@),
        None => None,
    }
}

/// Two lists of texts hold the same texts.
pub open spec fn same_texts(a: Seq<String>, b: Seq<String>) -> bool {
    &&& a.len() == b.len()
    &&& forall|i: int| 0 <= i < a.len() ==> (#[trigger] a[i])@ == b[i]@
}

/// Two header lists hold the same names and values.
pub open spec fn same_headers(a: Seq<(String, String)>, b: Seq<(String, String)>) -> bool {
    &&& a.len() == b.len()
    &&& forall|i: int| 0 <= i < a.len() ==> (#[trigger] a[i]).0@ == b[i].0@ && a[i].1@ == b[i].1@
}

pub open spec fn same_hotkey(a: Hotkey, b: Hotkey) -> bool {
    a.modifiers@ == b.modifiers@ && a.key@ == b.key@
}

pub open spec fn same_webhook(a: WebhookRequest, b: WebhookRequest) -> bool {
    &&& a.url@ == b.url@
    &&& a.method == b.method
    &&& same_headers(a.headers@, b.headers@)
    &&& opt_view(a.body) == opt_view(b.body)
    &&& a.timeout_ms == b.timeout_ms
}

/// `b` is `a` with every profile switch to `source` turned into a switch to
/// `destination` (`a` itself when the two are equal).
pub open spec fn remapped(a: ActionDefinition, b: ActionDefinition, source: u128, destination: u128) -> bool
    decreases a,
{
    match a {
        ActionDefinition::Incomplete { action_id, configuration } => b matches ActionDefinition::Incomplete {
            action_id: x,
            configuration: y,
        } && x@ == action_id@ && y@ == configuration@,
        ActionDefinition::OpenApplication {
            path,
            arguments,
            working_directory,
        } => b matches ActionDefinition::OpenApplication {
            path: p,
            arguments: args,
            working_directory: w,
        } && p@ == path@ && same_texts(args@, arguments@) && opt_view(w) == opt_view(
            working_directory,
        ),
        ActionDefinition::OpenPath { path } => b matches ActionDefinition::OpenPath { path: p } && p@
            == path@,
        ActionDefinition::OpenUrl { url } => b matches ActionDefinition::OpenUrl { url: u } && u@
            == url@,
        ActionDefinition::Hotkey { hotkey } => b matches ActionDefinition::Hotkey { hotkey: h }
            && same_hotkey(h, hotkey),
        ActionDefinition::TypeText { text } => b matches ActionDefinition::TypeText { text: t } && t@
            == text@,
        ActionDefinition::Media { command } => b == a,
        ActionDefinition::Volume { command } => b == a,
        ActionDefinition::PlaySound { path } => b matches ActionDefinition::PlaySound { path: p }
            && p@ == path@,
        ActionDefinition::Webhook { request } => b matches ActionDefinition::Webhook { request: r }
            && same_webhook(r, request),
        ActionDefinition::CloseApplication { executable_name } => b matches ActionDefinition::CloseApplication {
            executable_name: e,
        } && e@ == executable_name@,
        ActionDefinition::SwitchProfile { profile_id } => b == (ActionDefinition::SwitchProfile {
            profile_id: if profile_id == source {
                destination
            } else {
                profile_id
            },
        }),
        ActionDefinition::Delay { duration_ms } => b == a,
        ActionDefinition::MultiAction { steps, stop_on_error } => b matches ActionDefinition::MultiAction {
            steps: s2,
            stop_on_error: f2,
        } && f2 == stop_on_error && s2@.len() == steps@.len() && forall|i: int|
            0 <= i < steps@.len() ==> (#[trigger] s2@[i]).delay_after_ms == steps@[i].delay_after_ms
                && remapped(steps@[i].action, s2@[i].action, source, destination),
    }
}

/// Two actions are the same action.
pub open spec fn same_action(a: ActionDefinition, b: ActionDefinition) -> bool {
    remapped(a, b, 0, 0)
}

/// Two mappings are the same mapping.
pub open spec fn same_binding(a: InputBinding, b: InputBinding) -> bool {
    &&& a.id == b.id
    &&& a.profile_id == b.profile_id
    &&& same_input(a.input, b.input)
    &&& a.trigger == b.trigger
    &&& same_action(a.action, b.action)
    &&& a.label@ == b.label@
    &&& a.enabled == b.enabled
    &&& a.created_at == b.created_at
    &&& a.updated_at == b.updated_at
}

/// Two lists of mappings hold the same mappings in the same order.
pub open spec fn same_bindings(a: Seq<InputBinding>, b: Seq<InputBinding>) -> bool {
    &&& a.len() == b.len()
    &&& forall|i: int| 0 <= i < a.len() ==> same_binding(#[trigger] a[i], b[i])
}

// ----- Copies that keep the contents -----

pub fn copy_text_opt(o: &Option<String>) -> (r: Option<String>)
    ensures
        r == *o,
{
    match o {
        Some(s) => Some(s.clone()),
        None => None,
    }
}

pub fn copy_texts(v: &Vec<String>) -> (r: Vec<String>)
    ensures
        same_texts(r@, v@),
{
    let mut r: Vec<String> = Vec::new();
    let mut i: usize = 0;
    while i < v.len()
        invariant
            i <= v@.len(),
            r@.len() == i,
            forall|k: int| 0 <= k < i ==> (#[trigger] r@[k])@ == v@[k]@,
        decreases v@.len() - i,
    {
        r.push(v[i].clone());
        i += 1;
    }
    r
}

pub fn copy_headers(v: &Vec<(String, String)>) -> (r: Vec<(String, String)>)
    ensures
        same_headers(r@, v@),
{
    let mut r: Vec<(String, String)> = Vec::new();
    let mut i: usize = 0;
    while i < v.len()
        invariant
            i <= v@.len(),
            r@.len() == i,
            forall|k: int| 0 <= k < i ==> (#[trigger] r@[k]).0@ == v@[k].0@ && r@[k].1@ == v@[k].1@,
        decreases v@.len() - i,
    {
        r.push((v[i].0.clone(), v[i].1.clone()));
        i += 1;
    }
    r
}

pub fn copy_buttons(v: &Vec<ControllerButton>) -> (r: Vec<ControllerButton>)
    ensures
        r@ == v@,
{
    let mut r: Vec<ControllerButton> = Vec::new();
    let mut i: usize = 0;
    while i < v.len()
        invariant
            i <= v@.len(),
            r@ == v@.take(i as int),
        decreases v@.len() - i,
    {
        r.push(v[i]);
        i += 1;
        assert(r@ =~= v@.take(i as int));
    }
    assert(r@ =~= v@);
    r
}

pub fn copy_modifiers(v: &Vec<KeyModifier>) -> (r: Vec<KeyModifier>)
    ensures
        r@ == v@,
{
    let mut r: Vec<KeyModifier> = Vec::new();
    let mut i: usize = 0;
    while i < v.len()
        invariant
            i <= v@.len(),
            r@ == v@.take(i as int),
        decreases v@.len() - i,
    {
        r.push(v[i]);
        i += 1;
        assert(r@ =~= v@.take(i as int));
    }
    assert(r@ =~= v@);
    r
}

/// Whether two button lists are equal.
pub fn buttons_equal(x: &Vec<ControllerButton>, y: &Vec<ControllerButton>) -> (r: bool)
    ensures
        r == (x@ == y@),
{
    if x.len() != y.len() {
        return false;
    }
    let mut i: usize = 0;
    while i < x.len()
        invariant
            x@.len() == y@.len(),
            i <= x@.len(),
            forall|k: int| 0 <= k < i ==> x@[k] == y@[k],
        decreases x@.len() - i,
    {
        if x[i] != y[i] {
            assert(x@[i as int] != y@[i as int]);
            return false;
        }
        i += 1;
    }
    assert(x@ =~= y@);
    true
}

impl ControllerInput {
    /// A copy of this input.
    pub fn duplicate(&self) -> (r: ControllerInput)
        ensures
            same_input(r, *self),
    {
        match self {
            ControllerInput::Button(b) => ControllerInput::Button(*b),
            ControllerInput::StickDirection(d) => ControllerInput::StickDirection(*d),
            ControllerInput::TriggerZone(z) => ControllerInput::TriggerZone(*z),
            ControllerInput::TouchpadZone(z) => ControllerInput::TouchpadZone(*z),
            ControllerInput::Combination(v) => ControllerInput::Combination(copy_buttons(v)),
        }
    }

    /// Whether this input names the same control as `other`.
    pub fn same_as(&self, other: &ControllerInput) -> (r: bool)
        ensures
            r == same_input(*self, *other),
    {
        match (self, other) {
            (ControllerInput::Button(x), ControllerInput::Button(y)) => *x == *y,
            (ControllerInput::StickDirection(x), ControllerInput::StickDirection(y)) => *x == *y,
            (ControllerInput::TriggerZone(x), ControllerInput::TriggerZone(y)) => *x == *y,
            (ControllerInput::TouchpadZone(x), ControllerInput::TouchpadZone(y)) => *x == *y,
            (ControllerInput::Combination(x), ControllerInput::Combination(y)) => buttons_equal(x, y),
            _ => false,
        }
    }
}

impl Hotkey {
    pub fn duplicate(&self) -> (r: Hotkey)
        ensures
            same_hotkey(r, *self),
    {
        Hotkey { modifiers: copy_modifiers(&self.modifiers), key: self.key.clone() }
    }
}

impl WebhookRequest {
    pub fn duplicate(&self) -> (r: WebhookRequest)
        ensures
            same_webhook(r, *self),
    {
        WebhookRequest {
            url: self.url.clone(),
            method: self.method,
            headers: copy_headers(&self.headers),
            body: copy_text_opt(&self.body),
            timeout_ms: self.timeout_ms,
        }
    }
}

/// A copy of `action` in which profile switches to `source` switch to
/// `destination` instead.
pub fn remap_profile_action(action: &ActionDefinition, source: u128, destination: u128) -> (r:
    ActionDefinition)
    ensures
        remapped(*action, r, source, destination),
    decreases action,
{
    match action {
        ActionDefinition::Incomplete { action_id, configuration } => ActionDefinition::Incomplete {
            action_id: action_id.clone(),
            configuration: configuration.clone(),
        },
        ActionDefinition::OpenApplication { path, arguments, working_directory } => {
            ActionDefinition::OpenApplication {
                path: path.clone(),
                arguments: copy_texts(arguments),
                working_directory: copy_text_opt(working_directory),
            }
        },
        ActionDefinition::OpenPath { path } => ActionDefinition::OpenPath { path: path.clone() },
        ActionDefinition::OpenUrl { url } => ActionDefinition::OpenUrl { url: url.clone() },
        ActionDefinition::Hotkey { hotkey } => ActionDefinition::Hotkey { hotkey: hotkey.duplicate() },
        ActionDefinition::TypeText { text } => ActionDefinition::TypeText { text: text.clone() },
        ActionDefinition::Media { command } => ActionDefinition::Media { command: *command },
        ActionDefinition::Volume { command } => ActionDefinition::Volume { command: *command },
        ActionDefinition::PlaySound { path } => ActionDefinition::PlaySound { path: path.clone() },
        ActionDefinition::Webhook { request } => ActionDefinition::Webhook {
            request: request.duplicate(),
        },
        ActionDefinition::CloseApplication { executable_name } => ActionDefinition::CloseApplication {
            executable_name: executable_name.clone(),
        },
        ActionDefinition::SwitchProfile { profile_id } => {
            let r = ActionDefinition::SwitchProfile {
                profile_id: if *profile_id == source {
                    destination
                } else {
                    *profile_id
                },
            };
            assert(remapped(*action, r, source, destination));
            r
        },
        ActionDefinition::Delay { duration_ms } => ActionDefinition::Delay {
            duration_ms: *duration_ms,
        },
        ActionDefinition::MultiAction { steps, stop_on_error } => {
            let mut out: Vec<ActionStep> = Vec::new();
            let mut i: usize = 0;
            while i < steps.len()
                invariant
                    *action matches ActionDefinition::MultiAction { steps: s, .. } && s == *steps,
                    i <= steps@.len(),
                    out@.len() == i,
                    forall|k: int|
                        0 <= k < i ==> (#[trigger] out@[k]).delay_after_ms
                            == steps@[k].delay_after_ms && remapped(
                            steps@[k].action,
                            out@[k].action,
                            source,
                            destination,
                        ),
                decreases steps@.len() - i,
            {
                proof {
                    assert(decreases_to!(*action => steps@[i as int].action));
                }
                let step_action = remap_profile_action(&steps[i].action, source, destination);
                out.push(ActionStep { action: step_action, delay_after_ms: steps[i].delay_after_ms });
                i += 1;
            }
            let r = ActionDefinition::MultiAction { steps: out, stop_on_error: *stop_on_error };
            assert(remapped(*action, r, source, destination));
            r
        },
    }
}

impl ActionDefinition {
    /// A copy of this action.
    pub fn duplicate(&self) -> (r: ActionDefinition)
        ensures
            same_action(*self, r),
    {
        remap_profile_action(self, 0, 0)
    }
}

impl Clone for ActionDefinition {
    fn clone(&self) -> (r: ActionDefinition)
        ensures
            same_action(*self, r),
    {
        self.duplicate()
    }
}

impl Clone for ActionStep {
    fn clone(&self) -> (r: ActionStep)
        ensures
            r.delay_after_ms == self.delay_after_ms,
            same_action(self.action, r.action),
    {
        ActionStep { action: self.action.duplicate(), delay_after_ms: self.delay_after_ms }
    }
}

impl InputBinding {
    /// A copy of this mapping.
    pub fn duplicate(&self) -> (r: InputBinding)
        ensures
            same_binding(*self, r),
    {
        let action = self.action.duplicate();
        let r = InputBinding {
            id: self.id,
            profile_id: self.profile_id,
            input: self.input.duplicate(),
            trigger: self.trigger,
            action,
            label: self.label.clone(),
            enabled: self.enabled,
            created_at: self.created_at,
            updated_at: self.updated_at,
        };
        assert(same_input(self.input, r.input));
        r
    }
}

impl Profile {
    /// A copy of this profile.
    pub fn duplicate(&self) -> (r: Profile)
        ensures
            r == *self,
    {
        Profile {
            id: self.id,
            name: self.name.clone(),
            description: copy_text_opt(&self.description),
            automatic_app: copy_text_opt(&self.automatic_app),
            sort_order: self.sort_order,
            created_at: self.created_at,
            updated_at: self.updated_at,
        }
    }
}

} // verus!
