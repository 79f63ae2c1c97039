//! The error reported to the user interface: a stable machine-readable code
//! and a human-readable message.
use crate::text::{self, decimal_string, concat};
use vstd::prelude::*;

verus! {

/// An error as the desktop commands report it.
#[derive(Debug)]
pub struct CommandError {
    pub code: String,
    pub message: String,
}

/// Which field a path rule was checking; it names the field in the message.
#[derive(Clone, Copy, Debug, PartialEq, Eq, Structural)]
pub enum PathLabel {
    ApplicationPath,
    WorkingDirectory,
    Path,
    SoundPath,
    AutomaticProfileApplication,
}

/// Every rule violation that the library itself reports.
#[derive(Clone, Copy, Debug, PartialEq, Eq, Structural)]
pub enum Fault {
    UnsupportedDatabaseVersion(u32),
    ActiveProfileNotFound,
    ProfileNotFound,
    LastProfile,
    ProfileInUse(usize),
    BindingNotFound,
    InputAlreadyMapped,
    ProfileNameInUse,
    InvalidProfileName,
    ProfileDescriptionTooLong,
    InvalidPath(PathLabel),
    InvalidProfileReference,
    InvalidBindingLabel,
    InvalidButtonCombination,
    UnsupportedControllerInput,
    InvalidLongPress,
    InvalidDoublePress,
    InvalidHoldRepeat,
    ActionNestingTooDeep,
    ActionTreeTooLarge,
    ActionTooComplex(usize),
    InvalidIncompleteAction,
    InvalidArguments,
    InvalidHotkey,
    TextTooLong,
    TooManyWebhookHeaders,
    WebhookHeadersTooLarge,
    InvalidWebhookHeader,
    WebhookTooLarge,
    InvalidExecutableName,
    NestedProfileSwitch,
    DelayTooLong,
    InvalidMultiAction,
    UrlTooLong,
    UnsupportedUrl,
    ActionQueueFull,
    ActionServiceStopped,
    ActionCancelled,
    MappingsPaused,
    MappingDisabled,
    MappingInactive,
    IncompleteAction,
    ProfileSwitchInMultiAction,
    TooManyHeaders,
    WebhookBodyTooLarge,
    WebhookRejected(u16),
    UnsupportedPlatform,
    InvalidApplication,
    UnsupportedSoundFormat,
    ExecutableNameWithPath,
    ProtectedApplication,
    InputInjectionFailed,
}

/// The code of a fault.
pub open spec fn fault_code(f: Fault) -> Seq<char> {
    match f {
        Fault::UnsupportedDatabaseVersion(_) => "unsupportedDatabaseVersion"@,
        Fault::ActiveProfileNotFound => "profileNotFound"@,
        Fault::ProfileNotFound => "profileNotFound"@,
        Fault::LastProfile => "lastProfile"@,
        Fault::ProfileInUse(_) => "profileInUse"@,
        Fault::BindingNotFound => "bindingNotFound"@,
        Fault::InputAlreadyMapped => "inputAlreadyMapped"@,
        Fault::ProfileNameInUse => "profileNameInUse"@,
        Fault::InvalidProfileName => "invalidProfileName"@,
        Fault::ProfileDescriptionTooLong => "profileDescriptionTooLong"@,
        Fault::InvalidPath(_) => "invalidPath"@,
        Fault::InvalidProfileReference => "invalidProfileReference"@,
        Fault::InvalidBindingLabel => "invalidBindingLabel"@,
        Fault::InvalidButtonCombination => "invalidButtonCombination"@,
        Fault::UnsupportedControllerInput => "unsupportedControllerInput"@,
        Fault::InvalidLongPress => "invalidTriggerTiming"@,
        Fault::InvalidDoublePress => "invalidTriggerTiming"@,
        Fault::InvalidHoldRepeat => "invalidTriggerTiming"@,
        Fault::ActionNestingTooDeep => "actionNestingTooDeep"@,
        Fault::ActionTreeTooLarge => "actionTooComplex"@,
        Fault::ActionTooComplex(_) => "actionTooComplex"@,
        Fault::InvalidIncompleteAction => "invalidIncompleteAction"@,
        Fault::InvalidArguments => "invalidArguments"@,
        Fault::InvalidHotkey => "invalidHotkey"@,
        Fault::TextTooLong => "textTooLong"@,
        Fault::TooManyWebhookHeaders => "invalidWebhook"@,
        Fault::WebhookHeadersTooLarge => "invalidWebhook"@,
        Fault::InvalidWebhookHeader => "invalidWebhook"@,
        Fault::WebhookTooLarge => "invalidWebhook"@,
        Fault::InvalidExecutableName => "invalidExecutableName"@,
        Fault::NestedProfileSwitch => "nestedProfileSwitch"@,
        Fault::DelayTooLong => "delayTooLong"@,
        Fault::InvalidMultiAction => "invalidMultiAction"@,
        Fault::UrlTooLong => "invalidUrl"@,
        Fault::UnsupportedUrl => "invalidUrl"@,
        Fault::ActionQueueFull => "actionQueueFull"@,
        Fault::ActionServiceStopped => "actionServiceStopped"@,
        Fault::ActionCancelled => "actionCancelled"@,
        Fault::MappingsPaused => "mappingsPaused"@,
        Fault::MappingDisabled => "mappingDisabled"@,
        Fault::MappingInactive => "mappingInactive"@,
        Fault::IncompleteAction => "incompleteAction"@,
        Fault::ProfileSwitchInMultiAction => "profileSwitchInMultiAction"@,
        Fault::TooManyHeaders => "tooManyHeaders"@,
        Fault::WebhookBodyTooLarge => "webhookBodyTooLarge"@,
        Fault::WebhookRejected(_) => "webhookRejected"@,
        Fault::UnsupportedPlatform => "unsupportedPlatform"@,
        Fault::InvalidApplication => "invalidApplication"@,
        Fault::UnsupportedSoundFormat => "unsupportedSoundFormat"@,
        Fault::ExecutableNameWithPath => "invalidExecutableName"@,
        Fault::ProtectedApplication => "protectedApplication"@,
        Fault::InputInjectionFailed => "inputInjectionFailed"@,
    }
}

/// The field name that a path message starts with.
pub open spec fn path_label_text(label: PathLabel) -> Seq<char> {
    match label {
        PathLabel::ApplicationPath => "Application path"@,
        PathLabel::WorkingDirectory => "Working directory"@,
        PathLabel::Path => "Path"@,
        PathLabel::SoundPath => "Sound path"@,
        PathLabel::AutomaticProfileApplication => "Automatic profile application"@,
    }
}

/// The message of a fault.
pub open spec fn fault_message(f: Fault) -> Seq<char> {
    match f {
        Fault::UnsupportedDatabaseVersion(v) => "This database was created by a newer version of Dual Deck (schema "@
            + text::decimal(v as nat) + "); this build supports schema 2"@,
        Fault::ActiveProfileNotFound => "The active profile was not found"@,
        Fault::ProfileNotFound => "The profile was not found"@,
        Fault::LastProfile => "The only profile cannot be deleted"@,
        Fault::ProfileInUse(r) => "The profile is used by another mapping (reference "@ + text::decimal(
            r as nat,
        ) + "); remove that mapping before deleting the profile"@,
        Fault::BindingNotFound => "The mapping was not found"@,
        Fault::InputAlreadyMapped => "This controller input already has an enabled mapping in the profile"@,
        Fault::ProfileNameInUse => "A profile with this name already exists"@,
        Fault::InvalidProfileName => "Profile names must contain between 1 and 80 characters"@,
        Fault::ProfileDescriptionTooLong => "Profile descriptions cannot contain more than 4000 characters"@,
        Fault::InvalidPath(label) => path_label_text(label)
            + " must contain between 1 and 32767 characters"@,
        Fault::InvalidProfileReference => "The mapping refers to a profile that does not exist"@,
        Fault::InvalidBindingLabel => "Mapping labels must contain between 1 and 120 characters"@,
        Fault::InvalidButtonCombination => "Button combinations must contain between 2 and 5 distinct buttons"@,
        Fault::UnsupportedControllerInput => "This controller input is not supported in the current release"@,
        Fault::InvalidLongPress => "Long-press duration must be between 100 ms and 60 seconds"@,
        Fault::InvalidDoublePress => "Double-press interval must be between 100 ms and 2 seconds"@,
        Fault::InvalidHoldRepeat => "Hold-repeat timings are outside the supported range"@,
        Fault::ActionNestingTooDeep => "Multi-actions cannot be nested more than 16 levels"@,
        Fault::ActionTreeTooLarge => "The action tree is too large"@,
        Fault::ActionTooComplex(max) => "An action cannot contain more than "@ + text::decimal(max as nat)
            + " nodes"@,
        Fault::InvalidIncompleteAction => "The incomplete action draft is invalid"@,
        Fault::InvalidArguments => "The application argument list is too large"@,
        Fault::InvalidHotkey => "A hotkey must contain a key and distinct supported modifiers"@,
        Fault::TextTooLong => "Typed text cannot exceed 10,000 characters"@,
        Fault::TooManyWebhookHeaders => "A webhook cannot contain more than 32 headers"@,
        Fault::WebhookHeadersTooLarge => "The webhook headers are too large"@,
        Fault::InvalidWebhookHeader => "A webhook contains an invalid or oversized header"@,
        Fault::WebhookTooLarge => "The webhook exceeds the supported header or body limit"@,
        Fault::InvalidExecutableName => "Executable names must contain between 1 and 260 characters"@,
        Fault::NestedProfileSwitch => "Profile switching cannot be nested inside a multi-action"@,
        Fault::DelayTooLong => "A delay cannot exceed 24 hours"@,
        Fault::InvalidMultiAction => "Multi-actions must contain between 1 and 100 steps"@,
        Fault::UrlTooLong => "URLs cannot contain more than 8192 characters"@,
        Fault::UnsupportedUrl => "Only HTTP and HTTPS URLs are supported"@,
        Fault::ActionQueueFull => "Too many actions are already running or waiting"@,
        Fault::ActionServiceStopped => "The action service is not running"@,
        Fault::ActionCancelled => "The action was cancelled before it ran"@,
        Fault::MappingsPaused => "Mappings are currently paused"@,
        Fault::MappingDisabled => "The selected mapping is disabled"@,
        Fault::MappingInactive => "The selected mapping is not in the active profile"@,
        Fault::IncompleteAction => "Finish configuring this action before running it"@,
        Fault::ProfileSwitchInMultiAction => "Profile switching cannot be used inside a multi-action"@,
        Fault::TooManyHeaders => "Webhooks support at most 32 headers"@,
        Fault::WebhookBodyTooLarge => "Webhook bodies cannot exceed 1 MB"@,
        Fault::WebhookRejected(status) => "The webhook returned HTTP "@ + text::decimal(status as nat),
        Fault::UnsupportedPlatform => "This action is not available on the current platform"@,
        Fault::InvalidApplication => "Applications must be Windows executable files"@,
        Fault::UnsupportedSoundFormat => "Sound actions currently support WAV files"@,
        Fault::ExecutableNameWithPath => "Enter an executable file name without a path"@,
        Fault::ProtectedApplication => "Dual Deck cannot close this Windows process"@,
        Fault::InputInjectionFailed => "Windows did not accept the keyboard input"@,
    }
}

impl CommandError {
    /// This error reports the fault `f`.
    pub open spec fn is(&self, f: Fault) -> bool {
        &&& self.code@ == fault_code(f)
        &&& self.message@ == fault_message(f)
    }

    /// An error with the given code and message.
    pub fn new(code: &str, message: &str) -> (e: CommandError)
        ensures
            e.code@ == code@,
            e.message@ == message@,
    {
        CommandError { code: code.to_owned(), message: message.to_owned() }
    }

    /// A copy of this error.
    pub fn duplicate(&self) -> (e: CommandError)
        ensures
            e.code@ == self.code@,
            e.message@ == self.message@,
    {
        CommandError { code: self.code.clone(), message: self.message.clone() }
    }
}

fn path_label_str(label: PathLabel) -> (r: &'static str)
    ensures
        r@ == path_label_text(label),
{
    match label {
        PathLabel::ApplicationPath => "Application path",
        PathLabel::WorkingDirectory => "Working directory",
        PathLabel::Path => "Path",
        PathLabel::SoundPath => "Sound path",
        PathLabel::AutomaticProfileApplication => "Automatic profile application",
    }
}

/// `prefix`, the decimal `n`, then `suffix`.
fn with_number(prefix: &str, n: u64, suffix: &str) -> (r: String)
    ensures
        r@ == prefix@ + text::decimal(n as nat) + suffix@,
{
    let mut r = prefix.to_owned();
    let number = decimal_string(n);
    r.append(number.as_str());
    r.append(suffix);
    r
}

/// Code and message of the faults whose message holds no value.
fn fixed_text(f: Fault) -> (r: (&'static str, &'static str))
    requires
        !(f is UnsupportedDatabaseVersion || f is ProfileInUse || f is InvalidPath
            || f is ActionTooComplex || f is WebhookRejected),
    ensures
        r.0@ == fault_code(f),
        r.1@ == fault_message(f),
{
    match f {
        Fault::ActiveProfileNotFound => ("profileNotFound", "The active profile was not found"),
        Fault::ProfileNotFound => ("profileNotFound", "The profile was not found"),
        Fault::LastProfile => ("lastProfile", "The only profile cannot be deleted"),
        Fault::BindingNotFound => ("bindingNotFound", "The mapping was not found"),
        Fault::InputAlreadyMapped => (
            "inputAlreadyMapped",
            "This controller input already has an enabled mapping in the profile",
        ),
        Fault::ProfileNameInUse => ("profileNameInUse", "A profile with this name already exists"),
        Fault::InvalidProfileName => (
            "invalidProfileName",
            "Profile names must contain between 1 and 80 characters",
        ),
        Fault::ProfileDescriptionTooLong => (
            "profileDescriptionTooLong",
            "Profile descriptions cannot contain more than 4000 characters",
        ),
        Fault::InvalidProfileReference => (
            "invalidProfileReference",
            "The mapping refers to a profile that does not exist",
        ),
        Fault::InvalidBindingLabel => (
            "invalidBindingLabel",
            "Mapping labels must contain between 1 and 120 characters",
        ),
        Fault::InvalidButtonCombination => (
            "invalidButtonCombination",
            "Button combinations must contain between 2 and 5 distinct buttons",
        ),
        Fault::UnsupportedControllerInput => (
            "unsupportedControllerInput",
            "This controller input is not supported in the current release",
        ),
        Fault::InvalidLongPress => (
            "invalidTriggerTiming",
            "Long-press duration must be between 100 ms and 60 seconds",
        ),
        Fault::InvalidDoublePress => (
            "invalidTriggerTiming",
            "Double-press interval must be between 100 ms and 2 seconds",
        ),
        Fault::InvalidHoldRepeat => (
            "invalidTriggerTiming",
            "Hold-repeat timings are outside the supported range",
        ),
        Fault::ActionNestingTooDeep => (
            "actionNestingTooDeep",
            "Multi-actions cannot be nested more than 16 levels",
        ),
        Fault::ActionTreeTooLarge => ("actionTooComplex", "The action tree is too large"),
        Fault::InvalidIncompleteAction => (
            "invalidIncompleteAction",
            "The incomplete action draft is invalid",
        ),
        Fault::InvalidArguments => ("invalidArguments", "The application argument list is too large"),
        Fault::InvalidHotkey => (
            "invalidHotkey",
            "A hotkey must contain a key and distinct supported modifiers",
        ),
        Fault::TextTooLong => ("textTooLong", "Typed text cannot exceed 10,000 characters"),
        Fault::TooManyWebhookHeaders => (
            "invalidWebhook",
            "A webhook cannot contain more than 32 headers",
        ),
        Fault::WebhookHeadersTooLarge => ("invalidWebhook", "The webhook headers are too large"),
        Fault::InvalidWebhookHeader => (
            "invalidWebhook",
            "A webhook contains an invalid or oversized header",
        ),
        Fault::WebhookTooLarge => (
            "invalidWebhook",
            "The webhook exceeds the supported header or body limit",
        ),
        Fault::InvalidExecutableName => (
            "invalidExecutableName",
            "Executable names must contain between 1 and 260 characters",
        ),
        Fault::NestedProfileSwitch => (
            "nestedProfileSwitch",
            "Profile switching cannot be nested inside a multi-action",
        ),
        Fault::DelayTooLong => ("delayTooLong", "A delay cannot exceed 24 hours"),
        Fault::InvalidMultiAction => (
            "invalidMultiAction",
            "Multi-actions must contain between 1 and 100 steps",
        ),
        Fault::UrlTooLong => ("invalidUrl", "URLs cannot contain more than 8192 characters"),
        Fault::UnsupportedUrl => ("invalidUrl", "Only HTTP and HTTPS URLs are supported"),
        Fault::ActionQueueFull => (
            "actionQueueFull",
            "Too many actions are already running or waiting",
        ),
        Fault::ActionServiceStopped => ("actionServiceStopped", "The action service is not running"),
        Fault::ActionCancelled => ("actionCancelled", "The action was cancelled before it ran"),
        Fault::MappingsPaused => ("mappingsPaused", "Mappings are currently paused"),
        Fault::MappingDisabled => ("mappingDisabled", "The selected mapping is disabled"),
        Fault::MappingInactive => (
            "mappingInactive",
            "The selected mapping is not in the active profile",
        ),
        Fault::IncompleteAction => (
            "incompleteAction",
            "Finish configuring this action before running it",
        ),
        Fault::ProfileSwitchInMultiAction => (
            "profileSwitchInMultiAction",
            "Profile switching cannot be used inside a multi-action",
        ),
        Fault::TooManyHeaders => ("tooManyHeaders", "Webhooks support at most 32 headers"),
        Fault::WebhookBodyTooLarge => ("webhookBodyTooLarge", "Webhook bodies cannot exceed 1 MB"),
        Fault::UnsupportedPlatform => (
            "unsupportedPlatform",
            "This action is not available on the current platform",
        ),
        Fault::InvalidApplication => (
            "invalidApplication",
            "Applications must be Windows executable files",
        ),
        Fault::UnsupportedSoundFormat => (
            "unsupportedSoundFormat",
            "Sound actions currently support WAV files",
        ),
        Fault::ExecutableNameWithPath => (
            "invalidExecutableName",
            "Enter an executable file name without a path",
        ),
        Fault::ProtectedApplication => (
            "protectedApplication",
            "Dual Deck cannot close this Windows process",
        ),
        Fault::InputInjectionFailed => (
            "inputInjectionFailed",
            "Windows did not accept the keyboard input",
        ),
        _ => ("", ""),
    }
}

impl Fault {
    /// The error that reports this fault.
    pub fn error(self) -> (e: CommandError)
        ensures
            e.is(self),
    {
        match self {
            Fault::UnsupportedDatabaseVersion(v) => CommandError {
                code: "unsupportedDatabaseVersion".to_owned(),
                message: with_number(
                    "This database was created by a newer version of Dual Deck (schema ",
                    v as u64,
                    "); this build supports schema 2",
                ),
            },
            Fault::ProfileInUse(r) => CommandError {
                code: "profileInUse".to_owned(),
                message: with_number(
                    "The profile is used by another mapping (reference ",
                    r as u64,
                    "); remove that mapping before deleting the profile",
                ),
            },
            Fault::InvalidPath(label) => CommandError {
                code: "invalidPath".to_owned(),
                message: concat(
                    path_label_str(label),
                    " must contain between 1 and 32767 characters",
                ),
            },
            Fault::ActionTooComplex(max) => CommandError {
                code: "actionTooComplex".to_owned(),
                message: with_number("An action cannot contain more than ", max as u64, " nodes"),
            },
            Fault::WebhookRejected(status) => {
                let mut message = "The webhook returned HTTP ".to_owned();
                let number = decimal_string(status as u64);
                message.append(number.as_str());
                CommandError { code: "webhookRejected".to_owned(), message }
            },
            _ => {
                let (code, message) = fixed_text(self);
                CommandError::new(code, message)
            },
        }
    }
}

} // verus!
