//! The rules a profile or mapping must satisfy before it is stored.
use crate::domain::{self, ActionDefinition, ActionStep, BindingDraft, ControllerButton, ControllerInput, KeyModifier, Trigger, WebhookRequest};
use crate::error::{CommandError, Fault, PathLabel};
use crate::text::{self, blank, char_count, trim, trimmed_char_count};
use crate::web::{self, header_name_check, header_value_check, parse_url};
use vstd::prelude::*;

verus! {

pub const MAX_PROFILE_NAME_CHARS: usize = 80;

pub const MAX_PROFILE_DESCRIPTION_CHARS: usize = 4000;

pub const MAX_PATH_CHARS: usize = 32767;

pub const MAX_ACTION_NODES: usize = 256;

pub const MAX_URL_CHARS: usize = 8192;

pub const MAX_WEBHOOK_HEADER_NAME_BYTES: usize = 256;

pub const MAX_WEBHOOK_HEADER_VALUE_BYTES: usize = 8192;

pub const MAX_WEBHOOK_HEADERS_BYTES: usize = 65536;

/// The longest delay an action may ask for: 24 hours.
pub const MAX_DELAY_MS: u64 = 86_400_000;

/// A reason to refuse a value: a rule of this library, or a URL that the URL
/// parser rejects (with the parser's message).
pub enum Problem {
    Rule(Fault),
    BadUrl(Seq<char>),
}

impl CommandError {
    /// This error reports the problem `p`.
    pub open spec fn reports(&self, p: Problem) -> bool {
        match p {
            Problem::Rule(f) => self.is(f),
            Problem::BadUrl(message) => self.code@ == "invalidUrl"@ && self.message@ == message,
        }
    }
}

/// The length of a text in UTF-8 bytes, as `str::len` reports it.
pub open spec fn byte_len(s: Seq<char>) -> nat {
    (vstd::utf8::encode_utf8(s).len() as usize) as nat
}

/// No value occurs twice.
pub open spec fn distinct<T>(s: Seq<T>) -> bool {
    forall|i: int, j: int| 0 <= i < j < s.len() ==> s[i] != s[j]
}

// ----- Profiles -----

/// The outcome of checking a profile name: the trimmed name when it has
/// between 1 and 80 characters.
pub open spec fn profile_name_check(name: Seq<char>) -> Result<Seq<char>, Fault> {
    let t = text::trimmed(name);
    if t.len() == 0 || t.len() > MAX_PROFILE_NAME_CHARS {
        Err(Fault::InvalidProfileName)
    } else {
        Ok(t)
    }
}

/// Checks a profile name and returns it trimmed.
pub fn validate_profile_name(name: &str) -> (r: Result<String, CommandError>)
    ensures
        match profile_name_check(name@) {
            Ok(t) => r matches Ok(s) && s@ == t,
            Err(f) => r matches Err(e) && e.is(f),
        },
{
    let t = trim(name);
    let n = char_count(t.as_str());
    if n == 0 || n > MAX_PROFILE_NAME_CHARS {
        Err(Fault::InvalidProfileName.error())
    } else {
        Ok(t)
    }
}

/// A path must hold between 1 and 32767 characters and not be blank.
pub open spec fn path_check(path: Seq<char>, label: PathLabel) -> Result<(), Fault> {
    if text::is_blank(path) || path.len() > MAX_PATH_CHARS {
        Err(Fault::InvalidPath(label))
    } else {
        Ok(())
    }
}

pub fn validate_path(path: &str, label: PathLabel) -> (r: Result<(), CommandError>)
    ensures
        match path_check(path@, label) {
            Ok(_) => r is Ok,
            Err(f) => r matches Err(e) && e.is(f),
        },
{
    if blank(path) || char_count(path) > MAX_PATH_CHARS {
        Err(Fault::InvalidPath(label).error())
    } else {
        Ok(())
    }
}

/// The description may hold at most 4000 characters; the automatic
/// application, when given, must be a valid path.
pub open spec fn profile_metadata_check(
    description: Option<Seq<char>>,
    automatic_app: Option<Seq<char>>,
) -> Result<(), Fault> {
    if description is Some && description->0.len() > MAX_PROFILE_DESCRIPTION_CHARS {
        Err(Fault::ProfileDescriptionTooLong)
    } else {
        match automatic_app {
            Some(p) => path_check(p, PathLabel::AutomaticProfileApplication),
            None => Ok(()),
        }
    }
}

pub fn validate_profile_metadata(description: &Option<String>, automatic_app: &Option<String>) -> (r:
    Result<(), CommandError>)
    ensures
        match profile_metadata_check(domain::opt_view(*description), domain::opt_view(*automatic_app)) {
            Ok(_) => r is Ok,
            Err(f) => r matches Err(e) && e.is(f),
        },
{
    if let Some(value) = description {
        if char_count(value.as_str()) > MAX_PROFILE_DESCRIPTION_CHARS {
            return Err(Fault::ProfileDescriptionTooLong.error());
        }
    }
    if let Some(path) = automatic_app {
        validate_path(path.as_str(), PathLabel::AutomaticProfileApplication)?;
    }
    Ok(())
}

/// An optional text without surrounding white space; blank texts are dropped.
pub open spec fn cleaned(value: Option<Seq<char>>) -> Option<Seq<char>> {
    match value {
        Some(v) => if text::trimmed(v).len() == 0 {
            None
        } else {
            Some(text::trimmed(v))
        },
        None => None,
    }
}

pub fn clean_optional(value: Option<String>) -> (r: Option<String>)
    ensures
        domain::opt_view(r) == cleaned(domain::opt_view(value)),
{
    match value {
        Some(v) => {
            let t = trim(v.as_str());
            if char_count(t.as_str()) == 0 {
                None
            } else {
                Some(t)
            }
        },
        None => None,
    }
}

// ----- URLs -----

/// A URL is accepted when its trimmed text has at most 8192 characters,
/// parses, uses `http` or `https` and names a host; the serialised URL is
/// what gets opened.
pub open spec fn web_url_check(value: Seq<char>) -> Result<Seq<char>, Problem> {
    parsed_url_check(web::parsed_url(text::trimmed(value)))
}

/// What a URL parse result amounts to: a parse error is reported with its
/// message; a URL is kept, as its serialisation, only when it uses `http`
/// or `https` and names a host.
pub open spec fn parsed_url_check(parsed: Result<(Seq<char>, Option<Seq<char>>, Seq<char>), Seq<char>>) -> Result<
    Seq<char>,
    Problem,
> {
    match parsed {
        Err(message) => Err(Problem::BadUrl(message)),
        Ok((scheme, host, serialization)) => if (scheme == "http"@ || scheme == "https"@)
            && host is Some {
            Ok(serialization)
        } else {
            Err(Problem::Rule(Fault::UnsupportedUrl))
        },
    }
}

/// The plain values of a URL parse result.
pub open spec fn parse_view(parsed: Result<web::ParsedUrl, String>) -> Result<
    (Seq<char>, Option<Seq<char>>, Seq<char>),
    Seq<char>,
> {
    match parsed {
        Ok(u) => Ok((u.scheme@, domain::opt_view(u.host), u.serialization@)),
        Err(message) => Err(message@),
    }
}

/// Checks a URL parse result: keeps the serialisation of an HTTP or HTTPS
/// URL with a host, and refuses everything else.
pub fn check_parsed_url(parsed: Result<web::ParsedUrl, String>) -> (r: Result<String, CommandError>)
    ensures
        match parsed_url_check(parse_view(parsed)) {
            Ok(s) => r matches Ok(u) && u@ == s,
            Err(p) => r matches Err(e) && e.reports(p),
        },
{
    match parsed {
        Err(message) => Err(CommandError { code: "invalidUrl".to_owned(), message }),
        Ok(url) => {
            let http = "http".to_owned();
            let https = "https".to_owned();
            if (url.scheme == http || url.scheme == https) && url.host.is_some() {
                Ok(url.serialization)
            } else {
                Err(Fault::UnsupportedUrl.error())
            }
        },
    }
}

/// The URL check used when a mapping is saved, which also bounds the length.
pub open spec fn http_url_check(value: Seq<char>) -> Result<(), Problem> {
    if text::trimmed(value).len() > MAX_URL_CHARS {
        Err(Problem::Rule(Fault::UrlTooLong))
    } else {
        match web_url_check(value) {
            Ok(_) => Ok(()),
            Err(p) => Err(p),
        }
    }
}

/// Parses `value` (trimmed) and keeps it only when it is an HTTP or HTTPS URL
/// with a host; returns its serialisation.
pub fn validated_web_url(value: &str) -> (r: Result<String, CommandError>)
    ensures
        match web_url_check(value@) {
            Ok(s) => r matches Ok(u) && u@ == s,
            Err(p) => r matches Err(e) && e.reports(p),
        },
{
    let t = trim(value);
    check_parsed_url(parse_url(t.as_str()))
}

pub fn validate_http_url(value: &str) -> (r: Result<(), CommandError>)
    ensures
        match http_url_check(value@) {
            Ok(_) => r is Ok,
            Err(p) => r matches Err(e) && e.reports(p),
        },
{
    if trimmed_char_count(value) > MAX_URL_CHARS {
        return Err(Fault::UrlTooLong.error());
    }
    match validated_web_url(value) {
        Ok(_) => Ok(()),
        Err(e) => Err(e),
    }
}


/// Whether no modifier occurs twice.
pub fn modifiers_distinct(m: &Vec<KeyModifier>) -> (r: bool)
    ensures
        r == distinct(m@),
{
    let mut i: usize = 0;
    while i < m.len()
        invariant
            i <= m@.len(),
            forall|a: int, b: int| 0 <= a < i && a < b < m@.len() ==> m@[a] != m@[b],
        decreases m@.len() - i,
    {
        let mut j: usize = i + 1;
        while j < m.len()
            invariant
                i < m@.len(),
                i + 1 <= j <= m@.len(),
                forall|a: int, b: int| 0 <= a < i && a < b < m@.len() ==> m@[a] != m@[b],
                forall|b: int| i < b < j ==> m@[i as int] != m@[b],
            decreases m@.len() - j,
        {
            if m[i] == m[j] {
                return false;
            }
            j += 1;
        }
        i += 1;
    }
    true
}

/// Whether no button occurs twice.
pub fn buttons_distinct(m: &Vec<ControllerButton>) -> (r: bool)
    ensures
        r == distinct(m@),
{
    let mut i: usize = 0;
    while i < m.len()
        invariant
            i <= m@.len(),
            forall|a: int, b: int| 0 <= a < i && a < b < m@.len() ==> m@[a] != m@[b],
        decreases m@.len() - i,
    {
        let mut j: usize = i + 1;
        while j < m.len()
            invariant
                i < m@.len(),
                i + 1 <= j <= m@.len(),
                forall|a: int, b: int| 0 <= a < i && a < b < m@.len() ==> m@[a] != m@[b],
                forall|b: int| i < b < j ==> m@[i as int] != m@[b],
            decreases m@.len() - j,
        {
            if m[i] == m[j] {
                return false;
            }
            j += 1;
        }
        i += 1;
    }
    true
}

// ----- Webhooks -----

/// Walks the headers from index `i` with `total` bytes counted so far and
/// returns the total byte count of names and values, or the first problem.
pub open spec fn headers_check(h: Seq<(String, String)>, i: int, total: nat) -> Result<nat, Fault>
    decreases h.len() - i,
{
    if i < 0 || i >= h.len() {
        Ok(total)
    } else {
        let n = byte_len(h[i].0@);
        let v = byte_len(h[i].1@);
        if total + n > usize::MAX || total + n + v > usize::MAX {
            Err(Fault::WebhookHeadersTooLarge)
        } else if n > MAX_WEBHOOK_HEADER_NAME_BYTES || v > MAX_WEBHOOK_HEADER_VALUE_BYTES
            || !web::valid_header_name(vstd::utf8::encode_utf8(h[i].0@)) || !web::valid_header_value(
            vstd::utf8::encode_utf8(h[i].1@),
        ) {
            Err(Fault::InvalidWebhookHeader)
        } else {
            headers_check(h, i + 1, (total + n + v) as nat)
        }
    }
}

/// Header names in strictly increasing order, as a map keyed by name keeps
/// them.
pub open spec fn header_names_ascending(h: Seq<(String, String)>) -> bool {
    forall|i: int, j: int| 0 <= i < j < h.len() ==> text::text_before(#[trigger] h[i].0@, #[trigger] h[j].0@)
}

/// Headers in ascending name order name no header twice, so no name is
/// counted twice in the byte total.
pub proof fn lemma_ascending_names_distinct(h: Seq<(String, String)>)
    requires
        header_names_ascending(h),
    ensures
        forall|i: int, j: int| 0 <= i < j < h.len() ==> (#[trigger] h[i]).0@ != (#[trigger] h[j]).0@,
{
    assert forall|i: int, j: int| 0 <= i < j < h.len() implies (#[trigger] h[i]).0@ != (#[trigger] h[j]).0@ by {
        text::lemma_text_before_irreflexive(h[i].0@);
    }
}

/// Whether the header names are in strictly increasing order.
pub fn names_ascending(h: &Vec<(String, String)>) -> (r: bool)
    ensures
        r == header_names_ascending(h@),
{
    let mut i: usize = 0;
    while i < h.len()
        invariant
            i <= h@.len(),
            forall|a: int, b: int| 0 <= a < i && a < b < h@.len() ==> text::text_before(#[trigger] h@[a].0@, #[trigger] h@[b].0@),
        decreases h@.len() - i,
    {
        let mut j: usize = i + 1;
        while j < h.len()
            invariant
                i < h@.len(),
                i + 1 <= j <= h@.len(),
                forall|a: int, b: int| 0 <= a < i && a < b < h@.len() ==> text::text_before(#[trigger] h@[a].0@, #[trigger] h@[b].0@),
                forall|b: int| i < b < j ==> text::text_before(h@[i as int].0@, #[trigger] h@[b].0@),
            decreases h@.len() - j,
        {
            if !text::is_text_before(h[i].0.as_str(), h[j].0.as_str()) {
                assert(!text::text_before(h@[i as int].0@, h@[j as int].0@));
                return false;
            }
            j += 1;
        }
        i += 1;
    }
    true
}

/// A webhook needs a valid URL, at most 32 headers, named in ascending
/// order, that are valid and bounded (256 bytes per name, 8192 per value,
/// 65536 in all) and a body of at most 1 MiB.
pub open spec fn webhook_check(r: WebhookRequest) -> Result<(), Problem> {
    match http_url_check(r.url@) {
        Err(p) => Err(p),
        Ok(_) => if r.headers@.len() > 32 {
            Err(Problem::Rule(Fault::TooManyWebhookHeaders))
        } else if !header_names_ascending(r.headers@) {
            Err(Problem::Rule(Fault::InvalidWebhookHeader))
        } else {
            match headers_check(r.headers@, 0, 0) {
                Err(f) => Err(Problem::Rule(f)),
                Ok(total) => if total > MAX_WEBHOOK_HEADERS_BYTES || (r.body is Some && byte_len(
                    r.body->0@,
                ) > 1_048_576) {
                    Err(Problem::Rule(Fault::WebhookTooLarge))
                } else {
                    Ok(())
                },
            }
        },
    }
}

/// Checks a webhook's URL, headers and body.
pub fn validate_webhook(request: &WebhookRequest) -> (r: Result<(), CommandError>)
    ensures
        match webhook_check(*request) {
            Ok(_) => r is Ok,
            Err(p) => r matches Err(e) && e.reports(p),
        },
{
    validate_http_url(request.url.as_str())?;
    if request.headers.len() > 32 {
        return Err(Fault::TooManyWebhookHeaders.error());
    }
    if !names_ascending(&request.headers) {
        return Err(Fault::InvalidWebhookHeader.error());
    }
    let h = &request.headers;
    let mut header_bytes: usize = 0;
    let mut i: usize = 0;
    while i < h.len()
        invariant
            i <= h@.len(),
            h@ == request.headers@,
            http_url_check(request.url@) is Ok,
            request.headers@.len() <= 32,
            header_names_ascending(request.headers@),
            headers_check(h@, 0, 0) == headers_check(h@, i as int, header_bytes as nat),
        decreases h@.len() - i,
    {
        let name = h[i].0.as_str();
        let value = h[i].1.as_str();
        let n = name.len();
        let v = value.len();
        if n > usize::MAX - header_bytes || v > usize::MAX - header_bytes - n {
            return Err(Fault::WebhookHeadersTooLarge.error());
        }
        if n > MAX_WEBHOOK_HEADER_NAME_BYTES || v > MAX_WEBHOOK_HEADER_VALUE_BYTES
            || header_name_check(name).is_err() || header_value_check(value).is_err() {
            return Err(Fault::InvalidWebhookHeader.error());
        }
        assert(headers_check(h@, i as int, header_bytes as nat) == headers_check(h@, i as int + 1, (header_bytes + n + v) as nat));
        header_bytes = header_bytes + n + v;
        i += 1;
    }
    let body_too_large = match &request.body {
        Some(body) => body.as_str().len() > 1_048_576,
        None => false,
    };
    if header_bytes > MAX_WEBHOOK_HEADERS_BYTES || body_too_large {
        return Err(Fault::WebhookTooLarge.error());
    }
    Ok(())
}

// ----- Actions -----

/// The outcome of checking `a` at nesting `depth` with `nodes` action nodes
/// counted before it (at most `max` allowed): the node count after `a` and
/// everything nested in it, or the first problem in a depth-first walk.
pub open spec fn action_check(a: ActionDefinition, depth: nat, nodes: nat, max: usize) -> Result<
    nat,
    Problem,
>
    decreases a,
{
    if depth > 16 {
        Err(Problem::Rule(Fault::ActionNestingTooDeep))
    } else if nodes + 1 > usize::MAX {
        Err(Problem::Rule(Fault::ActionTreeTooLarge))
    } else if nodes + 1 > max {
        Err(Problem::Rule(Fault::ActionTooComplex(max)))
    } else {
        let n = (nodes + 1) as nat;
        match a {
            ActionDefinition::Incomplete { action_id, configuration } => if text::is_blank(
                action_id@,
            ) || action_id@.len() > 80 || byte_len(configuration@) > 1_048_576 {
                Err(Problem::Rule(Fault::InvalidIncompleteAction))
            } else {
                Ok(n)
            },
            ActionDefinition::OpenApplication { path, arguments, working_directory } => {
                if path_check(path@, PathLabel::ApplicationPath) is Err {
                    Err(Problem::Rule(Fault::InvalidPath(PathLabel::ApplicationPath)))
                } else if working_directory is Some && path_check(
                    working_directory->0@,
                    PathLabel::WorkingDirectory,
                ) is Err {
                    Err(Problem::Rule(Fault::InvalidPath(PathLabel::WorkingDirectory)))
                } else if arguments@.len() > 64 || exists|i: int|
                    0 <= i < arguments@.len() && byte_len((#[trigger] arguments@[i])@) > 4096 {
                    Err(Problem::Rule(Fault::InvalidArguments))
                } else {
                    Ok(n)
                }
            },
            ActionDefinition::OpenPath { path } => match path_check(path@, PathLabel::Path) {
                Err(f) => Err(Problem::Rule(f)),
                Ok(_) => Ok(n),
            },
            ActionDefinition::OpenUrl { url } => match http_url_check(url@) {
                Err(p) => Err(p),
                Ok(_) => Ok(n),
            },
            ActionDefinition::Hotkey { hotkey } => if text::is_blank(hotkey.key@) || hotkey.key@.len()
                > 64 || hotkey.modifiers@.len() > 4 || !distinct(hotkey.modifiers@) {
                Err(Problem::Rule(Fault::InvalidHotkey))
            } else {
                Ok(n)
            },
            ActionDefinition::TypeText { text } => if text@.len() > 10_000 {
                Err(Problem::Rule(Fault::TextTooLong))
            } else {
                Ok(n)
            },
            ActionDefinition::Webhook { request } => match webhook_check(request) {
                Err(p) => Err(p),
                Ok(_) => Ok(n),
            },
            ActionDefinition::PlaySound { path } => match path_check(path@, PathLabel::SoundPath) {
                Err(f) => Err(Problem::Rule(f)),
                Ok(_) => Ok(n),
            },
            ActionDefinition::CloseApplication { executable_name } => if text::is_blank(
                executable_name@,
            ) || executable_name@.len() > 260 {
                Err(Problem::Rule(Fault::InvalidExecutableName))
            } else {
                Ok(n)
            },
            ActionDefinition::SwitchProfile { .. } => if depth > 0 {
                Err(Problem::Rule(Fault::NestedProfileSwitch))
            } else {
                Ok(n)
            },
            ActionDefinition::Delay { duration_ms } => if duration_ms > MAX_DELAY_MS {
                Err(Problem::Rule(Fault::DelayTooLong))
            } else {
                Ok(n)
            },
            ActionDefinition::MultiAction { steps, .. } => if steps@.len() == 0 || steps@.len()
                > 100 {
                Err(Problem::Rule(Fault::InvalidMultiAction))
            } else {
                steps_check(steps@, 0, depth, n, max)
            },
            _ => Ok(n),
        }
    }
}

/// Checks the steps of a multi-action from index `i` on, one level deeper
/// than `depth`.
pub open spec fn steps_check(s: Seq<ActionStep>, i: int, depth: nat, nodes: nat, max: usize) -> Result<
    nat,
    Problem,
>
    decreases s, s.len() - i,
{
    if i < 0 || i >= s.len() {
        Ok(nodes)
    } else if s[i].delay_after_ms > MAX_DELAY_MS {
        Err(Problem::Rule(Fault::DelayTooLong))
    } else {
        match action_check(s[i].action, depth + 1, nodes, max) {
            Err(p) => Err(p),
            Ok(n) => steps_check(s, i + 1, depth, n, max),
        }
    }
}

/// The node counter after checking `a` at nesting `depth` with `nodes`
/// counted before it, whether the check succeeds or not: a refusal for
/// depth or for an exhausted counter leaves it as it was; otherwise `a`
/// itself is counted, and a multi-action adds the nodes of the steps
/// checked up to and including the first refused one.
pub open spec fn action_count(a: ActionDefinition, depth: nat, nodes: nat, max: usize) -> nat
    decreases a,
{
    if depth > 16 || nodes + 1 > usize::MAX {
        nodes
    } else {
        let n = (nodes + 1) as nat;
        if n > max {
            n
        } else {
            match a {
                ActionDefinition::MultiAction { steps, .. } => if steps@.len() == 0 || steps@.len()
                    > 100 {
                    n
                } else {
                    steps_count(steps@, 0, depth, n, max)
                },
                _ => n,
            }
        }
    }
}

/// The node counter after checking the steps of a multi-action from index
/// `i` on, one level deeper than `depth`.
pub open spec fn steps_count(s: Seq<ActionStep>, i: int, depth: nat, nodes: nat, max: usize) -> nat
    decreases s, s.len() - i,
{
    if i < 0 || i >= s.len() {
        nodes
    } else if s[i].delay_after_ms > MAX_DELAY_MS {
        nodes
    } else {
        let c = action_count(s[i].action, depth + 1, nodes, max);
        if action_check(s[i].action, depth + 1, nodes, max) is Err {
            c
        } else {
            steps_count(s, i + 1, depth, c, max)
        }
    }
}

/// Whether some argument is longer than 4096 bytes.
fn any_argument_too_long(arguments: &Vec<String>) -> (r: bool)
    ensures
        r == exists|i: int| 0 <= i < arguments@.len() && byte_len((#[trigger] arguments@[i])@) > 4096,
{
    let mut i: usize = 0;
    while i < arguments.len()
        invariant
            i <= arguments@.len(),
            forall|k: int| 0 <= k < i ==> byte_len((#[trigger] arguments@[k])@) <= 4096,
        decreases arguments@.len() - i,
    {
        if arguments[i].as_str().len() > 4096 {
            return true;
        }
        i += 1;
    }
    false
}

/// Checks `action` at nesting `depth`, counting its nodes into
/// `action_nodes`, which may not exceed `max_action_nodes`.
pub fn validate_action(
    action: &ActionDefinition,
    depth: usize,
    action_nodes: &mut usize,
    max_action_nodes: usize,
) -> (r: Result<(), CommandError>)
    ensures
        match action_check(*action, depth as nat, *old(action_nodes) as nat, max_action_nodes) {
            Ok(n) => r is Ok && *final(action_nodes) == n,
            Err(p) => r matches Err(e) && e.reports(p),
        },
        *final(action_nodes) == action_count(*action, depth as nat, *old(action_nodes) as nat, max_action_nodes),
    decreases action,
{
    if depth > 16 {
        return Err(Fault::ActionNestingTooDeep.error());
    }
    if *action_nodes == usize::MAX {
        return Err(Fault::ActionTreeTooLarge.error());
    }
    *action_nodes = *action_nodes + 1;
    if *action_nodes > max_action_nodes {
        return Err(Fault::ActionTooComplex(max_action_nodes).error());
    }
    match action {
        ActionDefinition::Incomplete { action_id, configuration } => {
            if blank(action_id.as_str()) || char_count(action_id.as_str()) > 80
                || configuration.as_str().len() > 1_048_576 {
                return Err(Fault::InvalidIncompleteAction.error());
            }
            Ok(())
        },
        ActionDefinition::OpenApplication { path, arguments, working_directory } => {
            validate_path(path.as_str(), PathLabel::ApplicationPath)?;
            if let Some(directory) = working_directory {
                validate_path(directory.as_str(), PathLabel::WorkingDirectory)?;
            }
            if arguments.len() > 64 || any_argument_too_long(arguments) {
                return Err(Fault::InvalidArguments.error());
            }
            Ok(())
        },
        ActionDefinition::OpenPath { path } => validate_path(path.as_str(), PathLabel::Path),
        ActionDefinition::OpenUrl { url } => validate_http_url(url.as_str()),
        ActionDefinition::Hotkey { hotkey } => {
            if blank(hotkey.key.as_str()) || char_count(hotkey.key.as_str()) > 64
                || hotkey.modifiers.len() > 4 || !modifiers_distinct(&hotkey.modifiers) {
                return Err(Fault::InvalidHotkey.error());
            }
            Ok(())
        },
        ActionDefinition::TypeText { text } => {
            if char_count(text.as_str()) > 10_000 {
                return Err(Fault::TextTooLong.error());
            }
            Ok(())
        },
        ActionDefinition::Webhook { request } => validate_webhook(request),
        ActionDefinition::PlaySound { path } => validate_path(path.as_str(), PathLabel::SoundPath),
        ActionDefinition::CloseApplication { executable_name } => {
            if blank(executable_name.as_str()) || char_count(executable_name.as_str()) > 260 {
                return Err(Fault::InvalidExecutableName.error());
            }
            Ok(())
        },
        ActionDefinition::SwitchProfile { .. } => {
            if depth > 0 {
                return Err(Fault::NestedProfileSwitch.error());
            }
            Ok(())
        },
        ActionDefinition::Delay { duration_ms } => {
            if *duration_ms > MAX_DELAY_MS {
                return Err(Fault::DelayTooLong.error());
            }
            Ok(())
        },
        ActionDefinition::MultiAction { steps, .. } => {
            if steps.len() == 0 || steps.len() > 100 {
                return Err(Fault::InvalidMultiAction.error());
            }
            let ghost start = *action_nodes;
            let ghost entry = *old(action_nodes);
            assert(action_check(*action, depth as nat, entry as nat, max_action_nodes)
                == steps_check(steps@, 0, depth as nat, start as nat, max_action_nodes));
            assert(action_count(*action, depth as nat, entry as nat, max_action_nodes)
                == steps_count(steps@, 0, depth as nat, start as nat, max_action_nodes));
            let mut i: usize = 0;
            while i < steps.len()
                invariant
                    *action matches ActionDefinition::MultiAction { steps: s, .. } && s == *steps,
                    depth <= 16,
                    entry == *old(action_nodes),
                    action_check(*action, depth as nat, entry as nat, max_action_nodes)
                        == steps_check(steps@, 0, depth as nat, start as nat, max_action_nodes),
                    i <= steps@.len(),
                    steps_check(steps@, 0, depth as nat, start as nat, max_action_nodes)
                        == steps_check(steps@, i as int, depth as nat, *action_nodes as nat, max_action_nodes),
                    action_count(*action, depth as nat, entry as nat, max_action_nodes)
                        == steps_count(steps@, i as int, depth as nat, *action_nodes as nat, max_action_nodes),
                decreases steps@.len() - i,
            {
                if steps[i].delay_after_ms > MAX_DELAY_MS {
                    assert(steps_check(steps@, i as int, depth as nat, *action_nodes as nat, max_action_nodes)
                        == Err::<nat, Problem>(Problem::Rule(Fault::DelayTooLong)));
                    assert(steps_count(steps@, i as int, depth as nat, *action_nodes as nat, max_action_nodes)
                        == *action_nodes as nat);
                    return Err(Fault::DelayTooLong.error());
                }
                proof {
                    assert(decreases_to!(*action => steps@[i as int].action));
                }
                let ghost before = *action_nodes;
                let step = validate_action(&steps[i].action, depth + 1, action_nodes, max_action_nodes);
                match step {
                    Err(e) => {
                        assert(steps_check(steps@, i as int, depth as nat, before as nat, max_action_nodes)
                            == action_check(steps@[i as int].action, depth as nat + 1, before as nat, max_action_nodes));
                        assert(steps_count(steps@, i as int, depth as nat, before as nat, max_action_nodes)
                            == action_count(steps@[i as int].action, depth as nat + 1, before as nat, max_action_nodes));
                        return Err(e);
                    },
                    Ok(_) => {},
                }
                i += 1;
            }
            assert(steps_check(steps@, i as int, depth as nat, *action_nodes as nat, max_action_nodes)
                == Ok::<nat, Problem>(*action_nodes as nat));
            assert(steps_count(steps@, i as int, depth as nat, *action_nodes as nat, max_action_nodes)
                == *action_nodes as nat);
            Ok(())
        },
        _ => Ok(()),
    }
}

// ----- Mappings -----

/// A mapping needs a label of 1 to 120 characters (not blank), a single
/// button or a combination of 2 to 5 distinct buttons, trigger timings in
/// range and a valid action; on success the number of action nodes.
pub open spec fn binding_check(draft: BindingDraft, max: usize) -> Result<nat, Problem> {
    if text::is_blank(draft.label@) || draft.label@.len() > 120 {
        Err(Problem::Rule(Fault::InvalidBindingLabel))
    } else if input_check(draft.input) is Err {
        Err(Problem::Rule(input_check(draft.input)->Err_0))
    } else if trigger_check(draft.trigger) is Err {
        Err(Problem::Rule(trigger_check(draft.trigger)->Err_0))
    } else {
        action_check(draft.action, 0, 0, max)
    }
}

/// Only single buttons and combinations of 2 to 5 distinct buttons are
/// supported.
pub open spec fn input_check(input: ControllerInput) -> Result<(), Fault> {
    match input {
        ControllerInput::Button(_) => Ok(()),
        ControllerInput::Combination(buttons) => if buttons@.len() < 2 || buttons@.len() > 5
            || !distinct(buttons@) {
            Err(Fault::InvalidButtonCombination)
        } else {
            Ok(())
        },
        _ => Err(Fault::UnsupportedControllerInput),
    }
}

/// Long presses last 100 ms to 60 s, double presses are 100 ms to 2 s
/// apart, and holds repeat every 25 ms to 60 s after at most 60 s.
pub open spec fn trigger_check(trigger: Trigger) -> Result<(), Fault> {
    match trigger {
        Trigger::LongPress { duration_ms } => if duration_ms < 100 || duration_ms > 60_000 {
            Err(Fault::InvalidLongPress)
        } else {
            Ok(())
        },
        Trigger::DoublePress { interval_ms } => if interval_ms < 100 || interval_ms > 2_000 {
            Err(Fault::InvalidDoublePress)
        } else {
            Ok(())
        },
        Trigger::HoldRepeat { initial_delay_ms, interval_ms } => if initial_delay_ms > 60_000
            || interval_ms < 25 || interval_ms > 60_000 {
            Err(Fault::InvalidHoldRepeat)
        } else {
            Ok(())
        },
        _ => Ok(()),
    }
}

/// Checks a mapping draft with at most `max_action_nodes` action nodes and
/// returns how many it has.
pub fn validate_binding_with_limit(draft: &BindingDraft, max_action_nodes: usize) -> (r: Result<
    usize,
    CommandError,
>)
    ensures
        match binding_check(*draft, max_action_nodes) {
            Ok(n) => r matches Ok(k) && k == n,
            Err(p) => r matches Err(e) && e.reports(p),
        },
{
    if blank(draft.label.as_str()) || char_count(draft.label.as_str()) > 120 {
        return Err(Fault::InvalidBindingLabel.error());
    }
    match &draft.input {
        ControllerInput::Button(_) => {},
        ControllerInput::Combination(buttons) => {
            if buttons.len() < 2 || buttons.len() > 5 || !buttons_distinct(buttons) {
                return Err(Fault::InvalidButtonCombination.error());
            }
        },
        _ => {
            return Err(Fault::UnsupportedControllerInput.error());
        },
    }
    match draft.trigger {
        Trigger::LongPress { duration_ms } => {
            if duration_ms < 100 || duration_ms > 60_000 {
                return Err(Fault::InvalidLongPress.error());
            }
        },
        Trigger::DoublePress { interval_ms } => {
            if interval_ms < 100 || interval_ms > 2_000 {
                return Err(Fault::InvalidDoublePress.error());
            }
        },
        Trigger::HoldRepeat { initial_delay_ms, interval_ms } => {
            if initial_delay_ms > 60_000 || interval_ms < 25 || interval_ms > 60_000 {
                return Err(Fault::InvalidHoldRepeat.error());
            }
        },
        _ => {},
    }
    let mut action_nodes: usize = 0;
    validate_action(&draft.action, 0, &mut action_nodes, max_action_nodes)?;
    Ok(action_nodes)
}

/// Checks a mapping draft with the standard limit of 256 action nodes.
pub fn validate_binding(draft: &BindingDraft) -> (r: Result<(), CommandError>)
    ensures
        match binding_check(*draft, MAX_ACTION_NODES) {
            Ok(_) => r is Ok,
            Err(p) => r matches Err(e) && e.reports(p),
        },
{
    validate_binding_with_limit(draft, MAX_ACTION_NODES)?;
    Ok(())
}


// ----- Checks that ignore which profiles are switched to -----

/// The header check sees only the texts of the headers.
proof fn lemma_same_headers_check(a: Seq<(String, String)>, b: Seq<(String, String)>, i: int, total: nat)
    requires
        domain::same_headers(a, b),
    ensures
        headers_check(a, i, total) == headers_check(b, i, total),
    decreases a.len() - i,
{
    if 0 <= i < a.len() {
        assert(a[i].0@ == b[i].0@ && a[i].1@ == b[i].1@);
        let n = byte_len(a[i].0@);
        let v = byte_len(a[i].1@);
        if !(total + n > usize::MAX || total + n + v > usize::MAX) {
            lemma_same_headers_check(a, b, i + 1, (total + n + v) as nat);
        }
    }
}

/// Headers with the same texts are in ascending name order alike.
pub proof fn lemma_same_headers_ascending(a: Seq<(String, String)>, b: Seq<(String, String)>)
    requires
        domain::same_headers(a, b),
    ensures
        header_names_ascending(a) == header_names_ascending(b),
{
    if header_names_ascending(a) {
        assert forall|i: int, j: int| 0 <= i < j < b.len() implies text::text_before(
            #[trigger] b[i].0@,
            #[trigger] b[j].0@,
        ) by {
            assert(a[i].0@ == b[i].0@ && a[j].0@ == b[j].0@);
            assert(text::text_before(a[i].0@, a[j].0@));
        }
    }
    if header_names_ascending(b) {
        assert forall|i: int, j: int| 0 <= i < j < a.len() implies text::text_before(
            #[trigger] a[i].0@,
            #[trigger] a[j].0@,
        ) by {
            assert(a[i].0@ == b[i].0@ && a[j].0@ == b[j].0@);
            assert(text::text_before(b[i].0@, b[j].0@));
        }
    }
}

/// Two webhooks with the same texts check the same.
proof fn lemma_same_webhook_check(a: WebhookRequest, b: WebhookRequest)
    requires
        domain::same_webhook(a, b),
    ensures
        webhook_check(a) == webhook_check(b),
{
    lemma_same_headers_check(a.headers@, b.headers@, 0, 0);
    lemma_same_headers_ascending(a.headers@, b.headers@);
}

/// An action whose profile switches were redirected checks exactly as the
/// action it was made from: the checks never look at which profile is
/// switched to.
pub proof fn lemma_remapped_check(
    a: ActionDefinition,
    b: ActionDefinition,
    source: u128,
    destination: u128,
    depth: nat,
    nodes: nat,
    max: usize,
)
    requires
        domain::remapped(a, b, source, destination),
    ensures
        action_check(b, depth, nodes, max) == action_check(a, depth, nodes, max),
    decreases a,
{
    match a {
        ActionDefinition::OpenApplication { path, arguments, working_directory } => {
            let args_b = b->arguments;
            assert(domain::same_texts(args_b@, arguments@));
            if exists|i: int| 0 <= i < arguments@.len() && byte_len((#[trigger] arguments@[i])@) > 4096 {
                let i = choose|i: int| 0 <= i < arguments@.len() && byte_len((#[trigger] arguments@[i])@) > 4096;
                assert(args_b@[i]@ == arguments@[i]@);
                assert(byte_len((args_b@[i])@) > 4096);
            }
            if exists|i: int| 0 <= i < args_b@.len() && byte_len((#[trigger] args_b@[i])@) > 4096 {
                let i = choose|i: int| 0 <= i < args_b@.len() && byte_len((#[trigger] args_b@[i])@) > 4096;
                assert(args_b@[i]@ == arguments@[i]@);
                assert(byte_len((arguments@[i])@) > 4096);
            }
        },
        ActionDefinition::Webhook { request } => {
            lemma_same_webhook_check(b->request, request);
        },
        ActionDefinition::MultiAction { steps, stop_on_error } => {
            let steps_b = b->steps;
            if !(depth > 16 || nodes + 1 > usize::MAX || nodes + 1 > max) && !(steps@.len() == 0
                || steps@.len() > 100) {
                lemma_remapped_steps(steps@, steps_b@, 0, depth, (nodes + 1) as nat, max, source, destination);
            }
        },
        _ => {},
    }
}

/// The steps of a multi-action whose profile switches were redirected check
/// exactly as the steps they were made from.
proof fn lemma_remapped_steps(
    sa: Seq<ActionStep>,
    sb: Seq<ActionStep>,
    i: int,
    depth: nat,
    nodes: nat,
    max: usize,
    source: u128,
    destination: u128,
)
    requires
        sa.len() == sb.len(),
        forall|k: int|
            0 <= k < sa.len() ==> (#[trigger] sb[k]).delay_after_ms == sa[k].delay_after_ms
                && domain::remapped(sa[k].action, sb[k].action, source, destination),
    ensures
        steps_check(sb, i, depth, nodes, max) == steps_check(sa, i, depth, nodes, max),
    decreases sa, sa.len() - i,
{
    if 0 <= i < sa.len() {
        assert(sb[i].delay_after_ms == sa[i].delay_after_ms);
        if sa[i].delay_after_ms <= MAX_DELAY_MS {
            assert(decreases_to!(sa => sa[i].action));
            lemma_remapped_check(sa[i].action, sb[i].action, source, destination, depth + 1, nodes, max);
            match action_check(sa[i].action, depth + 1, nodes, max) {
                Ok(n) => {
                    lemma_remapped_steps(sa, sb, i + 1, depth, n, max, source, destination);
                },
                Err(_) => {},
            }
        }
    }
}

/// The draft a stored mapping was made from, as far as the checks see it.
pub open spec fn draft_of(b: domain::InputBinding) -> BindingDraft {
    BindingDraft {
        profile_id: b.profile_id,
        input: b.input,
        trigger: b.trigger,
        action: b.action,
        label: b.label,
        enabled: b.enabled,
    }
}

/// Two drafts that differ only in their profile, the identity of equal
/// inputs, and redirected profile switches check the same.
pub proof fn lemma_copy_check(x: BindingDraft, y: BindingDraft, source: u128, destination: u128, max: usize)
    requires
        x.label@ == y.label@,
        domain::same_input(x.input, y.input),
        x.trigger == y.trigger,
        domain::remapped(y.action, x.action, source, destination),
    ensures
        binding_check(x, max) == binding_check(y, max),
{
    lemma_remapped_check(y.action, x.action, source, destination, 0, 0, max);
}

/// A hotkey is accepted wherever the nesting and the node budget allow an
/// action, as one node, when its key is not blank and has at most 64
/// characters and it has at most four modifiers, none repeated; five or
/// more modifiers, or a repeated one, are refused as an invalid hotkey.
pub proof fn lemma_hotkey_rule(h: domain::Hotkey, depth: nat, nodes: nat, max: usize)
    requires
        depth <= 16,
        nodes + 1 <= max,
    ensures
        !text::is_blank(h.key@) && h.key@.len() <= 64 && h.modifiers@.len() <= 4 && (forall|i: int, j: int|
            0 <= i < j < h.modifiers@.len() ==> h.modifiers@[i] != h.modifiers@[j]) ==> action_check(
            ActionDefinition::Hotkey { hotkey: h },
            depth,
            nodes,
            max,
        ) == Ok::<nat, Problem>((nodes + 1) as nat),
        h.modifiers@.len() > 4 || (exists|i: int, j: int|
            0 <= i < j < h.modifiers@.len() && h.modifiers@[i] == h.modifiers@[j]) ==> action_check(
            ActionDefinition::Hotkey { hotkey: h },
            depth,
            nodes,
            max,
        ) == Err::<nat, Problem>(Problem::Rule(Fault::InvalidHotkey)),
{
}

} // verus!
