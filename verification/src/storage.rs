//! The profiles, mappings and settings that the application keeps, with the
//! rules every change must satisfy.
//!
//! A `Database` holds the stored rows: profiles in list order (sort order,
//! then name), mappings in creation order, and the settings. Every change is
//! checked and applied here; the application reads the rows from SQLite,
//! calls one operation and, when it succeeds, writes the rows back.
//! Identifiers of new rows (random UUIDs) and the current
//! time are supplied by the caller.
use crate::domain::{
    self, Timestamp, ActionDefinition, AppSettings, AppSnapshot, BindingDraft, ControllerInput, InputBinding,
    Profile, ProfileDraft, Trigger, UpdateChannel,
};
use crate::error::{CommandError, Fault};
use crate::text::{self, char_count, chars_of, concat, eq_ignore_ascii_case, is_whitespace, trim};
use crate::validation::{self, clean_optional, validate_binding, validate_profile_metadata, validate_profile_name};
use vstd::prelude::*;

verus! {

/// The newest schema this build understands.
pub const DATABASE_SCHEMA_VERSION: u32 = 2;

/// The text of a UUID as `uuid::Uuid`'s `Display` writes it: 32 lower-case
/// hexadecimal digits, most significant first, in groups of 8-4-4-4-12
/// separated by hyphens.
pub open spec fn uuid_text(v: u128) -> Seq<char> {
    Seq::new(
        36,
        |i: int|
            if i == 8 || i == 13 || i == 18 || i == 23 {
                '-'
            } else {
                let k = i - (if i > 23 {
                    4int
                } else if i > 18 {
                    3int
                } else if i > 13 {
                    2int
                } else if i > 8 {
                    1int
                } else {
                    0int
                });
                let d = (v as int / vstd::arithmetic::power::pow(16, (31 - k) as nat)) % 16;
                if d < 10 {
                    (48 + d) as char
                } else {
                    (87 + d) as char
                }
            },
    )
}

/// Formats `id` with `uuid::Uuid::from_u128(id).to_string()`.
#[verifier::external_body]
pub(crate) fn uuid_string(id: u128) -> (r: String)
    ensures
        r@ == uuid_text(id),
{
    uuid::Uuid::from_u128(id).to_string()
}

/// What `uuid::Uuid::parse_str` makes of a text: the UUID's value, or the
/// text of the parse error.
pub uninterp spec fn parsed_uuid(text: Seq<char>) -> Result<u128, Seq<char>>;

/// Calls `uuid::Uuid::parse_str` on `text` and keeps the value or the
/// error's text. The text that `Display` writes for a UUID parses back to
/// that UUID, as the crate's hyphenated parser accepts lower-case
/// hexadecimal in groups 8-4-4-4-12.
#[verifier::external_body]
pub(crate) fn parse_uuid(text: &str) -> (r: Result<u128, String>)
    ensures
        match r {
            Ok(v) => parsed_uuid(text@) == Ok::<u128, Seq<char>>(v),
            Err(m) => parsed_uuid(text@) == Err::<u128, Seq<char>>(m@),
        },
        forall|v: u128| text@ == uuid_text(v) ==> r is Ok && r->Ok_0 == v,
{
    uuid::Uuid::parse_str(text).map(|id| id.as_u128()).map_err(|error| error.to_string())
}

/// What `chrono::DateTime::parse_from_rfc3339` makes of a text: the
/// instant's whole seconds since the Unix epoch and its nanoseconds into that
/// second (as `timestamp` and `timestamp_subsec_nanos` give them), or the
/// text of the parse error.
pub uninterp spec fn parsed_timestamp(text: Seq<char>) -> Result<(i64, u32), Seq<char>>;

/// Calls `chrono::DateTime::parse_from_rfc3339` on `text` and keeps the
/// instant's seconds and nanoseconds or the error's text.
#[verifier::external_body]
fn parse_timestamp(text: &str) -> (r: Result<(i64, u32), String>)
    ensures
        match r {
            Ok(v) => parsed_timestamp(text@) == Ok::<(i64, u32), Seq<char>>(v),
            Err(m) => parsed_timestamp(text@) == Err::<(i64, u32), Seq<char>>(m@),
        },
{
    chrono::DateTime::parse_from_rfc3339(text)
        .map(|at| (at.timestamp(), at.timestamp_subsec_nanos()))
        .map_err(|error| error.to_string())
}

/// Decodes an identifier read from the database: the UUID's value, or an
/// `invalidStoredUuid` error carrying the parser's message.
pub fn decode_stored_id(text: &str) -> (r: Result<u128, CommandError>)
    ensures
        match parsed_uuid(text@) {
            Ok(v) => r matches Ok(w) && w == v,
            Err(m) => r matches Err(e) && e.code@ == "invalidStoredUuid"@ && e.message@ == m,
        },
        forall|v: u128| text@ == uuid_text(v) ==> (r matches Ok(w) && w == v),
{
    match parse_uuid(text) {
        Ok(v) => Ok(v),
        Err(message) => Err(CommandError::new("invalidStoredUuid", message.as_str())),
    }
}

/// Decodes a timestamp read from the database (RFC 3339 text); text that
/// does not parse is refused with `invalidStoredTimestamp` and the parser's
/// message.
pub fn decode_stored_timestamp(text: &str) -> (r: Result<Timestamp, CommandError>)
    ensures
        match parsed_timestamp(text@) {
            Ok((seconds, nanos)) => r matches Ok(t) && t.seconds == seconds && t.nanos == nanos,
            Err(m) => r matches Err(e) && e.code@ == "invalidStoredTimestamp"@ && e.message@ == m,
        },
{
    match parse_timestamp(text) {
        Ok((seconds, nanos)) => Ok(Timestamp { seconds, nanos }),
        Err(message) => Err(CommandError::new("invalidStoredTimestamp", message.as_str())),
    }
}

// ----- Lookups -----

/// Some profile has the identifier `id`.
pub open spec fn has_profile(s: Seq<Profile>, id: u128) -> bool {
    exists|i: int| 0 <= i < s.len() && (#[trigger] s[i]).id == id
}

/// `i` is the position of the first profile with identifier `id`.
pub open spec fn first_profile(s: Seq<Profile>, id: u128, i: int) -> bool {
    &&& 0 <= i < s.len()
    &&& s[i].id == id
    &&& forall|k: int| 0 <= k < i ==> (#[trigger] s[k]).id != id
}

/// `i` is the position of the first mapping with identifier `id`.
pub open spec fn first_binding(s: Seq<InputBinding>, id: u128, i: int) -> bool {
    &&& 0 <= i < s.len()
    &&& s[i].id == id
    &&& forall|k: int| 0 <= k < i ==> (#[trigger] s[k]).id != id
}

/// Some mapping has the identifier `id`.
pub open spec fn has_binding(s: Seq<InputBinding>, id: u128) -> bool {
    exists|i: int| 0 <= i < s.len() && (#[trigger] s[i]).id == id
}

/// Position of the first profile with identifier `id`.
pub fn find_profile(profiles: &Vec<Profile>, id: u128) -> (r: Option<usize>)
    ensures
        match r {
            Some(i) => first_profile(profiles@, id, i as int),
            None => !has_profile(profiles@, id),
        },
{
    let mut i: usize = 0;
    while i < profiles.len()
        invariant
            i <= profiles@.len(),
            forall|k: int| 0 <= k < i ==> (#[trigger] profiles@[k]).id != id,
        decreases profiles@.len() - i,
    {
        if profiles[i].id == id {
            return Some(i);
        }
        i += 1;
    }
    None
}

/// Position of the first mapping with identifier `id`.
pub fn find_binding(bindings: &Vec<InputBinding>, id: u128) -> (r: Option<usize>)
    ensures
        match r {
            Some(i) => first_binding(bindings@, id, i as int),
            None => !has_binding(bindings@, id),
        },
{
    let mut i: usize = 0;
    while i < bindings.len()
        invariant
            i <= bindings@.len(),
            forall|k: int| 0 <= k < i ==> (#[trigger] bindings@[k]).id != id,
        decreases bindings@.len() - i,
    {
        if bindings[i].id == id {
            return Some(i);
        }
        i += 1;
    }
    None
}

/// Some profile other than `except` is named `name` up to ASCII case, which
/// the case-insensitive unique index on profile names forbids.
pub open spec fn name_taken(s: Seq<Profile>, name: Seq<char>, except: Option<u128>) -> bool {
    exists|i: int|
        0 <= i < s.len() && text::eq_ascii_case((#[trigger] s[i]).name@, name) && (except is None
            || s[i].id != except->0)
}

pub fn is_name_taken(profiles: &Vec<Profile>, name: &str, except: Option<u128>) -> (r: bool)
    ensures
        r == name_taken(profiles@, name@, except),
{
    let mut i: usize = 0;
    while i < profiles.len()
        invariant
            i <= profiles@.len(),
            forall|k: int|
                0 <= k < i ==> !(text::eq_ascii_case((#[trigger] profiles@[k]).name@, name@) && (
                except is None || profiles@[k].id != except->0)),
        decreases profiles@.len() - i,
    {
        let other = match except {
            Some(x) => profiles[i].id != x,
            None => true,
        };
        if other && eq_ignore_ascii_case(profiles[i].name.as_str(), name) {
            return true;
        }
        i += 1;
    }
    false
}

/// Some enabled mapping of profile `profile_id` other than `except` listens
/// to `input`.
pub open spec fn input_conflict(
    s: Seq<InputBinding>,
    profile_id: u128,
    input: ControllerInput,
    except: Option<u128>,
) -> bool {
    exists|i: int|
        0 <= i < s.len() && (#[trigger] s[i]).profile_id == profile_id && s[i].enabled
            && domain::same_input(s[i].input, input) && (except is None || s[i].id != except->0)
}

fn has_input_conflict(
    bindings: &Vec<InputBinding>,
    profile_id: u128,
    input: &ControllerInput,
    except: Option<u128>,
) -> (r: bool)
    ensures
        r == input_conflict(bindings@, profile_id, *input, except),
{
    let mut i: usize = 0;
    while i < bindings.len()
        invariant
            i <= bindings@.len(),
            forall|k: int|
                0 <= k < i ==> !((#[trigger] bindings@[k]).profile_id == profile_id
                    && bindings@[k].enabled && domain::same_input(bindings@[k].input, *input) && (
                except is None || bindings@[k].id != except->0)),
        decreases bindings@.len() - i,
    {
        let b = &bindings[i];
        let other = match except {
            Some(x) => b.id != x,
            None => true,
        };
        if b.profile_id == profile_id && b.enabled && other && b.input.same_as(input) {
            return true;
        }
        i += 1;
    }
    false
}

/// A disabled mapping never conflicts; an enabled one may not share its
/// input with another enabled mapping of the same profile.
pub fn ensure_input_available(
    bindings: &Vec<InputBinding>,
    profile_id: u128,
    input: &ControllerInput,
    enabled: bool,
    excluding_id: Option<u128>,
) -> (r: Result<(), CommandError>)
    ensures
        enabled && input_conflict(bindings@, profile_id, *input, excluding_id) ==> (r matches Err(e)
            && e.is(Fault::InputAlreadyMapped)),
        !(enabled && input_conflict(bindings@, profile_id, *input, excluding_id)) ==> r is Ok,
{
    if !enabled {
        return Ok(());
    }
    if has_input_conflict(bindings, profile_id, input, excluding_id) {
        Err(Fault::InputAlreadyMapped.error())
    } else {
        Ok(())
    }
}

// ----- Profile references in actions -----

/// The action switches to profile `target`, directly or in a step.
pub open spec fn refers_to(a: ActionDefinition, target: u128) -> bool
    decreases a,
{
    match a {
        ActionDefinition::SwitchProfile { profile_id } => profile_id == target,
        ActionDefinition::MultiAction { steps, .. } => exists|i: int|
            0 <= i < steps@.len() && refers_to((#[trigger] steps@[i]).action, target),
        _ => false,
    }
}

/// Every profile the action switches to exists.
pub open spec fn references_exist(a: ActionDefinition, profiles: Seq<Profile>) -> bool
    decreases a,
{
    match a {
        ActionDefinition::SwitchProfile { profile_id } => has_profile(profiles, profile_id),
        ActionDefinition::MultiAction { steps, .. } => forall|i: int|
            0 <= i < steps@.len() ==> references_exist((#[trigger] steps@[i]).action, profiles),
        _ => true,
    }
}

pub fn action_references_profile(action: &ActionDefinition, target: u128) -> (r: bool)
    ensures
        r == refers_to(*action, target),
    decreases action,
{
    match action {
        ActionDefinition::SwitchProfile { profile_id } => *profile_id == target,
        ActionDefinition::MultiAction { steps, .. } => {
            let mut i: usize = 0;
            while i < steps.len()
                invariant
                    *action matches ActionDefinition::MultiAction { steps: s, .. } && s == *steps,
                    i <= steps@.len(),
                    forall|k: int| 0 <= k < i ==> !refers_to((#[trigger] steps@[k]).action, target),
                decreases steps@.len() - i,
            {
                proof {
                    assert(decreases_to!(*action => steps@[i as int].action));
                }
                if action_references_profile(&steps[i].action, target) {
                    assert(refers_to(*action, target));
                    return true;
                }
                i += 1;
            }
            assert(!refers_to(*action, target));
            false
        },
        _ => false,
    }
}

/// Refuses an action that switches to a profile that does not exist.
pub fn validate_switch_profile_references(action: &ActionDefinition, profiles: &Vec<Profile>) -> (r:
    Result<(), CommandError>)
    ensures
        references_exist(*action, profiles@) ==> r is Ok,
        !references_exist(*action, profiles@) ==> (r matches Err(e) && e.is(
            Fault::InvalidProfileReference,
        )),
    decreases action,
{
    match action {
        ActionDefinition::SwitchProfile { profile_id } => {
            if find_profile(profiles, *profile_id).is_some() {
                Ok(())
            } else {
                Err(Fault::InvalidProfileReference.error())
            }
        },
        ActionDefinition::MultiAction { steps, .. } => {
            let mut i: usize = 0;
            while i < steps.len()
                invariant
                    *action matches ActionDefinition::MultiAction { steps: s, .. } && s == *steps,
                    i <= steps@.len(),
                    forall|k: int|
                        0 <= k < i ==> references_exist((#[trigger] steps@[k]).action, profiles@),
                decreases steps@.len() - i,
            {
                proof {
                    assert(decreases_to!(*action => steps@[i as int].action));
                }
                let step = validate_switch_profile_references(&steps[i].action, profiles);
                if step.is_err() {
                    assert(!references_exist(*action, profiles@));
                    return step;
                }
                i += 1;
            }
            assert(references_exist(*action, profiles@));
            Ok(())
        },
        _ => Ok(()),
    }
}

// ----- Generated names -----

/// The characters of `source` that fit before `suffix` within 80 characters,
/// without trailing white space.
pub open spec fn name_prefix(source: Seq<char>, suffix: Seq<char>) -> Seq<char> {
    let limit = if suffix.len() >= 80 {
        0
    } else {
        80 - suffix.len()
    };
    let kept = source.take(if source.len() < limit {
        source.len() as int
    } else {
        limit as int
    });
    kept.take(text::end_without_space(kept, 0, kept.len() as int))
}

/// `source` shortened so that `source` followed by `suffix` has at most 80
/// characters; when nothing of `source` is left, the trimmed suffix alone
/// (at most 80 characters).
pub open spec fn suffixed_name(source: Seq<char>, suffix: Seq<char>) -> Seq<char> {
    let prefix = name_prefix(source, suffix);
    if prefix.len() == 0 {
        let t = text::trimmed(suffix);
        t.take(if t.len() < 80 {
            t.len() as int
        } else {
            80
        })
    } else {
        prefix + suffix
    }
}

pub fn name_with_suffix(source: &str, suffix: &str) -> (r: String)
    ensures
        r@ == suffixed_name(source@, suffix@),
        r@.len() <= 80,
{
    let suffix_chars = char_count(suffix);
    let source_limit: usize = if suffix_chars >= 80 {
        0
    } else {
        80 - suffix_chars
    };
    let chars = chars_of(source);
    let keep = if chars.len() < source_limit {
        chars.len()
    } else {
        source_limit
    };
    let ghost kept = source@.take(keep as int);
    let mut end = keep;
    while end > 0 && is_whitespace(chars[end - 1])
        invariant
            chars@ == source@,
            end <= keep <= chars@.len(),
            kept == source@.take(keep as int),
            text::end_without_space(kept, 0, keep as int) == text::end_without_space(
                kept,
                0,
                end as int,
            ),
        decreases end,
    {
        end -= 1;
    }
    assert(kept.take(end as int) =~= source@.subrange(0, end as int));
    if end == 0 {
        let t = trim(suffix);
        let n = char_count(t.as_str());
        let take = if n < 80 {
            n
        } else {
            80
        };
        let r = t.as_str().substring_char(0, take).to_owned();
        assert(r@ =~= text::trimmed(suffix@).take(take as int));
        r
    } else {
        let prefix = source.substring_char(0, end);
        let r = concat(prefix, suffix);
        r
    }
}

/// The candidate name for attempt `number`: `marker` alone first, then
/// `marker` followed by a space and the number.
pub open spec fn candidate_suffix(marker: Seq<char>, number: nat) -> Seq<char> {
    if number == 1 {
        marker
    } else {
        marker + " "@ + text::decimal(number)
    }
}

/// The first of the candidates `source` + `marker`, `source` + `marker 2`,
/// ... (up to `count + 2`, each shortened to fit) that no profile uses; when
/// all are taken, `source` with a space and `spare` appended.
pub open spec fn derived_name(
    source: Seq<char>,
    marker: Seq<char>,
    profiles: Seq<Profile>,
    spare: Seq<char>,
    number: nat,
) -> Seq<char>
    decreases profiles.len() + 3 - number,
{
    if number < 1 || number > profiles.len() + 2 {
        suffixed_name(source, " "@ + spare)
    } else {
        let candidate = suffixed_name(source, candidate_suffix(marker, number));
        if !name_taken(profiles, candidate, None) {
            candidate
        } else {
            derived_name(source, marker, profiles, spare, number + 1)
        }
    }
}

fn suffix_for(marker: &str, number: usize) -> (r: String)
    requires
        number >= 1,
    ensures
        r@ == candidate_suffix(marker@, number as nat),
{
    if number == 1 {
        marker.to_owned()
    } else {
        let mut r = marker.to_owned();
        r.append(" ");
        let digits = text::decimal_string(number as u64);
        r.append(digits.as_str());
        r
    }
}

/// A name derived from `source` that no profile uses (up to ASCII case);
/// `spare` stands in when every numbered candidate is taken.
pub fn available_derived_name(source: &str, marker: &str, profiles: &Vec<Profile>, spare: &str) -> (r:
    String)
    requires
        profiles@.len() + 3 <= usize::MAX,
    ensures
        r@ == derived_name(source@, marker@, profiles@, spare@, 1),
        r@.len() <= 80,
{
    let mut number: usize = 1;
    while number <= profiles.len() + 2
        invariant
            1 <= number <= profiles@.len() + 3,
            profiles@.len() + 3 <= usize::MAX,
            derived_name(source@, marker@, profiles@, spare@, 1) == derived_name(
                source@,
                marker@,
                profiles@,
                spare@,
                number as nat,
            ),
        decreases profiles@.len() + 3 - number,
    {
        let suffix = suffix_for(marker, number);
        let candidate = name_with_suffix(source, suffix.as_str());
        if !is_name_taken(profiles, candidate.as_str(), None) {
            return candidate;
        }
        number += 1;
    }
    let mut tail = " ".to_owned();
    tail.append(spare);
    name_with_suffix(source, tail.as_str())
}

/// The name of a copy of a profile named `source`: "`source` Copy",
/// "`source` Copy 2", ...
pub fn available_copy_name(source: &str, profiles: &Vec<Profile>, spare: &str) -> (r: String)
    requires
        profiles@.len() + 3 <= usize::MAX,
    ensures
        r@ == derived_name(source@, " Copy"@, profiles@, spare@, 1),
        r@.len() <= 80,
{
    available_derived_name(source, " Copy", profiles, spare)
}


// ----- Facts about profile references -----

/// An action's references all exist exactly when each profile it switches to
/// exists.
pub proof fn lemma_references_exist_iff(a: ActionDefinition, profiles: Seq<Profile>)
    ensures
        references_exist(a, profiles) <==> (forall|t: u128|
            #[trigger] refers_to(a, t) ==> has_profile(profiles, t)),
    decreases a,
{
    match a {
        ActionDefinition::MultiAction { steps, .. } => {
            assert forall|i: int| 0 <= i < steps@.len() implies (references_exist(
                (#[trigger] steps@[i]).action,
                profiles,
            ) <==> (forall|t: u128|
                #[trigger] refers_to(steps@[i].action, t) ==> has_profile(profiles, t))) by {
                assert(decreases_to!(a => steps@[i].action));
                lemma_references_exist_iff(steps@[i].action, profiles);
            }
            if references_exist(a, profiles) {
                assert forall|t: u128| #[trigger] refers_to(a, t) implies has_profile(profiles, t) by {
                    let i = choose|i: int| 0 <= i < steps@.len() && refers_to((#[trigger] steps@[i]).action, t);
                    assert(references_exist(steps@[i].action, profiles));
                }
            }
            if forall|t: u128| #[trigger] refers_to(a, t) ==> has_profile(profiles, t) {
                assert forall|i: int| 0 <= i < steps@.len() implies references_exist(
                    (#[trigger] steps@[i]).action,
                    profiles,
                ) by {
                    assert forall|t: u128| #[trigger] refers_to(steps@[i].action, t) implies has_profile(profiles, t) by {
                        assert(refers_to(a, t));
                    }
                }
            }
        },
        ActionDefinition::SwitchProfile { profile_id } => {
            assert(refers_to(a, profile_id));
        },
        _ => {},
    }
}

/// References that exist among `p` still exist among `q` when every profile
/// of `p` that the action switches to is in `q`.
pub proof fn lemma_references_transfer(a: ActionDefinition, p: Seq<Profile>, q: Seq<Profile>)
    requires
        references_exist(a, p),
        forall|t: u128| refers_to(a, t) && has_profile(p, t) ==> has_profile(q, t),
    ensures
        references_exist(a, q),
{
    lemma_references_exist_iff(a, p);
    lemma_references_exist_iff(a, q);
}

// ----- The stored state -----

/// The settings of a new installation, pointing at `profile_id`.
pub open spec fn initial_settings(profile_id: u128, launch_at_startup: bool) -> AppSettings {
    AppSettings {
        active_profile_id: profile_id,
        launch_at_startup,
        start_minimized: true,
        minimize_to_tray: true,
        close_to_tray: true,
        mappings_paused: false,
        check_for_updates: false,
        automatic_profile_switching: false,
        action_toasts: true,
        controller_feedback: false,
        reduced_motion: false,
        update_channel: UpdateChannel::Stable,
    }
}

/// The settings of a new installation. Release builds launch at startup;
/// development builds do not, so `launch_at_startup` says which this is.
pub fn default_settings(profile_id: u128, launch_at_startup: bool) -> (s: AppSettings)
    ensures
        s == initial_settings(profile_id, launch_at_startup),
{
    AppSettings {
        active_profile_id: profile_id,
        launch_at_startup,
        start_minimized: true,
        close_to_tray: true,
        mappings_paused: false,
        check_for_updates: false,
        automatic_profile_switching: false,
        minimize_to_tray: true,
        action_toasts: true,
        controller_feedback: false,
        reduced_motion: false,
        update_channel: UpdateChannel::Stable,
    }
}

/// Refuses a database written by a newer schema than this build knows.
pub fn check_schema_version(version: u32) -> (r: Result<(), CommandError>)
    ensures
        version <= DATABASE_SCHEMA_VERSION ==> r is Ok,
        version > DATABASE_SCHEMA_VERSION ==> (r matches Err(e) && e.is(
            Fault::UnsupportedDatabaseVersion(version),
        )),
{
    if version > DATABASE_SCHEMA_VERSION {
        Err(Fault::UnsupportedDatabaseVersion(version).error())
    } else {
        Ok(())
    }
}

/// Profiles, mappings and settings as stored.
#[derive(Clone)]
pub struct Database {
    /// In list order: by increasing sort order.
    pub profiles: Vec<Profile>,
    /// In creation order.
    pub bindings: Vec<InputBinding>,
    pub settings: AppSettings,
}

/// The largest sort order among the profiles from index `i` on (`i` must be
/// a valid index).
pub open spec fn max_sort_order_from(s: Seq<Profile>, i: int) -> int
    decreases s.len() - i,
{
    if i < 0 || i >= s.len() - 1 {
        s[i].sort_order as int
    } else {
        let rest = max_sort_order_from(s, i + 1);
        if s[i].sort_order > rest {
            s[i].sort_order as int
        } else {
            rest
        }
    }
}

/// Every sort order from position `i` on is at most the largest.
pub proof fn lemma_max_sort_order_bounds(s: Seq<Profile>, i: int, k: int)
    requires
        0 <= i <= k < s.len(),
    ensures
        s[k].sort_order <= max_sort_order_from(s, i),
    decreases s.len() - i,
{
    if i < s.len() - 1 && i < k {
        lemma_max_sort_order_bounds(s, i + 1, k);
    }
}

/// The sort order a new profile gets: one after the largest, or 0 when there
/// are no profiles.
pub open spec fn next_sort_order(s: Seq<Profile>) -> int {
    if s.len() == 0 {
        0
    } else {
        max_sort_order_from(s, 0) + 1
    }
}

/// The sort order of a new profile.
fn new_sort_order(profiles: &Vec<Profile>) -> (r: i64)
    requires
        forall|k: int| 0 <= k < profiles@.len() ==> (#[trigger] profiles@[k]).sort_order < i64::MAX,
    ensures
        r == next_sort_order(profiles@),
{
    let n = profiles.len();
    if n == 0 {
        return 0;
    }
    let mut best = profiles[n - 1].sort_order;
    let mut i = n - 1;
    while i > 0
        invariant
            0 <= i < n == profiles@.len(),
            best == max_sort_order_from(profiles@, i as int),
            forall|k: int| 0 <= k < profiles@.len() ==> (#[trigger] profiles@[k]).sort_order < i64::MAX,
            best < i64::MAX,
        decreases i,
    {
        i -= 1;
        if profiles[i].sort_order > best {
            best = profiles[i].sort_order;
        }
    }
    best + 1
}

/// Which profile a new draft would become, or why it is refused: the name
/// must be valid, the (cleaned) metadata valid, and the trimmed name unused.
pub open spec fn new_profile_check(profiles: Seq<Profile>, draft: ProfileDraft) -> Result<(), Fault> {
    profile_fields_check(
        profiles,
        draft.name@,
        domain::opt_view(draft.description),
        domain::opt_view(draft.automatic_app),
    )
}

/// The same check on the fields of the draft: `description` is checked as
/// cleaned.
pub open spec fn profile_fields_check(
    profiles: Seq<Profile>,
    name: Seq<char>,
    description: Option<Seq<char>>,
    automatic_app: Option<Seq<char>>,
) -> Result<(), Fault> {
    match validation::profile_name_check(name) {
        Err(f) => Err(f),
        Ok(name) => match validation::profile_metadata_check(
            validation::cleaned(description),
            automatic_app,
        ) {
            Err(f) => Err(f),
            Ok(_) => if name_taken(profiles, name, None) {
                Err(Fault::ProfileNameInUse)
            } else {
                Ok(())
            },
        },
    }
}

/// Why editing profile `id` with `draft` is refused, if it is: the name and
/// metadata rules, then the profile must exist and the name be unused by any
/// other profile.
pub open spec fn profile_update_check(profiles: Seq<Profile>, id: u128, draft: ProfileDraft) -> Result<
    (),
    Fault,
> {
    match validation::profile_name_check(draft.name@) {
        Err(f) => Err(f),
        Ok(name) => match validation::profile_metadata_check(
            validation::cleaned(domain::opt_view(draft.description)),
            domain::opt_view(draft.automatic_app),
        ) {
            Err(f) => Err(f),
            Ok(_) => if !has_profile(profiles, id) {
                Err(Fault::ProfileNotFound)
            } else if name_taken(profiles, name, Some(id)) {
                Err(Fault::ProfileNameInUse)
            } else {
                Ok(())
            },
        },
    }
}

/// Why a new mapping from `draft` is refused, if it is: its profile must
/// exist, the draft pass validation, its profile switches point at existing
/// profiles, and an enabled mapping not reuse an input of its profile.
pub open spec fn new_binding_check(
    profiles: Seq<Profile>,
    bindings: Seq<InputBinding>,
    draft: BindingDraft,
) -> Result<(), validation::Problem> {
    if !has_profile(profiles, draft.profile_id) {
        Err(validation::Problem::Rule(Fault::ProfileNotFound))
    } else {
        match validation::binding_check(draft, validation::MAX_ACTION_NODES) {
            Err(p) => Err(p),
            Ok(_) => if !references_exist(draft.action, profiles) {
                Err(validation::Problem::Rule(Fault::InvalidProfileReference))
            } else if draft.enabled && input_conflict(bindings, draft.profile_id, draft.input, None) {
                Err(validation::Problem::Rule(Fault::InputAlreadyMapped))
            } else {
                Ok(())
            },
        }
    }
}

/// Why replacing mapping `id` by `draft` is refused, if it is: validation
/// first, then the mapping and its (new) profile must exist, switches point
/// at existing profiles, and an enabled mapping not reuse an input of its
/// profile held by another mapping.
pub open spec fn binding_update_check(
    profiles: Seq<Profile>,
    bindings: Seq<InputBinding>,
    id: u128,
    draft: BindingDraft,
) -> Result<(), validation::Problem> {
    match validation::binding_check(draft, validation::MAX_ACTION_NODES) {
        Err(p) => Err(p),
        Ok(_) => if !has_binding(bindings, id) {
            Err(validation::Problem::Rule(Fault::BindingNotFound))
        } else if !has_profile(profiles, draft.profile_id) {
            Err(validation::Problem::Rule(Fault::ProfileNotFound))
        } else if !references_exist(draft.action, profiles) {
            Err(validation::Problem::Rule(Fault::InvalidProfileReference))
        } else if draft.enabled && input_conflict(bindings, draft.profile_id, draft.input, Some(id)) {
            Err(validation::Problem::Rule(Fault::InputAlreadyMapped))
        } else {
            Ok(())
        }
    }
}

/// `b` is the mapping stored for `draft` with identifier `id`, created at
/// `created_at` and last changed at `now`.
pub open spec fn stored_from(b: InputBinding, draft: BindingDraft, id: u128, created_at: Timestamp, now: Timestamp) -> bool {
    &&& b.id == id
    &&& b.profile_id == draft.profile_id
    &&& b.input == draft.input
    &&& b.trigger == draft.trigger
    &&& b.action == draft.action
    &&& b.label@ == text::trimmed(draft.label@)
    &&& b.enabled == draft.enabled
    &&& b.created_at == created_at
    &&& b.updated_at == now
}

impl Database {
    /// The consistency rules the stored rows keep: unique profile and
    /// mapping identifiers, profiles listed by strictly increasing sort
    /// order, profile names unique up to ASCII case, mappings and profile
    /// switches that refer to existing profiles, at most one enabled
    /// mapping per input of a profile, and an active profile that exists.
    pub open spec fn wf(&self) -> bool {
        let p = self.profiles@;
        let b = self.bindings@;
        &&& forall|i: int, j: int|
            #![trigger p[i], p[j]]
            0 <= i < j < p.len() ==> p[i].id != p[j].id
        &&& forall|i: int, j: int|
            #![trigger p[i], p[j]]
            0 <= i < j < p.len() ==> p[i].sort_order < p[j].sort_order
        &&& forall|i: int, j: int|
            #![trigger p[i], p[j]]
            0 <= i < j < p.len() ==> !text::eq_ascii_case(p[i].name@, p[j].name@)
        &&& forall|i: int, j: int|
            #![trigger b[i], b[j]]
            0 <= i < j < b.len() ==> b[i].id != b[j].id
        &&& forall|i: int| 0 <= i < b.len() ==> has_profile(p, (#[trigger] b[i]).profile_id)
        &&& forall|i: int, j: int|
            #![trigger b[i], b[j]]
            0 <= i < j < b.len() && b[i].enabled && b[j].enabled && b[i].profile_id
                == b[j].profile_id ==> !domain::same_input(b[i].input, b[j].input)
        &&& forall|i: int| 0 <= i < b.len() ==> references_exist((#[trigger] b[i]).action, p)
        &&& has_profile(p, self.settings.active_profile_id)
    }

    /// The stored rows unchanged.
    pub open spec fn same_rows(&self, other: &Database) -> bool {
        &&& self.profiles@ == other.profiles@
        &&& self.bindings@ == other.bindings@
        &&& self.settings == other.settings
    }

    /// The rows as loaded, completed as a first start needs: a profile named
    /// "Default" when there is none, and default settings pointing at the
    /// first profile when there are none.
    pub fn ensure_initial_state(
        profiles: Vec<Profile>,
        bindings: Vec<InputBinding>,
        settings: Option<AppSettings>,
        new_profile_id: u128,
        now: Timestamp,
        launch_at_startup: bool,
    ) -> (db: Database)
        ensures
            profiles@.len() > 0 ==> db.profiles@ == profiles@,
            profiles@.len() == 0 ==> db.profiles@.len() == 1 && db.profiles@[0].id == new_profile_id
                && db.profiles@[0].name@ == "Default"@ && db.profiles@[0].description is None
                && db.profiles@[0].automatic_app is None && db.profiles@[0].sort_order == 0
                && db.profiles@[0].created_at == now && db.profiles@[0].updated_at == now,
            db.bindings@ == bindings@,
            settings is Some ==> db.settings == settings->0,
            settings is None ==> db.settings == initial_settings(
                db.profiles@[0].id,
                launch_at_startup,
            ),
            profiles@.len() == 0 && bindings@.len() == 0 && settings is None ==> db.wf(),
    {
        let mut profiles = profiles;
        if profiles.len() == 0 {
            profiles.push(
                Profile {
                    id: new_profile_id,
                    name: "Default".to_owned(),
                    description: None,
                    automatic_app: None,
                    sort_order: 0,
                    created_at: now,
                    updated_at: now,
                },
            );
        }
        let settings = match settings {
            Some(s) => s,
            None => default_settings(profiles[0].id, launch_at_startup),
        };
        let db = Database { profiles, bindings, settings };
        proof {
            if db.profiles@.len() == 1 && db.bindings@.len() == 0 && db.settings == initial_settings(db.profiles@[0].id, launch_at_startup) {
                assert(has_profile(db.profiles@, db.profiles@[0].id));
            }
        }
        db
    }

    /// A fresh database holding only the "Default" profile and the default
    /// settings.
    pub fn open_in_memory(default_profile_id: u128, now: Timestamp, launch_at_startup: bool) -> (db: Database)
        ensures
            db.wf(),
            db.profiles@.len() == 1,
            db.profiles@[0].id == default_profile_id,
            db.profiles@[0].name@ == "Default"@,
            db.profiles@[0].description is None,
            db.profiles@[0].automatic_app is None,
            db.profiles@[0].sort_order == 0,
            db.profiles@[0].created_at == now,
            db.profiles@[0].updated_at == now,
            db.bindings@.len() == 0,
            db.settings == initial_settings(default_profile_id, launch_at_startup),
    {
        Database::ensure_initial_state(Vec::new(), Vec::new(), None, default_profile_id, now, launch_at_startup)
    }

    /// The current settings.
    pub fn settings(&self) -> (s: AppSettings)
        ensures
            s == self.settings,
    {
        self.settings
    }

    /// Copies of the profiles, in list order.
    pub fn list_profiles(&self) -> (r: Vec<Profile>)
        ensures
            r@ == self.profiles@,
    {
        let mut r: Vec<Profile> = Vec::new();
        let mut i: usize = 0;
        while i < self.profiles.len()
            invariant
                i <= self.profiles@.len(),
                r@ == self.profiles@.take(i as int),
            decreases self.profiles@.len() - i,
        {
            r.push(self.profiles[i].duplicate());
            i += 1;
            assert(r@ =~= self.profiles@.take(i as int));
        }
        assert(r@ =~= self.profiles@);
        r
    }

    /// A copy of the profile with identifier `id`.
    pub fn profile(&self, id: u128) -> (r: Result<Profile, CommandError>)
        ensures
            match r {
                Ok(p) => exists|i: int| first_profile(self.profiles@, id, i) && p == self.profiles@[i],
                Err(e) => !has_profile(self.profiles@, id) && e.is(Fault::ProfileNotFound),
            },
    {
        match find_profile(&self.profiles, id) {
            Some(i) => Ok(self.profiles[i].duplicate()),
            None => Err(Fault::ProfileNotFound.error()),
        }
    }
}


/// The elements a filter keeps come from increasing positions of the
/// filtered sequence.
pub proof fn lemma_filter_positions<A>(s: Seq<A>, pred: spec_fn(A) -> bool) -> (f: spec_fn(int) -> int)
    ensures
        forall|k: int|
            0 <= k < s.filter(pred).len() ==> 0 <= #[trigger] f(k) < s.len() && s.filter(pred)[k]
                == s[f(k)],
        forall|k1: int, k2: int|
            0 <= k1 < k2 < s.filter(pred).len() ==> #[trigger] f(k1) < #[trigger] f(k2),
    decreases s.len(),
{
    reveal(Seq::filter);
    if s.len() == 0 {
        |k: int| 0int
    } else {
        let g = lemma_filter_positions(s.drop_last(), pred);
        let sub = s.drop_last().filter(pred);
        if pred(s.last()) {
            let f = |k: int| if k < sub.len() {
                g(k)
            } else {
                s.len() - 1
            };
            assert(s.filter(pred) == sub.push(s.last()));
            f
        } else {
            g
        }
    }
}

/// Every element the filter keeps satisfies the predicate.
pub proof fn lemma_filter_kept<A>(s: Seq<A>, pred: spec_fn(A) -> bool)
    ensures
        forall|k: int| 0 <= k < s.filter(pred).len() ==> pred(#[trigger] s.filter(pred)[k]),
{
    broadcast use vstd::seq_lib::group_filter_ensures;
}

/// Removes, in place and keeping the order, the mappings that belong to
/// profile `key` (when `by_profile`) or that have the identifier `key`.
fn retain_bindings(v: &mut Vec<InputBinding>, by_profile: bool, key: u128)
    ensures
        by_profile ==> final(v)@ == old(v)@.filter(|b: InputBinding| b.profile_id != key),
        !by_profile ==> final(v)@ == old(v)@.filter(|b: InputBinding| b.id != key),
{
    let ghost original = v@;
    let ghost keep = if by_profile {
        |b: InputBinding| b.profile_id != key
    } else {
        |b: InputBinding| b.id != key
    };
    let n = v.len();
    let mut i: usize = 0;
    let mut j: usize = 0;
    while j < n
        invariant
            original == old(v)@,
            n == original.len(),
            keep == (if by_profile {
                |b: InputBinding| b.profile_id != key
            } else {
                |b: InputBinding| b.id != key
            }),
            i <= j <= original.len(),
            v@.len() == i + (original.len() - j),
            v@.take(i as int) == original.take(j as int).filter(keep),
            v@.skip(i as int) == original.skip(j as int),
        decreases n - j,
    {
        assert(v@[i as int] == original[j as int]) by {
            assert(v@.skip(i as int)[0] == original.skip(j as int)[0]);
        }
        let remove = if by_profile {
            v[i].profile_id == key
        } else {
            v[i].id == key
        };
        proof {
            assert(original.take(j + 1) =~= original.take(j as int).push(original[j as int]));
            original.take(j as int).lemma_filter_push(original[j as int], keep);
        }
        let ghost before = v@;
        let ghost i0 = i;
        let ghost j0 = j;
        if remove {
            v.remove(i);
            proof {
                assert(v@.take(i as int) =~= old(v)@.take(0) + v@.take(i as int));
            }
        } else {
            i += 1;
        }
        j += 1;
        proof {
            assert(v@.take(i as int) =~= original.take(j as int).filter(keep)) by {
                if !remove {
                    assert(v@.take(i as int) =~= v@.take(i - 1).push(original[j - 1]));
                }
            }
            assert forall|k: int| 0 <= k < v@.skip(i as int).len() implies v@.skip(i as int)[k]
                == original.skip(j as int)[k] by {
                assert(before.skip(i0 as int)[k + 1] == original.skip(j0 as int)[k + 1]);
            }
            assert(v@.skip(i as int) =~= original.skip(j as int));
        }
    }
    assert(v@ =~= v@.take(i as int));
    assert(original.take(original.len() as int) =~= original);
}

/// Removes, in place and keeping the order, the profiles with identifier
/// `key`.
fn retain_profiles(v: &mut Vec<Profile>, key: u128)
    ensures
        final(v)@ == old(v)@.filter(|p: Profile| p.id != key),
{
    let ghost original = v@;
    let ghost keep = |p: Profile| p.id != key;
    let n = v.len();
    let mut i: usize = 0;
    let mut j: usize = 0;
    while j < n
        invariant
            original == old(v)@,
            n == original.len(),
            keep == (|p: Profile| p.id != key),
            i <= j <= original.len(),
            v@.len() == i + (original.len() - j),
            v@.take(i as int) == original.take(j as int).filter(keep),
            v@.skip(i as int) == original.skip(j as int),
        decreases n - j,
    {
        assert(v@[i as int] == original[j as int]) by {
            assert(v@.skip(i as int)[0] == original.skip(j as int)[0]);
        }
        let remove = v[i].id == key;
        proof {
            assert(original.take(j + 1) =~= original.take(j as int).push(original[j as int]));
            original.take(j as int).lemma_filter_push(original[j as int], keep);
        }
        let ghost before = v@;
        let ghost i0 = i;
        let ghost j0 = j;
        if remove {
            v.remove(i);
            proof {
                assert(v@.take(i as int) =~= old(v)@.take(0) + v@.take(i as int));
            }
        } else {
            i += 1;
        }
        j += 1;
        proof {
            assert(v@.take(i as int) =~= original.take(j as int).filter(keep)) by {
                if !remove {
                    assert(v@.take(i as int) =~= v@.take(i - 1).push(original[j - 1]));
                }
            }
            assert forall|k: int| 0 <= k < v@.skip(i as int).len() implies v@.skip(i as int)[k]
                == original.skip(j as int)[k] by {
                assert(before.skip(i0 as int)[k + 1] == original.skip(j0 as int)[k + 1]);
            }
            assert(v@.skip(i as int) =~= original.skip(j as int));
        }
    }
    assert(v@ =~= v@.take(i as int));
    assert(original.take(original.len() as int) =~= original);
}


impl Database {
    /// Adds a profile made from `draft` with identifier `id`, created `now`,
    /// after the existing ones in sort order.
    pub fn create_profile(&mut self, draft: ProfileDraft, id: u128, now: Timestamp) -> (r: Result<
        Profile,
        CommandError,
    >)
        requires
            !has_profile(old(self).profiles@, id),
            forall|k: int|
                0 <= k < old(self).profiles@.len() ==> (#[trigger] old(self).profiles@[k]).sort_order
                    < i64::MAX,
        ensures
            match new_profile_check(old(self).profiles@, draft) {
                Err(f) => r matches Err(e) && e.is(f) && final(self).same_rows(old(self)),
                Ok(_) => r matches Ok(p) && {
                    &&& p.id == id
                    &&& p.name@ == text::trimmed(draft.name@)
                    &&& domain::opt_view(p.description) == validation::cleaned(
                        domain::opt_view(draft.description),
                    )
                    &&& p.automatic_app == draft.automatic_app
                    &&& p.sort_order == next_sort_order(old(self).profiles@)
                    &&& p.created_at == now
                    &&& p.updated_at == now
                    &&& final(self).profiles@ == old(self).profiles@.push(p)
                    &&& final(self).bindings@ == old(self).bindings@
                    &&& final(self).settings == old(self).settings
                },
            },
            old(self).wf() ==> final(self).wf(),
    {
        let name = validate_profile_name(draft.name.as_str())?;
        let description = clean_optional(draft.description);
        let automatic_app = draft.automatic_app;
        validate_profile_metadata(&description, &automatic_app)?;
        if is_name_taken(&self.profiles, name.as_str(), None) {
            return Err(Fault::ProfileNameInUse.error());
        }
        let sort_order = new_sort_order(&self.profiles);
        let profile = Profile {
            id,
            name,
            description,
            automatic_app,
            sort_order,
            created_at: now,
            updated_at: now,
        };
        let result = profile.duplicate();
        let ghost before = self.profiles@;
        self.profiles.push(profile);
        proof {
            let p = self.profiles@;
            assert(p == before.push(result));
            if old(self).wf() {
                assert forall|i: int| 0 <= i < self.bindings@.len() implies has_profile(
                    p,
                    (#[trigger] self.bindings@[i]).profile_id,
                ) by {
                    let k = choose|k: int| 0 <= k < before.len() && (#[trigger] before[k]).id == self.bindings@[i].profile_id;
                    assert(p[k] == before[k]);
                }
                assert forall|i: int| 0 <= i < self.bindings@.len() implies references_exist(
                    (#[trigger] self.bindings@[i]).action,
                    p,
                ) by {
                    assert forall|t: u128| refers_to(self.bindings@[i].action, t) && has_profile(before, t) implies has_profile(p, t) by {
                        let k = choose|k: int| 0 <= k < before.len() && (#[trigger] before[k]).id == t;
                        assert(p[k] == before[k]);
                    }
                    lemma_references_transfer(self.bindings@[i].action, before, p);
                }
                let k = choose|k: int| 0 <= k < before.len() && (#[trigger] before[k]).id == self.settings.active_profile_id;
                assert(p[k] == before[k]);
                assert forall|i: int, j: int| 0 <= i < j < p.len() implies #[trigger] p[i].id != #[trigger] p[j].id by {
                    if j == before.len() {
                        assert(before[i].id != id);
                    }
                }
                assert forall|i: int, j: int| 0 <= i < j < p.len() implies #[trigger] p[i].sort_order < #[trigger] p[j].sort_order by {
                    if j == before.len() {
                        lemma_max_sort_order_bounds(before, 0, i);
                    } else {
                        assert(before[i].sort_order < before[j].sort_order);
                    }
                }
                assert forall|i: int, j: int| 0 <= i < j < p.len() implies !text::eq_ascii_case(#[trigger] p[i].name@, #[trigger] p[j].name@) by {
                    if j == before.len() {
                        assert(!(text::eq_ascii_case(before[i].name@, result.name@)));
                    }
                }
            }
        }
        Ok(result)
    }
}


/// A filtered list of mappings keeps the rules that hold pairwise and per
/// mapping.
pub proof fn lemma_filtered_bindings_wf(db: Database, pred: spec_fn(InputBinding) -> bool)
    requires
        db.wf(),
    ensures
        ({
            let b = db.bindings@.filter(pred);
            &&& forall|i: int, j: int|
                #![trigger b[i], b[j]]
                0 <= i < j < b.len() ==> b[i].id != b[j].id
            &&& forall|i: int, j: int|
                #![trigger b[i], b[j]]
                0 <= i < j < b.len() && b[i].enabled && b[j].enabled && b[i].profile_id
                    == b[j].profile_id ==> !domain::same_input(b[i].input, b[j].input)
            &&& forall|i: int| 0 <= i < b.len() ==> db.bindings@.contains(#[trigger] b[i])
        }),
{
    let s = db.bindings@;
    let b = s.filter(pred);
    let f = lemma_filter_positions(s, pred);
    assert forall|i: int, j: int| #![trigger b[i], b[j]] 0 <= i < j < b.len() implies b[i].id != b[j].id by {
        assert(f(i) < f(j));
        assert(s[f(i)] == b[i] && s[f(j)] == b[j]);
    }
    assert forall|i: int, j: int|
        #![trigger b[i], b[j]]
        0 <= i < j < b.len() && b[i].enabled && b[j].enabled && b[i].profile_id == b[j].profile_id
        implies !domain::same_input(b[i].input, b[j].input) by {
        assert(f(i) < f(j));
        assert(s[f(i)] == b[i] && s[f(j)] == b[j]);
    }
    assert forall|i: int| 0 <= i < b.len() implies db.bindings@.contains(#[trigger] b[i]) by {
        let k = f(i);
        assert(0 <= k < s.len());
        assert(s[k] == b[i]);
        assert(db.bindings@[k] == b[i]);
    }
}

impl Database {
    /// Edits profile `id` with `draft` at time `now`; its identifier, sort
    /// order and creation time are kept.
    pub fn update_profile(&mut self, id: u128, draft: ProfileDraft, now: Timestamp) -> (r: Result<
        Profile,
        CommandError,
    >)
        ensures
            match profile_update_check(old(self).profiles@, id, draft) {
                Err(f) => r matches Err(e) && e.is(f) && final(self).same_rows(old(self)),
                Ok(_) => r matches Ok(p) && exists|i: int|
                    first_profile(old(self).profiles@, id, i) && {
                        let current = old(self).profiles@[i];
                        &&& p.id == id
                        &&& p.name@ == text::trimmed(draft.name@)
                        &&& domain::opt_view(p.description) == validation::cleaned(
                            domain::opt_view(draft.description),
                        )
                        &&& p.automatic_app == draft.automatic_app
                        &&& p.sort_order == current.sort_order
                        &&& p.created_at == current.created_at
                        &&& p.updated_at == now
                        &&& final(self).profiles@ == old(self).profiles@.update(i, p)
                        &&& final(self).bindings@ == old(self).bindings@
                        &&& final(self).settings == old(self).settings
                    },
            },
            old(self).wf() ==> final(self).wf(),
    {
        let name = validate_profile_name(draft.name.as_str())?;
        let description = clean_optional(draft.description);
        let automatic_app = draft.automatic_app;
        validate_profile_metadata(&description, &automatic_app)?;
        let index = match find_profile(&self.profiles, id) {
            Some(i) => i,
            None => {
                return Err(Fault::ProfileNotFound.error());
            },
        };
        if is_name_taken(&self.profiles, name.as_str(), Some(id)) {
            return Err(Fault::ProfileNameInUse.error());
        }
        let current = &self.profiles[index];
        let profile = Profile {
            id,
            name,
            description,
            automatic_app,
            sort_order: current.sort_order,
            created_at: current.created_at,
            updated_at: now,
        };
        let result = profile.duplicate();
        let ghost before = self.profiles@;
        self.profiles.set(index, profile);
        proof {
            let p = self.profiles@;
            assert(p == before.update(index as int, result));
            if old(self).wf() {
                assert forall|t: u128| has_profile(before, t) implies has_profile(p, t) by {
                    let k = choose|k: int| 0 <= k < before.len() && (#[trigger] before[k]).id == t;
                    assert(p[k].id == before[k].id);
                }
                assert forall|i: int| 0 <= i < self.bindings@.len() implies has_profile(
                    p,
                    (#[trigger] self.bindings@[i]).profile_id,
                ) by {
                    assert(has_profile(before, self.bindings@[i].profile_id));
                }
                assert forall|i: int| 0 <= i < self.bindings@.len() implies references_exist(
                    (#[trigger] self.bindings@[i]).action,
                    p,
                ) by {
                    lemma_references_transfer(self.bindings@[i].action, before, p);
                }
                assert(has_profile(before, self.settings.active_profile_id));
                assert forall|i: int, j: int| 0 <= i < j < p.len() implies #[trigger] p[i].id != #[trigger] p[j].id by {
                    assert(before[i].id != before[j].id);
                }
                assert forall|i: int, j: int| 0 <= i < j < p.len() implies #[trigger] p[i].sort_order < #[trigger] p[j].sort_order by {
                    assert(before[i].sort_order < before[j].sort_order);
                }
                assert forall|i: int, j: int| 0 <= i < j < p.len() implies !text::eq_ascii_case(#[trigger] p[i].name@, #[trigger] p[j].name@) by {
                    if i == index {
                        assert(before[j].id != id);
                        assert(!text::eq_ascii_case(before[j].name@, result.name@));
                    } else if j == index {
                        assert(before[i].id != id);
                        assert(!text::eq_ascii_case(before[i].name@, result.name@));
                    } else {
                        assert(!text::eq_ascii_case(before[i].name@, before[j].name@));
                    }
                }
            }
        }
        Ok(result)
    }

    /// Makes profile `id` the active one.
    pub fn set_active_profile(&mut self, id: u128) -> (r: Result<AppSettings, CommandError>)
        ensures
            !has_profile(old(self).profiles@, id) ==> (r matches Err(e) && e.is(Fault::ProfileNotFound)
                && final(self).same_rows(old(self))),
            has_profile(old(self).profiles@, id) ==> (r matches Ok(s) && s == (AppSettings {
                active_profile_id: id,
                ..old(self).settings
            }) && final(self).settings == s && final(self).profiles@ == old(self).profiles@
                && final(self).bindings@ == old(self).bindings@),
            old(self).wf() ==> final(self).wf(),
    {
        if find_profile(&self.profiles, id).is_none() {
            return Err(Fault::ProfileNotFound.error());
        }
        self.settings.active_profile_id = id;
        Ok(self.settings)
    }

    /// Pauses or resumes all mappings.
    pub fn set_mappings_paused(&mut self, paused: bool) -> (s: AppSettings)
        ensures
            s == (AppSettings { mappings_paused: paused, ..old(self).settings }),
            final(self).settings == s,
            final(self).profiles@ == old(self).profiles@,
            final(self).bindings@ == old(self).bindings@,
            old(self).wf() ==> final(self).wf(),
    {
        self.settings.mappings_paused = paused;
        self.settings
    }

    /// Flips whether mappings are paused.
    pub fn toggle_mappings_paused(&mut self) -> (s: AppSettings)
        ensures
            s == (AppSettings {
                mappings_paused: !old(self).settings.mappings_paused,
                ..old(self).settings
            }),
            final(self).settings == s,
            final(self).profiles@ == old(self).profiles@,
            final(self).bindings@ == old(self).bindings@,
            old(self).wf() ==> final(self).wf(),
    {
        self.settings.mappings_paused = !self.settings.mappings_paused;
        self.settings
    }

    /// Takes the user's preferences from `requested`; the active profile and
    /// the pause state are left as they are, since other parts of the
    /// application change them.
    pub fn update_settings(&mut self, requested: AppSettings) -> (s: AppSettings)
        ensures
            s == (AppSettings {
                active_profile_id: old(self).settings.active_profile_id,
                mappings_paused: old(self).settings.mappings_paused,
                ..requested
            }),
            final(self).settings == s,
            final(self).profiles@ == old(self).profiles@,
            final(self).bindings@ == old(self).bindings@,
            old(self).wf() ==> final(self).wf(),
    {
        self.settings.launch_at_startup = requested.launch_at_startup;
        self.settings.start_minimized = requested.start_minimized;
        self.settings.minimize_to_tray = requested.minimize_to_tray;
        self.settings.close_to_tray = requested.close_to_tray;
        self.settings.check_for_updates = requested.check_for_updates;
        self.settings.automatic_profile_switching = requested.automatic_profile_switching;
        self.settings.action_toasts = requested.action_toasts;
        self.settings.controller_feedback = requested.controller_feedback;
        self.settings.reduced_motion = requested.reduced_motion;
        self.settings.update_channel = requested.update_channel;
        self.settings
    }

    /// A copy of the mapping with identifier `id`.
    pub fn binding(&self, id: u128) -> (r: Result<InputBinding, CommandError>)
        ensures
            match r {
                Ok(b) => exists|i: int|
                    first_binding(self.bindings@, id, i) && domain::same_binding(self.bindings@[i], b),
                Err(e) => !has_binding(self.bindings@, id) && e.is(Fault::BindingNotFound),
            },
    {
        match find_binding(&self.bindings, id) {
            Some(i) => Ok(self.bindings[i].duplicate()),
            None => Err(Fault::BindingNotFound.error()),
        }
    }

    /// Copies of the mappings of profile `profile_id`, in creation order.
    pub fn list_bindings(&self, profile_id: u128) -> (r: Vec<InputBinding>)
        ensures
            domain::same_bindings(
                self.bindings@.filter(|b: InputBinding| b.profile_id == profile_id),
                r@,
            ),
    {
        let ghost keep = |b: InputBinding| b.profile_id == profile_id;
        let mut r: Vec<InputBinding> = Vec::new();
        let mut i: usize = 0;
        while i < self.bindings.len()
            invariant
                keep == (|b: InputBinding| b.profile_id == profile_id),
                i <= self.bindings@.len(),
                domain::same_bindings(self.bindings@.take(i as int).filter(keep), r@),
            decreases self.bindings@.len() - i,
        {
            proof {
                assert(self.bindings@.take(i + 1) =~= self.bindings@.take(i as int).push(self.bindings@[i as int]));
                self.bindings@.take(i as int).lemma_filter_push(self.bindings@[i as int], keep);
            }
            if self.bindings[i].profile_id == profile_id {
                r.push(self.bindings[i].duplicate());
            }
            i += 1;
        }
        assert(self.bindings@.take(i as int) =~= self.bindings@);
        r
    }
}


impl Database {
    /// Stores a new mapping made from `draft` with identifier `id`, created
    /// `now`.
    pub fn create_binding(&mut self, draft: BindingDraft, id: u128, now: Timestamp) -> (r: Result<
        InputBinding,
        CommandError,
    >)
        requires
            !has_binding(old(self).bindings@, id),
        ensures
            match new_binding_check(old(self).profiles@, old(self).bindings@, draft) {
                Err(p) => r matches Err(e) && e.reports(p) && final(self).same_rows(old(self)),
                Ok(_) => r matches Ok(out) && {
                    let b = final(self).bindings@.last();
                    &&& final(self).bindings@ == old(self).bindings@.push(b)
                    &&& stored_from(b, draft, id, now, now)
                    &&& domain::same_binding(b, out)
                    &&& final(self).profiles@ == old(self).profiles@
                    &&& final(self).settings == old(self).settings
                },
            },
            old(self).wf() ==> final(self).wf(),
    {
        if find_profile(&self.profiles, draft.profile_id).is_none() {
            return Err(Fault::ProfileNotFound.error());
        }
        validate_binding(&draft)?;
        validate_switch_profile_references(&draft.action, &self.profiles)?;
        ensure_input_available(&self.bindings, draft.profile_id, &draft.input, draft.enabled, None)?;
        let label = trim(draft.label.as_str());
        let binding = InputBinding {
            id,
            profile_id: draft.profile_id,
            input: draft.input,
            trigger: draft.trigger,
            action: draft.action,
            label,
            enabled: draft.enabled,
            created_at: now,
            updated_at: now,
        };
        let out = binding.duplicate();
        let ghost before = self.bindings@;
        self.bindings.push(binding);
        proof {
            let b = self.bindings@;
            assert(b.last() == b[before.len() as int]);
            if old(self).wf() {
                assert forall|i: int, j: int| 0 <= i < j < b.len() implies #[trigger] b[i].id != #[trigger] b[j].id by {
                    if j == before.len() {
                        assert(before[i].id != id);
                    } else {
                        assert(before[i].id != before[j].id);
                    }
                }
                assert forall|i: int, j: int|
                    0 <= i < j < b.len() && (#[trigger] b[i]).enabled && (#[trigger] b[j]).enabled
                        && b[i].profile_id == b[j].profile_id implies !domain::same_input(b[i].input, b[j].input) by {
                    if j == before.len() {
                        assert(!(before[i].profile_id == draft.profile_id && before[i].enabled
                            && domain::same_input(before[i].input, draft.input)));
                    } else {
                        assert(!domain::same_input(before[i].input, before[j].input));
                    }
                }
                assert forall|i: int| 0 <= i < b.len() implies has_profile(self.profiles@, (#[trigger] b[i]).profile_id) by {
                    if i < before.len() {
                        assert(before[i] == b[i]);
                    }
                }
                assert forall|i: int| 0 <= i < b.len() implies references_exist((#[trigger] b[i]).action, self.profiles@) by {
                    if i < before.len() {
                        assert(before[i] == b[i]);
                    }
                }
            }
        }
        Ok(out)
    }

    /// Replaces mapping `id` with `draft` at time `now`, keeping its
    /// identifier and creation time.
    pub fn update_binding(&mut self, id: u128, draft: BindingDraft, now: Timestamp) -> (r: Result<
        InputBinding,
        CommandError,
    >)
        ensures
            match binding_update_check(old(self).profiles@, old(self).bindings@, id, draft) {
                Err(p) => r matches Err(e) && e.reports(p) && final(self).same_rows(old(self)),
                Ok(_) => r matches Ok(out) && exists|i: int|
                    first_binding(old(self).bindings@, id, i) && {
                        let b = final(self).bindings@[i];
                        &&& final(self).bindings@ == old(self).bindings@.update(i, b)
                        &&& stored_from(b, draft, id, old(self).bindings@[i].created_at, now)
                        &&& domain::same_binding(b, out)
                        &&& final(self).profiles@ == old(self).profiles@
                        &&& final(self).settings == old(self).settings
                    },
            },
            old(self).wf() ==> final(self).wf(),
    {
        validate_binding(&draft)?;
        let label = trim(draft.label.as_str());
        let index = match find_binding(&self.bindings, id) {
            Some(i) => i,
            None => {
                return Err(Fault::BindingNotFound.error());
            },
        };
        if find_profile(&self.profiles, draft.profile_id).is_none() {
            return Err(Fault::ProfileNotFound.error());
        }
        validate_switch_profile_references(&draft.action, &self.profiles)?;
        ensure_input_available(
            &self.bindings,
            draft.profile_id,
            &draft.input,
            draft.enabled,
            Some(id),
        )?;
        let created_at = self.bindings[index].created_at;
        let binding = InputBinding {
            id,
            profile_id: draft.profile_id,
            input: draft.input,
            trigger: draft.trigger,
            action: draft.action,
            label,
            enabled: draft.enabled,
            created_at,
            updated_at: now,
        };
        let out = binding.duplicate();
        let ghost before = self.bindings@;
        self.bindings.set(index, binding);
        proof {
            let b = self.bindings@;
            let k = index as int;
            assert(b == before.update(k, b[k]));
            if old(self).wf() {
                assert forall|i: int, j: int| 0 <= i < j < b.len() implies #[trigger] b[i].id != #[trigger] b[j].id by {
                    assert(before[i].id != before[j].id);
                }
                assert forall|i: int, j: int|
                    0 <= i < j < b.len() && (#[trigger] b[i]).enabled && (#[trigger] b[j]).enabled
                        && b[i].profile_id == b[j].profile_id implies !domain::same_input(b[i].input, b[j].input) by {
                    if j == k {
                        assert(before[i].id != id);
                        assert(!(before[i].profile_id == draft.profile_id && before[i].enabled
                            && domain::same_input(before[i].input, draft.input) && before[i].id != id));
                    } else if i == k {
                        assert(before[j].id != id);
                        assert(!(before[j].profile_id == draft.profile_id && before[j].enabled
                            && domain::same_input(before[j].input, draft.input) && before[j].id != id));
                    } else {
                        assert(!domain::same_input(before[i].input, before[j].input));
                    }
                }
                assert forall|i: int| 0 <= i < b.len() implies has_profile(self.profiles@, (#[trigger] b[i]).profile_id) by {
                    if i != k {
                        assert(before[i] == b[i]);
                    }
                }
                assert forall|i: int| 0 <= i < b.len() implies references_exist((#[trigger] b[i]).action, self.profiles@) by {
                    if i != k {
                        assert(before[i] == b[i]);
                    }
                }
            }
        }
        Ok(out)
    }

    /// Updates mapping `id` when it exists, and stores a new mapping with
    /// that identifier otherwise.
    pub fn upsert_binding(&mut self, id: u128, draft: BindingDraft, now: Timestamp) -> (r: Result<
        InputBinding,
        CommandError,
    >)
        ensures
            has_binding(old(self).bindings@, id) ==> match binding_update_check(
                old(self).profiles@,
                old(self).bindings@,
                id,
                draft,
            ) {
                Err(p) => r matches Err(e) && e.reports(p) && final(self).same_rows(old(self)),
                Ok(_) => r matches Ok(out) && exists|i: int|
                    first_binding(old(self).bindings@, id, i) && {
                        let b = final(self).bindings@[i];
                        &&& final(self).bindings@ == old(self).bindings@.update(i, b)
                        &&& stored_from(b, draft, id, old(self).bindings@[i].created_at, now)
                        &&& domain::same_binding(b, out)
                        &&& final(self).profiles@ == old(self).profiles@
                        &&& final(self).settings == old(self).settings
                    },
            },
            !has_binding(old(self).bindings@, id) ==> match new_binding_check(
                old(self).profiles@,
                old(self).bindings@,
                draft,
            ) {
                Err(p) => r matches Err(e) && e.reports(p) && final(self).same_rows(old(self)),
                Ok(_) => r matches Ok(out) && {
                    let b = final(self).bindings@.last();
                    &&& final(self).bindings@ == old(self).bindings@.push(b)
                    &&& stored_from(b, draft, id, now, now)
                    &&& domain::same_binding(b, out)
                    &&& final(self).profiles@ == old(self).profiles@
                    &&& final(self).settings == old(self).settings
                },
            },
            old(self).wf() ==> final(self).wf(),
    {
        if find_binding(&self.bindings, id).is_some() {
            self.update_binding(id, draft, now)
        } else {
            self.create_binding(draft, id, now)
        }
    }

    /// Deletes mapping `id`.
    pub fn delete_binding(&mut self, id: u128) -> (r: Result<(), CommandError>)
        ensures
            !has_binding(old(self).bindings@, id) ==> (r matches Err(e) && e.is(Fault::BindingNotFound)
                && final(self).same_rows(old(self))),
            has_binding(old(self).bindings@, id) ==> r is Ok
                && final(self).bindings@ == old(self).bindings@.filter(|b: InputBinding| b.id != id)
                && final(self).profiles@ == old(self).profiles@
                && final(self).settings == old(self).settings,
            old(self).wf() ==> final(self).wf(),
    {
        if find_binding(&self.bindings, id).is_none() {
            return Err(Fault::BindingNotFound.error());
        }
        let ghost before = *self;
        retain_bindings(&mut self.bindings, false, id);
        proof {
            if before.wf() {
                lemma_filtered_bindings_wf(before, |b: InputBinding| b.id != id);
                let b = self.bindings@;
                assert forall|i: int| 0 <= i < b.len() implies has_profile(self.profiles@, (#[trigger] b[i]).profile_id)
                    && references_exist(b[i].action, self.profiles@) by {
                    assert(before.bindings@.contains(b[i]));
                }
            }
        }
        Ok(())
    }
}


/// The reference number of the first mapping outside profile `id` (from
/// position `i` on, `seen` such mappings before it) that switches to `id`;
/// mappings outside the profile are numbered from 1 in stored order.
pub open spec fn first_reference(b: Seq<InputBinding>, id: u128, i: int, seen: nat) -> Option<nat>
    decreases b.len() - i,
{
    if i < 0 || i >= b.len() {
        None
    } else if b[i].profile_id != id {
        if refers_to(b[i].action, id) {
            Some(seen + 1)
        } else {
            first_reference(b, id, i + 1, seen + 1)
        }
    } else {
        first_reference(b, id, i + 1, seen)
    }
}

/// Profiles in strictly increasing sort order.
pub open spec fn sort_orders_increasing(p: Seq<Profile>) -> bool {
    forall|i: int, j: int| #![trigger p[i], p[j]] 0 <= i < j < p.len() ==> p[i].sort_order < p[j].sort_order
}

/// Keeping some of the profiles keeps them in sort order.
proof fn lemma_filter_keeps_sort_order(p: Seq<Profile>, keep: spec_fn(Profile) -> bool)
    requires
        sort_orders_increasing(p),
    ensures
        sort_orders_increasing(p.filter(keep)),
    decreases p.len(),
{
    broadcast use vstd::seq_lib::group_filter_ensures;

    reveal(Seq::filter);
    if p.len() > 0 {
        let front = p.drop_last();
        assert(sort_orders_increasing(front)) by {
            assert forall|i: int, j: int| 0 <= i < j < front.len() implies #[trigger] front[i].sort_order
                < #[trigger] front[j].sort_order by {
                assert(front[i] == p[i] && front[j] == p[j]);
            }
        }
        lemma_filter_keeps_sort_order(front, keep);
        let f = front.filter(keep);
        if keep(p.last()) {
            assert forall|i: int| 0 <= i < f.len() implies (#[trigger] f[i]).sort_order < p.last().sort_order by {
                assert(f.contains(f[i]));
                front.lemma_filter_contains_rev(keep, f[i]);
                assert(front.contains(f[i]));
                let k = choose|k: int| 0 <= k < front.len() && front[k] == f[i];
                assert(p[k] == f[i]);
                assert(p[k].sort_order < p[p.len() - 1].sort_order);
            }
            let g = f.push(p.last());
            assert forall|i: int, j: int| 0 <= i < j < g.len() implies #[trigger] g[i].sort_order
                < #[trigger] g[j].sort_order by {
                if j < f.len() {
                    assert(g[i] == f[i] && g[j] == f[j]);
                } else {
                    assert(g[i] == f[i]);
                }
            }
        }
    }
}

/// When the active profile is deleted, the profile that becomes active is
/// one of those that remain and comes first among them in sort order.
pub proof fn lemma_deleted_active_moves_to_first(db: Database, id: u128)
    requires
        db.wf(),
        db.settings.active_profile_id == id,
        db.profiles@.filter(|p: Profile| p.id != id).len() > 0,
    ensures
        ({
            let rest = db.profiles@.filter(|p: Profile| p.id != id);
            let active = settings_after_delete(db.settings, id, rest).active_profile_id;
            exists|k: int|
                0 <= k < rest.len() && #[trigger] rest[k].id == active && forall|j: int|
                    0 <= j < rest.len() ==> rest[k].sort_order <= #[trigger] rest[j].sort_order
        }),
{
    let rest = db.profiles@.filter(|p: Profile| p.id != id);
    lemma_filter_keeps_sort_order(db.profiles@, |p: Profile| p.id != id);
    assert forall|j: int| 0 <= j < rest.len() implies rest[0].sort_order <= #[trigger] rest[j].sort_order by {
        if j > 0 {
            assert(rest[0].sort_order < rest[j].sort_order);
        }
    }
    assert(rest[0].id == settings_after_delete(db.settings, id, rest).active_profile_id);
}

/// The settings after profile `id` is deleted: when it was the active one,
/// the first remaining profile becomes active.
pub open spec fn settings_after_delete(s: AppSettings, id: u128, remaining: Seq<Profile>) -> AppSettings {
    if s.active_profile_id == id {
        AppSettings { active_profile_id: remaining[0].id, ..s }
    } else {
        s
    }
}

impl Database {
    /// Deletes profile `id` with its mappings. The only profile cannot be
    /// deleted, nor one that a mapping of another profile switches to.
    pub fn delete_profile(&mut self, id: u128) -> (r: Result<AppSettings, CommandError>)
        requires
            forall|i: int, j: int|
                #![trigger old(self).profiles@[i], old(self).profiles@[j]]
                0 <= i < j < old(self).profiles@.len() ==> old(self).profiles@[i].id
                    != old(self).profiles@[j].id,
        ensures
            old(self).profiles@.len() <= 1 ==> (r matches Err(e) && e.is(Fault::LastProfile)
                && final(self).same_rows(old(self))),
            old(self).profiles@.len() > 1 ==> match first_reference(old(self).bindings@, id, 0, 0) {
                Some(n) => r matches Err(e) && e.is(Fault::ProfileInUse(n as usize))
                    && final(self).same_rows(old(self)),
                None => if !has_profile(old(self).profiles@, id) {
                    r matches Err(e) && e.is(Fault::ProfileNotFound)
                        && final(self).same_rows(old(self))
                } else {
                    &&& final(self).profiles@ == old(self).profiles@.filter(|p: Profile| p.id != id)
                    &&& final(self).bindings@ == old(self).bindings@.filter(outside_profile(id))
                    &&& final(self).settings == settings_after_delete(
                        old(self).settings,
                        id,
                        final(self).profiles@,
                    )
                    &&& r matches Ok(s) && s == final(self).settings
                },
            },
            old(self).wf() ==> final(self).wf(),
    {
        if self.profiles.len() <= 1 {
            return Err(Fault::LastProfile.error());
        }
        let mut seen: usize = 0;
        let mut i: usize = 0;
        while i < self.bindings.len()
            invariant
                *self == *old(self),
                self.profiles@.len() > 1,
                i <= self.bindings@.len(),
                seen <= i,
                first_reference(self.bindings@, id, 0, 0) == first_reference(
                    self.bindings@,
                    id,
                    i as int,
                    seen as nat,
                ),
                forall|k: int|
                    0 <= k < i && (#[trigger] self.bindings@[k]).profile_id != id ==> !refers_to(
                        self.bindings@[k].action,
                        id,
                    ),
            decreases self.bindings@.len() - i,
        {
            if self.bindings[i].profile_id != id {
                if action_references_profile(&self.bindings[i].action, id) {
                    return Err(Fault::ProfileInUse(seen + 1).error());
                }
                seen += 1;
            }
            i += 1;
        }
        if find_profile(&self.profiles, id).is_none() {
            return Err(Fault::ProfileNotFound.error());
        }
        let ghost before = *self;
        let ghost keep_profile = |p: Profile| p.id != id;
        retain_profiles(&mut self.profiles, id);
        retain_bindings(&mut self.bindings, true, id);
        proof {
            let k0 = choose|k: int| 0 <= k < before.profiles@.len() && (#[trigger] before.profiles@[k]).id == id;
            let other = if k0 == 0 { 1int } else { 0int };
            assert(before.profiles@[other].id != id) by {
                if other < k0 {
                    assert(before.profiles@[other].id != before.profiles@[k0].id);
                } else {
                    assert(before.profiles@[k0].id != before.profiles@[other].id);
                }
            }
            before.profiles@.lemma_filter_contains(keep_profile, other);
            assert(self.profiles@.len() > 0);
        }
        if self.settings.active_profile_id == id {
            self.settings.active_profile_id = self.profiles[0].id;
        }
        proof {
            let p = self.profiles@;
            let q = before.profiles@;
            assert forall|t: u128| t != id && has_profile(q, t) implies has_profile(p, t) by {
                let k = choose|k: int| 0 <= k < q.len() && (#[trigger] q[k]).id == t;
                q.lemma_filter_contains(keep_profile, k);
            }
            if before.wf() {
                let fp = lemma_filter_positions(q, keep_profile);
                assert forall|i: int, j: int| 0 <= i < j < p.len() implies #[trigger] p[i].id != #[trigger] p[j].id by {
                    assert(fp(i) < fp(j));
                    assert(q[fp(i)] == p[i] && q[fp(j)] == p[j]);
                }
                assert forall|i: int, j: int| 0 <= i < j < p.len() implies #[trigger] p[i].sort_order < #[trigger] p[j].sort_order by {
                    assert(fp(i) < fp(j));
                    assert(q[fp(i)] == p[i] && q[fp(j)] == p[j]);
                }
                assert forall|i: int, j: int| 0 <= i < j < p.len() implies !text::eq_ascii_case(#[trigger] p[i].name@, #[trigger] p[j].name@) by {
                    assert(fp(i) < fp(j));
                    assert(q[fp(i)] == p[i] && q[fp(j)] == p[j]);
                }
                lemma_filtered_bindings_wf(before, |b: InputBinding| b.profile_id != id);
                lemma_filter_kept(before.bindings@, |b: InputBinding| b.profile_id != id);
                let b = self.bindings@;
                assert forall|i: int| 0 <= i < b.len() implies has_profile(p, (#[trigger] b[i]).profile_id)
                    && references_exist(b[i].action, p) by {
                    assert(before.bindings@.contains(b[i]));
                    let k = choose|k: int| 0 <= k < before.bindings@.len() && before.bindings@[k] == b[i];
                    assert(before.bindings@[k].profile_id != id);
                    assert(!refers_to(b[i].action, id));
                    assert(has_profile(q, b[i].profile_id));
                    lemma_references_transfer(b[i].action, q, p);
                }
                if before.settings.active_profile_id == id {
                    assert(p[0].id == self.settings.active_profile_id);
                } else {
                    assert(has_profile(q, before.settings.active_profile_id));
                }
            }
        }
        Ok(self.settings)
    }
}


/// A copy whose switches to `from` go to `to` refers only to profiles that
/// exist, when the copied action did and `to` exists too.
pub proof fn lemma_remapped_references(
    a: ActionDefinition,
    b: ActionDefinition,
    from: u128,
    to: u128,
    p: Seq<Profile>,
    q: Seq<Profile>,
)
    requires
        domain::remapped(a, b, from, to),
        references_exist(a, p),
        forall|t: u128| has_profile(p, t) ==> has_profile(q, t),
        has_profile(q, to),
    ensures
        references_exist(b, q),
    decreases a,
{
    match a {
        ActionDefinition::SwitchProfile { profile_id } => {
            if profile_id != from {
                assert(has_profile(p, profile_id));
            }
        },
        ActionDefinition::MultiAction { steps, .. } => {
            let steps_b = b->steps;
            assert forall|i: int| 0 <= i < steps_b@.len() implies references_exist(
                (#[trigger] steps_b@[i]).action,
                q,
            ) by {
                assert(decreases_to!(a => steps@[i].action));
                assert(references_exist(steps@[i].action, p));
                lemma_remapped_references(steps@[i].action, steps_b@[i].action, from, to, p, q);
            }
        },
        _ => {},
    }
}

/// `b` is the copy of mapping `source` made for profile `to` (a copy of
/// profile `from`) with identifier `id` at time `now`: switches to `from`
/// become switches to `to`.
pub open spec fn copied_binding(source: InputBinding, b: InputBinding, from: u128, to: u128, id: u128, now: Timestamp) -> bool {
    &&& b.id == id
    &&& b.profile_id == to
    &&& domain::same_input(b.input, source.input)
    &&& b.trigger == source.trigger
    &&& domain::remapped(source.action, b.action, from, to)
    &&& b.label@ == text::trimmed(source.label@)
    &&& b.enabled == source.enabled
    &&& b.created_at == now
    &&& b.updated_at == now
}

/// Copying profile `id`, found at position `i`, must succeed: the stored
/// rows keep their rules, the copy's name and fields pass, and each mapping
/// of the profile passes the checks of a new mapping.
pub open spec fn copy_owed(db: Database, id: u128, i: int, spare: Seq<char>) -> bool {
    let s = db.profiles@[i];
    let sources = db.bindings@.filter(of_profile(id));
    &&& db.wf()
    &&& profile_fields_check(
        db.profiles@,
        derived_name(s.name@, " Copy"@, db.profiles@, spare, 1),
        domain::opt_view(s.description),
        domain::opt_view(s.automatic_app),
    ) is Ok
    &&& forall|m: int|
        0 <= m < sources.len() ==> validation::binding_check(
            validation::draft_of(#[trigger] sources[m]),
            validation::MAX_ACTION_NODES,
        ) is Ok
}

impl Database {
    /// Copies profile `id` as profile `new_id` under the first free name
    /// "`name` Copy", "`name` Copy 2", ... (`spare` stands in for the number
    /// when all are taken), with copies of its mappings in stored order
    /// (identifiers from `binding_ids`), in which switches to the profile
    /// switch to the copy. When a copy is refused nothing is kept.
    pub fn duplicate_profile(
        &mut self,
        id: u128,
        new_id: u128,
        binding_ids: &Vec<u128>,
        spare: &str,
        now: Timestamp,
    ) -> (r: Result<Profile, CommandError>)
        requires
            !has_profile(old(self).profiles@, new_id),
            forall|k: int|
                0 <= k < old(self).profiles@.len() ==> (#[trigger] old(self).profiles@[k]).sort_order
                    < i64::MAX,
            old(self).profiles@.len() + 3 <= usize::MAX,
            binding_ids@.len() >= old(self).bindings@.filter(of_profile(id)).len(),
            forall|m: int| 0 <= m < binding_ids@.len() ==> !has_binding(old(self).bindings@, #[trigger] binding_ids@[m]),
            forall|m: int, n: int|
                #![trigger binding_ids@[m], binding_ids@[n]]
                0 <= m < n < binding_ids@.len() ==> binding_ids@[m] != binding_ids@[n],
        ensures
            !has_profile(old(self).profiles@, id) ==> (r matches Err(e) && e.is(Fault::ProfileNotFound)
                && final(self).same_rows(old(self))),
            forall|i: int| #[trigger] first_profile(old(self).profiles@, id, i) ==> {
                let s = old(self).profiles@[i];
                let name = derived_name(s.name@, " Copy"@, old(self).profiles@, spare@, 1);
                let n0 = old(self).bindings@.len();
                let sources = old(self).bindings@.filter(of_profile(id));
                match profile_fields_check(
                    old(self).profiles@,
                    name,
                    domain::opt_view(s.description),
                    domain::opt_view(s.automatic_app),
                ) {
                    Err(f) => r matches Err(e) && e.is(f) && final(self).same_rows(old(self)),
                    Ok(_) => match r {
                        Ok(p) => {
                            &&& p.id == new_id
                            &&& p.name@ == text::trimmed(name)
                            &&& domain::opt_view(p.description) == validation::cleaned(
                                domain::opt_view(s.description),
                            )
                            &&& domain::opt_view(p.automatic_app) == domain::opt_view(s.automatic_app)
                            &&& p.sort_order == next_sort_order(old(self).profiles@)
                            &&& p.created_at == now
                            &&& p.updated_at == now
                            &&& final(self).profiles@ == old(self).profiles@.push(p)
                            &&& final(self).settings == old(self).settings
                            &&& final(self).bindings@.len() == n0 + sources.len()
                            &&& final(self).bindings@.subrange(0, n0 as int) == old(self).bindings@
                            &&& forall|m: int|
                                0 <= m < sources.len() ==> copied_binding(
                                    sources[m],
                                    #[trigger] final(self).bindings@[n0 + m],
                                    id,
                                    new_id,
                                    binding_ids@[m],
                                    now,
                                )
                        },
                        Err(_) => final(self).same_rows(old(self)),
                    },
                }
            },
            forall|i: int|
                #[trigger] first_profile(old(self).profiles@, id, i) && copy_owed(
                    *old(self),
                    id,
                    i,
                    spare@,
                ) ==> r is Ok,
            old(self).wf() ==> final(self).wf(),
    {
        let src_index = match find_profile(&self.profiles, id) {
            Some(i) => i,
            None => {
                return Err(Fault::ProfileNotFound.error());
            },
        };
        let name = available_copy_name(self.profiles[src_index].name.as_str(), &self.profiles, spare);
        let draft = ProfileDraft {
            name,
            description: domain::copy_text_opt(&self.profiles[src_index].description),
            automatic_app: domain::copy_text_opt(&self.profiles[src_index].automatic_app),
        };
        let ghost before = *self;
        let ghost keep = of_profile(id);
        let n_profiles = self.profiles.len();
        let n0 = self.bindings.len();
        let ghost owed = copy_owed(before, id, src_index as int, spare@);
        let created = self.create_profile(draft, new_id, now)?;
        let mut j: usize = 0;
        let mut copies: usize = 0;
        while j < n0
            invariant
                before == *old(self),
                !has_profile(before.profiles@, new_id),
                owed == copy_owed(before, id, src_index as int, spare@),
                first_profile(before.profiles@, id, src_index as int),
                profile_fields_check(
                    before.profiles@,
                    derived_name(before.profiles@[src_index as int].name@, " Copy"@, before.profiles@, spare@, 1),
                    domain::opt_view(before.profiles@[src_index as int].description),
                    domain::opt_view(before.profiles@[src_index as int].automatic_app),
                ) is Ok,
                keep == of_profile(id),
                j <= n0 == before.bindings@.len(),
                n_profiles == before.profiles@.len(),
                binding_ids@.len() >= before.bindings@.filter(keep).len(),
                forall|m: int| 0 <= m < binding_ids@.len() ==> !has_binding(before.bindings@, #[trigger] binding_ids@[m]),
                forall|m: int, n: int|
                    #![trigger binding_ids@[m], binding_ids@[n]]
                    0 <= m < n < binding_ids@.len() ==> binding_ids@[m] != binding_ids@[n],
                self.profiles@ == before.profiles@.push(created),
                created.id == new_id,
                self.settings == before.settings,
                copies == before.bindings@.take(j as int).filter(keep).len(),
                self.bindings@.len() == n0 + copies,
                self.bindings@.subrange(0, n0 as int) == before.bindings@,
                forall|m: int|
                    0 <= m < copies ==> copied_binding(
                        before.bindings@.take(j as int).filter(keep)[m],
                        #[trigger] self.bindings@[n0 + m],
                        id,
                        new_id,
                        binding_ids@[m],
                        now,
                    ),
                before.wf() ==> self.wf(),
            decreases n0 - j,
        {
            proof {
                assert(before.bindings@.take(j + 1) =~= before.bindings@.take(j as int).push(before.bindings@[j as int]));
                before.bindings@.take(j as int).lemma_filter_push(before.bindings@[j as int], keep);
                assert(self.bindings@[j as int] == before.bindings@[j as int]) by {
                    assert(self.bindings@.subrange(0, n0 as int)[j as int] == self.bindings@[j as int]);
                }
                lemma_filter_take_len(before.bindings@, keep, j + 1);
            }
            if self.bindings[j].profile_id == id {
                let action = domain::remap_profile_action(&self.bindings[j].action, id, new_id);
                let copy = BindingDraft {
                    profile_id: new_id,
                    input: self.bindings[j].input.duplicate(),
                    trigger: self.bindings[j].trigger,
                    action,
                    label: self.bindings[j].label.clone(),
                    enabled: self.bindings[j].enabled,
                };
                let ghost mid = self.bindings@;
                proof {
                    assert(!has_binding(self.bindings@, binding_ids@[copies as int])) by {
                        if has_binding(self.bindings@, binding_ids@[copies as int]) {
                            let k = choose|k: int| 0 <= k < self.bindings@.len() && (#[trigger] self.bindings@[k]).id == binding_ids@[copies as int];
                            if k < n0 {
                                assert(self.bindings@.subrange(0, n0 as int)[k] == self.bindings@[k]);
                                assert(has_binding(before.bindings@, binding_ids@[copies as int]));
                            } else {
                                assert(copied_binding(
                                    before.bindings@.take(j as int).filter(keep)[k - n0],
                                    self.bindings@[n0 + (k - n0)],
                                    id, new_id, binding_ids@[k - n0], now));
                            }
                        }
                    }
                }
                proof {
                    if owed {
                        self.lemma_copy_accepted(before, &copy, id, new_id, j as int, copies as int);
                    }
                }
                match self.create_binding(copy, binding_ids[copies], now) {
                    Ok(_) => {},
                    Err(e) => {
                        self.bindings.truncate(n0);
                        self.profiles.truncate(n_profiles);
                        proof {
                            assert(self.profiles@ =~= before.profiles@);
                        }
                        return Err(e);
                    },
                }
                proof {
                    let t = before.bindings@.take(j + 1).filter(keep);
                    assert(t == before.bindings@.take(j as int).filter(keep).push(before.bindings@[j as int]));
                    assert(self.bindings@.subrange(0, n0 as int) =~= before.bindings@) by {
                        assert forall|k: int| 0 <= k < n0 implies self.bindings@.subrange(0, n0 as int)[k] == before.bindings@[k] by {
                            assert(self.bindings@[k] == mid[k]);
                            assert(mid.subrange(0, n0 as int)[k] == mid[k]);
                        }
                    }
                    assert forall|m: int| 0 <= m < copies + 1 implies copied_binding(
                        t[m],
                        #[trigger] self.bindings@[n0 + m],
                        id,
                        new_id,
                        binding_ids@[m],
                        now,
                    ) by {
                        if m < copies {
                            assert(self.bindings@[n0 + m] == mid[n0 + m]);
                        }
                    }
                }
                copies += 1;
            }
            j += 1;
        }
        proof {
            assert(before.bindings@.take(n0 as int) =~= before.bindings@);
        }
        Ok(created)
    }
}

impl Database {
    /// During a profile copy: the copy of the mapping at position `j` of the
    /// rows as they were (`before`) passes the checks of a new mapping when the
    /// copy is owed to succeed, `copies` copies having been added so far.
    proof fn lemma_copy_accepted(
        &self,
        before: Database,
        copy: &BindingDraft,
        id: u128,
        new_id: u128,
        j: int,
        copies: int,
    )
        requires
            before.wf(),
            0 <= j < before.bindings@.len(),
            before.bindings@[j].profile_id == id,
            copies == before.bindings@.take(j).filter(of_profile(id)).len(),
            forall|m: int|
                0 <= m < before.bindings@.filter(of_profile(id)).len() ==> validation::binding_check(
                    validation::draft_of(
                        #[trigger] before.bindings@.filter(of_profile(id))[m],
                    ),
                    validation::MAX_ACTION_NODES,
                ) is Ok,
            !has_profile(before.profiles@, new_id),
            exists|p: Profile| p.id == new_id && self.profiles@ == before.profiles@.push(p),
            self.bindings@.len() == before.bindings@.len() + copies,
            self.bindings@.subrange(0, before.bindings@.len() as int) == before.bindings@,
            forall|m: int|
                0 <= m < copies ==> (#[trigger] self.bindings@[before.bindings@.len() + m]).profile_id
                    == new_id && self.bindings@[before.bindings@.len() + m].enabled
                    == before.bindings@.take(j).filter(of_profile(id))[m].enabled
                    && domain::same_input(
                    self.bindings@[before.bindings@.len() + m].input,
                    before.bindings@.take(j).filter(of_profile(id))[m].input,
                ),
            copy.profile_id == new_id,
            copy.label@ == before.bindings@[j].label@,
            domain::same_input(copy.input, before.bindings@[j].input),
            copy.trigger == before.bindings@[j].trigger,
            copy.enabled == before.bindings@[j].enabled,
            domain::remapped(before.bindings@[j].action, copy.action, id, new_id),
        ensures
            new_binding_check(self.profiles@, self.bindings@, *copy) is Ok,
    {
        let keep = of_profile(id);
        let src = before.bindings@[j];
        let bs = before.bindings@;
        let n0 = bs.len();
        let p = choose|p: Profile| p.id == new_id && self.profiles@ == before.profiles@.push(p);
        assert(self.profiles@[before.profiles@.len() as int] == p);
        assert(has_profile(self.profiles@, new_id));
        // The source is the `copies`-th mapping of the profile.
        let t = bs.take(j + 1);
        assert(t =~= bs.take(j).push(src));
        bs.take(j).lemma_filter_push(src, keep);
        assert(bs =~= t + bs.skip(j + 1));
        Seq::filter_distributes_over_add(t, bs.skip(j + 1), keep);
        assert(bs.filter(keep)[copies] == t.filter(keep)[copies]);
        assert(bs.filter(keep)[copies] == src);
        validation::lemma_copy_check(*copy, validation::draft_of(src), id, new_id, validation::MAX_ACTION_NODES);
        // Its switches refer to profiles that exist.
        assert forall|x: u128| has_profile(before.profiles@, x) implies has_profile(self.profiles@, x) by {
            let k = choose|k: int| 0 <= k < before.profiles@.len() && (#[trigger] before.profiles@[k]).id == x;
            assert(self.profiles@[k] == before.profiles@[k]);
        }
        assert(references_exist(bs[j].action, before.profiles@));
        lemma_references_transfer(bs[j].action, before.profiles@, before.profiles@);
        lemma_remapped_references(src.action, copy.action, id, new_id, before.profiles@, self.profiles@);
        // Nothing enabled in the new profile uses its input.
        if copy.enabled && input_conflict(self.bindings@, new_id, copy.input, None) {
            let k = choose|k: int|
                0 <= k < self.bindings@.len() && (#[trigger] self.bindings@[k]).profile_id == new_id
                    && self.bindings@[k].enabled && domain::same_input(self.bindings@[k].input, copy.input);
            if k < n0 {
                assert(self.bindings@.subrange(0, n0 as int)[k] == self.bindings@[k]);
                assert(bs[k] == self.bindings@[k]);
                assert(has_profile(before.profiles@, bs[k].profile_id));
            } else {
                let m = k - n0;
                let pre = bs.take(j);
                let f = lemma_filter_positions(pre, keep);
                lemma_filter_kept(pre, keep);
                let q = f(m);
                assert(pre.filter(keep)[m] == pre[q]);
                assert(pre[q] == bs[q]);
                assert(keep(pre.filter(keep)[m]));
                assert(self.bindings@[n0 + m] == self.bindings@[k]);
                assert(bs[q].profile_id == id && bs[q].enabled);
                assert(!domain::same_input(bs[q].input, bs[j].input));
            }
        }
    }
}

/// Filtering a prefix keeps no more than filtering the whole.
pub proof fn lemma_filter_take_len<A>(s: Seq<A>, pred: spec_fn(A) -> bool, j: int)
    requires
        0 <= j <= s.len(),
    ensures
        s.take(j).filter(pred).len() <= s.filter(pred).len(),
    decreases s.len() - j,
{
    if j < s.len() {
        lemma_filter_take_len(s, pred, j + 1);
        assert(s.take(j + 1) =~= s.take(j).push(s[j]));
        s.take(j).lemma_filter_push(s[j], pred);
    } else {
        assert(s.take(j) =~= s);
    }
}


// ----- Schema upgrade -----

/// Mapping `a` counts as newer than mapping `b`: changed later, or at the
/// same time with a larger identifier.
pub open spec fn newer(a: InputBinding, b: InputBinding) -> bool {
    domain::later(a.updated_at, b.updated_at) || (a.updated_at == b.updated_at && a.id > b.id)
}

/// Mapping `i` is enabled and a newer enabled mapping of its profile uses
/// the same input.
pub open spec fn shadowed(s: Seq<InputBinding>, i: int) -> bool {
    &&& s[i].enabled
    &&& exists|j: int|
        0 <= j < s.len() && (#[trigger] s[j]).enabled && s[j].profile_id == s[i].profile_id
            && domain::same_input(s[j].input, s[i].input) && newer(s[j], s[i])
}

/// Mapping `i` after the upgrade: disabled when shadowed.
pub open spec fn retired(s: Seq<InputBinding>, i: int) -> InputBinding {
    InputBinding { enabled: s[i].enabled && !shadowed(s, i), ..s[i] }
}

/// Whether mapping `i` is shadowed, by a search.
fn is_shadowed(bindings: &Vec<InputBinding>, i: usize) -> (r: bool)
    requires
        i < bindings@.len(),
    ensures
        r == shadowed(bindings@, i as int),
{
    if !bindings[i].enabled {
        return false;
    }
    let mut j: usize = 0;
    while j < bindings.len()
        invariant
            i < bindings@.len(),
            bindings@[i as int].enabled,
            j <= bindings@.len(),
            forall|k: int|
                0 <= k < j ==> !((#[trigger] bindings@[k]).enabled && bindings@[k].profile_id
                    == bindings@[i as int].profile_id && domain::same_input(
                    bindings@[k].input,
                    bindings@[i as int].input,
                ) && newer(bindings@[k], bindings@[i as int])),
        decreases bindings@.len() - j,
    {
        let a = &bindings[j];
        let b = &bindings[i];
        if a.enabled && a.profile_id == b.profile_id && a.input.same_as(&b.input) && (domain::is_later(
            a.updated_at,
            b.updated_at,
        ) || (a.updated_at == b.updated_at && a.id > b.id)) {
            return true;
        }
        j += 1;
    }
    false
}

impl Database {
    /// The second schema upgrade: of the enabled mappings of a profile that
    /// share an input only the newest stays enabled.
    pub fn retire_duplicate_inputs(&mut self)
        ensures
            final(self).profiles@ == old(self).profiles@,
            final(self).settings == old(self).settings,
            final(self).bindings@.len() == old(self).bindings@.len(),
            forall|i: int|
                0 <= i < old(self).bindings@.len() ==> #[trigger] final(self).bindings@[i] == retired(old(self).bindings@, i),
    {
        let n = self.bindings.len();
        let mut retire: Vec<bool> = Vec::new();
        let mut i: usize = 0;
        while i < n
            invariant
                self.profiles@ == old(self).profiles@,
                self.settings == old(self).settings,
                self.bindings@ == old(self).bindings@,
                n == self.bindings@.len(),
                i <= n,
                retire@.len() == i,
                forall|k: int| 0 <= k < i ==> retire@[k] == shadowed(self.bindings@, k),
            decreases n - i,
        {
            retire.push(is_shadowed(&self.bindings, i));
            i += 1;
        }
        let ghost before = self.bindings@;
        let mut i: usize = 0;
        while i < n
            invariant
                self.profiles@ == old(self).profiles@,
                self.settings == old(self).settings,
                before == old(self).bindings@,
                n == self.bindings@.len() == before.len() == retire@.len(),
                i <= n,
                forall|k: int| 0 <= k < n ==> retire@[k] == shadowed(before, k),
                forall|k: int|
                    0 <= k < i ==> #[trigger] self.bindings@[k] == retired(before, k),
                forall|k: int| i <= k < n ==> #[trigger] self.bindings@[k] == before[k],
            decreases n - i,
        {
            if retire[i] {
                self.bindings[i].enabled = false;
            }
            i += 1;
        }
    }
}

/// After the upgrade no two enabled mappings of a profile share an input,
/// provided mapping identifiers are unique.
pub proof fn lemma_retired_inputs_unique(s: Seq<InputBinding>, t: Seq<InputBinding>)
    requires
        forall|i: int, j: int|
            #![trigger s[i], s[j]]
            0 <= i < j < s.len() ==> s[i].id != s[j].id,
        t.len() == s.len(),
        forall|i: int|
            0 <= i < s.len() ==> #[trigger] t[i] == retired(s, i),
    ensures
        forall|i: int, j: int|
            #![trigger t[i], t[j]]
            0 <= i < j < t.len() && t[i].enabled && t[j].enabled && t[i].profile_id == t[j].profile_id
                ==> !domain::same_input(t[i].input, t[j].input),
{
    assert forall|i: int, j: int|
        #![trigger t[i], t[j]]
        0 <= i < j < t.len() && t[i].enabled && t[j].enabled && t[i].profile_id == t[j].profile_id
            implies !domain::same_input(t[i].input, t[j].input) by {
        if domain::same_input(t[i].input, t[j].input) {
            assert(s[i].id != s[j].id);
            assert(s[j].enabled && s[i].enabled);
            if newer(s[j], s[i]) {
                assert(shadowed(s, i));
            } else {
                assert(domain::same_input(s[i].input, s[j].input));
                assert(newer(s[i], s[j]));
                assert(shadowed(s, j));
            }
        }
    }
}


// ----- Snapshot -----

/// Keeps the mappings of profile `q`.
pub open spec fn of_profile(q: u128) -> spec_fn(InputBinding) -> bool {
    |b: InputBinding| b.profile_id == q
}

/// A list of mappings ordered by profile identifier.
pub open spec fn ordered_by_profile(s: Seq<InputBinding>) -> bool {
    forall|i: int, j: int|
        #![trigger s[i], s[j]]
        0 <= i < j < s.len() ==> s[i].profile_id <= s[j].profile_id
}

/// Nothing in `s` belongs to profile `q`, when every mapping's profile
/// identifier is larger.
proof fn lemma_no_profile_above(s: Seq<InputBinding>, q: u128)
    requires
        forall|i: int| 0 <= i < s.len() ==> (#[trigger] s[i]).profile_id > q,
    ensures
        s.filter(of_profile(q)) == Seq::<InputBinding>::empty(),
    decreases s.len(),
{
    reveal(Seq::filter);
    if s.len() > 0 {
        lemma_no_profile_above(s.drop_last(), q);
    }
}

/// Copies of the mappings ordered by profile identifier; the mappings of
/// one profile keep their stored order.
pub fn bindings_by_profile(bindings: &Vec<InputBinding>) -> (r: Vec<InputBinding>)
    ensures
        r@.len() == bindings@.len(),
        ordered_by_profile(r@),
        forall|q: u128| domain::same_bindings(
            #[trigger] bindings@.filter(of_profile(q)),
            r@.filter(of_profile(q)),
        ),
{
    let mut out: Vec<InputBinding> = Vec::new();
    let mut i: usize = 0;
    while i < bindings.len()
        invariant
            i <= bindings@.len(),
            out@.len() == i,
            ordered_by_profile(out@),
            forall|q: u128| domain::same_bindings(
                #[trigger] bindings@.take(i as int).filter(of_profile(q)),
                out@.filter(of_profile(q)),
            ),
        decreases bindings@.len() - i,
    {
        let b = bindings[i].duplicate();
        let p = b.profile_id;
        let mut k: usize = 0;
        while k < out.len() && out[k].profile_id <= p
            invariant
                k <= out@.len(),
                forall|m: int| 0 <= m < k ==> (#[trigger] out@[m]).profile_id <= p,
            decreases out@.len() - k,
        {
            k += 1;
        }
        let ghost old_out = out@;
        proof {
            assert forall|m: int| k <= m < old_out.len() implies (#[trigger] old_out[m]).profile_id > p by {
                if k < old_out.len() {
                    assert(old_out[k as int].profile_id > p);
                    if m > k {
                        assert(old_out[k as int].profile_id <= old_out[m].profile_id);
                    }
                }
            }
        }
        out.insert(k, b);
        proof {
            let a = old_out.subrange(0, k as int);
            let c = old_out.subrange(k as int, old_out.len() as int);
            assert(old_out =~= a + c);
            assert(out@ =~= a + seq![b] + c);
            assert(bindings@.take(i + 1) =~= bindings@.take(i as int).push(bindings@[i as int]));
            assert forall|x: int, y: int| 0 <= x < y < out@.len() implies #[trigger] out@[x].profile_id
                <= #[trigger] out@[y].profile_id by {
                if x < k && y > k {
                    assert(out@[x] == old_out[x] && out@[y] == old_out[y - 1]);
                } else if y == k {
                    assert(out@[x] == old_out[x]);
                } else if x == k {
                    assert(out@[y] == old_out[y - 1]);
                } else if x < k {
                    assert(out@[x] == old_out[x] && out@[y] == old_out[y]);
                } else {
                    assert(out@[x] == old_out[x - 1] && out@[y] == old_out[y - 1]);
                }
            }
            assert forall|q: u128| domain::same_bindings(
                #[trigger] bindings@.take(i + 1).filter(of_profile(q)),
                out@.filter(of_profile(q)),
            ) by {
                let f = of_profile(q);
                Seq::filter_distributes_over_add(a, c, f);
                Seq::filter_distributes_over_add(a + seq![b], c, f);
                Seq::filter_distributes_over_add(a, seq![b], f);
                bindings@.take(i as int).lemma_filter_push(bindings@[i as int], f);
                reveal_with_fuel(Seq::filter, 2);
                if q == p {
                    assert forall|m: int| 0 <= m < c.len() implies (#[trigger] c[m]).profile_id > q by {
                        assert(c[m] == old_out[k + m]);
                    }
                    lemma_no_profile_above(c, q);
                    assert(seq![b].filter(f) =~= seq![b]);
                    assert(out@.filter(f) =~= old_out.filter(f).push(b));
                } else {
                    assert(seq![b].filter(f) =~= Seq::<InputBinding>::empty());
                    assert(out@.filter(f) =~= old_out.filter(f));
                }
            }
        }
        i += 1;
    }
    proof {
        assert(bindings@.take(bindings@.len() as int) =~= bindings@);
    }
    out
}

impl Database {
    /// Everything the editor shows at once: the profiles in list order, the
    /// active one, all mappings ordered by profile (each profile's in stored
    /// order) and the settings. Fails when the active profile is missing.
    pub fn snapshot(&self) -> (r: Result<AppSnapshot, CommandError>)
        ensures
            match r {
                Ok(s) => {
                    &&& s.profiles@ == self.profiles@
                    &&& exists|i: int|
                        first_profile(self.profiles@, self.settings.active_profile_id, i)
                            && s.active_profile == self.profiles@[i]
                    &&& s.settings == self.settings
                    &&& s.bindings@.len() == self.bindings@.len()
                    &&& ordered_by_profile(s.bindings@)
                    &&& forall|q: u128| domain::same_bindings(
                        #[trigger] self.bindings@.filter(of_profile(q)),
                        s.bindings@.filter(of_profile(q)),
                    )
                },
                Err(e) => !has_profile(self.profiles@, self.settings.active_profile_id) && e.is(
                    Fault::ActiveProfileNotFound,
                ),
            },
    {
        let profiles = self.list_profiles();
        let settings = self.settings;
        let active_profile = match find_profile(&profiles, settings.active_profile_id) {
            Some(i) => profiles[i].duplicate(),
            None => {
                return Err(Fault::ActiveProfileNotFound.error());
            },
        };
        let bindings = bindings_by_profile(&self.bindings);
        Ok(AppSnapshot { profiles, active_profile, bindings, settings })
    }
}


// ----- Reading back what was written -----

/// A profile added under a fresh identifier is the one found under it
/// afterwards.
pub proof fn lemma_created_profile_found(profiles: Seq<Profile>, p: Profile)
    requires
        !has_profile(profiles, p.id),
    ensures
        first_profile(profiles.push(p), p.id, profiles.len() as int),
{
    assert forall|k: int| 0 <= k < profiles.len() implies (#[trigger] profiles.push(p)[k]).id != p.id by {
        assert(profiles.push(p)[k] == profiles[k]);
    }
}

/// A mapping added under a fresh identifier is the one found under it
/// afterwards.
pub proof fn lemma_created_binding_found(bindings: Seq<InputBinding>, b: InputBinding)
    requires
        !has_binding(bindings, b.id),
    ensures
        first_binding(bindings.push(b), b.id, bindings.len() as int),
{
    assert forall|k: int| 0 <= k < bindings.len() implies (#[trigger] bindings.push(b)[k]).id != b.id by {
        assert(bindings.push(b)[k] == bindings[k]);
    }
}

/// A mapping replaced in place is the one found under its identifier
/// afterwards.
pub proof fn lemma_updated_binding_found(bindings: Seq<InputBinding>, i: int, b: InputBinding)
    requires
        first_binding(bindings, b.id, i),
    ensures
        first_binding(bindings.update(i, b), b.id, i),
{
    assert forall|k: int| 0 <= k < i implies (#[trigger] bindings.update(i, b)[k]).id != b.id by {
        assert(bindings.update(i, b)[k] == bindings[k]);
    }
}

/// After a mapping is deleted, nothing is found under its identifier.
pub proof fn lemma_deleted_binding_gone(bindings: Seq<InputBinding>, id: u128)
    ensures
        !has_binding(bindings.filter(|b: InputBinding| b.id != id), id),
{
    let kept = bindings.filter(|b: InputBinding| b.id != id);
    if has_binding(kept, id) {
        let k = choose|k: int| 0 <= k < kept.len() && (#[trigger] kept[k]).id == id;
        bindings.lemma_filter_pred(|b: InputBinding| b.id != id, k);
    }
}

/// Keeps the mappings of profiles other than `id`.
pub open spec fn outside_profile(id: u128) -> spec_fn(InputBinding) -> bool {
    |b: InputBinding| b.profile_id != id
}

/// After a profile is deleted it is not found, and none of the remaining
/// mappings belongs to it.
pub proof fn lemma_deleted_profile_gone(profiles: Seq<Profile>, bindings: Seq<InputBinding>, id: u128)
    ensures
        !has_profile(profiles.filter(|p: Profile| p.id != id), id),
        forall|k: int|
            0 <= k < bindings.filter(outside_profile(id)).len() ==> (#[trigger] bindings.filter(
                outside_profile(id),
            )[k]).profile_id != id,
{
    let kept = profiles.filter(|p: Profile| p.id != id);
    if has_profile(kept, id) {
        let k = choose|k: int| 0 <= k < kept.len() && (#[trigger] kept[k]).id == id;
        profiles.lemma_filter_pred(|p: Profile| p.id != id, k);
    }
    assert forall|k: int|
        0 <= k < bindings.filter(outside_profile(id)).len() implies (#[trigger] bindings.filter(
            outside_profile(id),
        )[k]).profile_id != id by {
        bindings.lemma_filter_pred(outside_profile(id), k);
    }
}

} // verus!
