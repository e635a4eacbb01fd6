//! What each chat command decides: whether to store, and what to reply.
use vstd::prelude::*;
use vstd::string::StringExecFns;
use crate::auth::{id_of, parse_id, StoreError};
use crate::events::EventKind;
use crate::match_engine::{classify, MatchType};
use crate::render::Warning;
use crate::text::{chars_of, string_of_range};

verus! {

/// Why a script was refused, or failed while running.
#[derive(Debug, Clone, PartialEq, Eq)]
pub enum ScriptError {
    /// A key received a number of parameters it does not take.
    WrongAmountOfParameters,
    /// A parameter was empty.
    EmptyParameter,
    /// A key that does not exist was used.
    NonexistentKey,
    /// The script failed while running.
    InterpretationError(String),
}

/// The outcome of validating a script: its warnings, or why it was refused.
pub type Validation = Result<Option<Vec<Warning>>, ScriptError>;

/// What a command stores and replies.
pub struct CommandOutcome {
    /// Whether the rule or event script is to be stored.
    pub store: bool,
    /// The reply to post, if any.
    pub reply: Option<String>,
}

/// The reply to a script refused at validation; `None` for a failure that
/// only happens while running.
pub open spec fn validation_error_reply(e: ScriptError) -> Option<Seq<char>> {
    match e {
        ScriptError::WrongAmountOfParameters => Some(
            "One of your keys has invalid amount of parameters"@,
        ),
        ScriptError::EmptyParameter => Some("One of your keys has an empty parameter"@),
        ScriptError::NonexistentKey => Some("One of your keys does not exist"@),
        ScriptError::InterpretationError(_) => None,
    }
}

fn validation_error_text(e: &ScriptError) -> (r: Option<String>)
    ensures
        match r {
            Some(s) => validation_error_reply(*e) == Some(s@),
            None => validation_error_reply(*e) is None,
        },
{
    match e {
        ScriptError::WrongAmountOfParameters => Some(
            String::from_str("One of your keys has invalid amount of parameters"),
        ),
        ScriptError::EmptyParameter => Some(String::from_str("One of your keys has an empty parameter")),
        ScriptError::NonexistentKey => Some(String::from_str("One of your keys does not exist")),
        ScriptError::InterpretationError(_) => None,
    }
}

/// The list of warnings in an acknowledgement, one phrase per warning.
pub open spec fn warning_phrases(ws: Seq<Warning>) -> Seq<char>
    decreases ws.len(),
{
    if ws.len() == 0 {
        Seq::<char>::empty()
    } else {
        warning_phrases(ws.drop_last()) + "There are unclosed keys"@
    }
}

/// The acknowledgement of a stored script: `what` followed by " added", and
/// the warnings when validation reported any.
pub open spec fn added_reply(what: Seq<char>, warnings: Option<Seq<Warning>>) -> Seq<char> {
    match warnings {
        Some(ws) => what + " added, but it has the following errors:\n "@ + warning_phrases(ws),
        None => what + " added"@,
    }
}

fn added_text(what: &str, warnings: &Option<Vec<Warning>>) -> (r: String)
    ensures
        r@ == added_reply(what@, match warnings {
            Some(ws) => Some(ws@),
            None => None,
        }),
{
    let mut s = String::from_str(what);
    match warnings {
        Some(ws) => {
            s.append(" added, but it has the following errors:\n ");
            let ghost head = s@;
            let mut i: usize = 0;
            while i < ws.len()
                invariant
                    i <= ws.len(),
                    s@ == head + warning_phrases(ws@.take(i as int)),
                decreases ws.len() - i,
            {
                s.append("There are unclosed keys");
                assert(ws@.take(i + 1).drop_last() == ws@.take(i as int));
                i = i + 1;
            }
            assert(ws@.take(ws.len() as int) == ws@);
        },
        None => {
            s.append(" added");
        },
    }
    s
}

/// The reply and storing decision for a validated script: stored with an
/// acknowledgement when validation passed, refused with the reason otherwise.
pub open spec fn validated_outcome(what: Seq<char>, validation: Result<
    Option<Seq<Warning>>,
    ScriptError,
>) -> (bool, Option<Seq<char>>) {
    match validation {
        Ok(ws) => (true, Some(added_reply(what, ws))),
        Err(e) => (false, validation_error_reply(e)),
    }
}

/// The warnings of a validation as mathematical values.
pub open spec fn validation_view(v: Validation) -> Result<Option<Seq<Warning>>, ScriptError> {
    match v {
        Ok(Some(ws)) => Ok(Some(ws@)),
        Ok(None) => Ok(None),
        Err(e) => Err(e),
    }
}

/// A command outcome as mathematical values.
pub open spec fn outcome_view(o: CommandOutcome) -> (bool, Option<Seq<char>>) {
    (o.store, match o.reply {
        Some(s) => Some(s@),
        None => None,
    })
}

fn validated(what: &str, validation: &Validation) -> (r: CommandOutcome)
    ensures
        outcome_view(r) == validated_outcome(what@, validation_view(*validation)),
{
    match validation {
        Ok(ws) => CommandOutcome { store: true, reply: Some(added_text(what, ws)) },
        Err(e) => CommandOutcome { store: false, reply: validation_error_text(e) },
    }
}

/// The `add` command: a rule needs a response, a pattern that classifies
/// (a `?` pattern must compile) and a script that validates.
pub open spec fn add_outcome(pattern: Seq<char>, code: Seq<char>, validation: Result<
    Option<Seq<Warning>>,
    ScriptError,
>) -> (bool, Option<Seq<char>>) {
    if code.len() == 0 {
        (false, Some("The trigger does not have a response"@))
    } else if classify(pattern) is None {
        (false, Some("The trigger pattern is not a valid regular expression"@))
    } else {
        validated_outcome("Trigger"@, validation)
    }
}

/// Decides the `add` command for `pattern` and `code`, given the result of
/// validating `code`.
pub fn add(pattern: &String, code: &String, validation: &Validation) -> (r: CommandOutcome)
    ensures
        outcome_view(r) == add_outcome(pattern@, code@, validation_view(*validation)),
{
    if code.as_str().is_empty() {
        return CommandOutcome {
            store: false,
            reply: Some(String::from_str("The trigger does not have a response")),
        };
    }
    match MatchType::new(pattern.clone()) {
        Err(_) => CommandOutcome {
            store: false,
            reply: Some(String::from_str("The trigger pattern is not a valid regular expression")),
        },
        Ok(_) => validated("Trigger", validation),
    }
}

/// The reply when the event kind argument is missing or names no kind.
pub open spec fn bad_event_reply() -> Seq<char> {
    "You need to provide a correct event type"@
}

/// Reads the event kind argument of an event command.
pub fn event_argument(arg: Option<&str>) -> (r: Result<EventKind, String>)
    ensures
        match arg {
            Some(a) => match EventKind::spec_from_name(a@) {
                Some(k) => r == Ok::<EventKind, String>(k),
                None => r matches Err(s) && s@ == bad_event_reply(),
            },
            None => r matches Err(s) && s@ == bad_event_reply(),
        },
{
    match arg {
        Some(a) => match EventKind::from_name(a) {
            Some(k) => Ok(k),
            None => Err(String::from_str("You need to provide a correct event type")),
        },
        None => Err(String::from_str("You need to provide a correct event type")),
    }
}

/// The `event_add` command: a kind to store for, a response, and a script that validates.
pub open spec fn event_add_outcome(
    arg: Option<Seq<char>>,
    code: Seq<char>,
    validation: Result<Option<Seq<Warning>>, ScriptError>,
) -> (Option<EventKind>, Option<Seq<char>>) {
    match arg {
        None => (None, Some(bad_event_reply())),
        Some(a) => match EventKind::spec_from_name(a) {
            None => (None, Some(bad_event_reply())),
            Some(k) => if code.len() == 0 {
                (None, Some("You need to provide a response to the event"@))
            } else {
                let (store, reply) = validated_outcome("Event"@, validation);
                (if store {
                    Some(k)
                } else {
                    None
                }, reply)
            },
        },
    }
}

/// Decides the `event_add` command: the kind to store `code` for (`None`
/// when nothing is stored) and the reply.
pub fn event_add(arg: Option<&str>, code: &String, validation: &Validation) -> (r: (
    Option<EventKind>,
    Option<String>,
))
    ensures
        (r.0, match r.1 {
            Some(s) => Some(s@),
            None => None,
        }) == event_add_outcome(
            match arg {
                Some(a) => Some(a@),
                None => None,
            },
            code@,
            validation_view(*validation),
        ),
{
    let kind = match event_argument(arg) {
        Ok(k) => k,
        Err(reply) => {
            return (None, Some(reply));
        },
    };
    if code.as_str().is_empty() {
        return (None, Some(String::from_str("You need to provide a response to the event")));
    }
    let outcome = validated("Event", validation);
    if outcome.store {
        (Some(kind), outcome.reply)
    } else {
        (None, outcome.reply)
    }
}

/// The reply to `remove`, from the number of rows it deleted.
pub fn remove(rows_affected: u64) -> (r: &'static str)
    ensures
        r@ == (if rows_affected == 0 {
            "Trigger not found"@
        } else {
            "Trigger deleted"@
        }),
{
    if rows_affected == 0 {
        "Trigger not found"
    } else {
        "Trigger deleted"
    }
}

/// The reply to `event_remove`, from the number of rows it deleted.
pub fn event_remove(rows_affected: u64) -> (r: &'static str)
    ensures
        r@ == (if rows_affected == 0 {
            "Event not found"@
        } else {
            "Event deleted"@
        }),
{
    if rows_affected == 0 {
        "Event not found"
    } else {
        "Event deleted"
    }
}

/// How `show` introduces a stored rule's script, by the pattern's first character.
pub open spec fn show_header(pattern: Seq<char>) -> Seq<char> {
    if pattern.len() > 0 && pattern[0] == '&' {
        "Trigger type: Literal```\n"@
    } else if pattern.len() > 0 && pattern[0] == '?' {
        "Trigger type: Regex\n```\n"@
    } else {
        "Trigger type: Starting literal\n```\n"@
    }
}

/// The reply to `show`: the rule's type and script, "not found", or nothing
/// when storage failed (the failure is only logged).
pub fn show(pattern: &String, lookup: &Result<Option<String>, StoreError>) -> (r: Option<String>)
    ensures
        match lookup {
            Ok(Some(code)) => r matches Some(s) && s@ == show_header(pattern@) + code@ + "\n```"@,
            Ok(None) => r matches Some(s) && s@ == "Trigger not found"@,
            Err(_) => r is None,
        },
{
    match lookup {
        Ok(Some(code)) => {
            let cs = chars_of(pattern.as_str());
            let mut s = if cs.len() > 0 && cs[0] == '&' {
                String::from_str("Trigger type: Literal```\n")
            } else if cs.len() > 0 && cs[0] == '?' {
                String::from_str("Trigger type: Regex\n```\n")
            } else {
                String::from_str("Trigger type: Starting literal\n```\n")
            };
            s.append(code.as_str());
            s.append("\n```");
            Some(s)
        },
        Ok(None) => Some(String::from_str("Trigger not found")),
        Err(_) => None,
    }
}

/// The reply to `event_show`: the script in a code block, "not found", or
/// nothing when storage failed (the failure is only logged).
pub fn event_show(lookup: &Result<Option<String>, StoreError>) -> (r: Option<String>)
    ensures
        match lookup {
            Ok(Some(code)) => r matches Some(s) && s@ == "```\n"@ + code@ + "\n```"@,
            Ok(None) => r matches Some(s) && s@ == "Event not found"@,
            Err(_) => r is None,
        },
{
    match lookup {
        Ok(Some(code)) => {
            let mut s = String::from_str("```\n");
            s.append(code.as_str());
            s.append("\n```");
            Some(s)
        },
        Ok(None) => Some(String::from_str("Event not found")),
        Err(_) => None,
    }
}

/// The reply to `prefix`: with a new prefix, whether it was stored; without
/// one, the current prefix.
pub fn prefix(new_prefix: &Option<String>, updated: bool, current: &String) -> (r: String)
    ensures
        r@ == match new_prefix {
            Some(p) => if updated {
                "Your prefix has been updated to `"@ + p@ + "`"@
            } else {
                "Could not update the prefix"@
            },
            None => "Your current prefix is: `"@ + current@ + "`"@,
        },
{
    match new_prefix {
        Some(p) => if updated {
            let mut s = String::from_str("Your prefix has been updated to `");
            s.append(p.as_str());
            s.append("`");
            s
        } else {
            String::from_str("Could not update the prefix")
        },
        None => {
            let mut s = String::from_str("Your current prefix is: `");
            s.append(current.as_str());
            s.append("`");
            s
        },
    }
}

/// The number std's `u64` parsing reads from `s`: decimal digits with an optional leading `+`.
pub open spec fn u64_of(s: Seq<char>) -> Option<u64> {
    if s.len() > 0 && s[0] == '+' {
        id_of(s.skip(1))
    } else {
        id_of(s)
    }
}

/// The id an argument names: the id inside a mention `open...>` when it is
/// one, the argument read as a number otherwise.
pub open spec fn mention_or_id(s: Seq<char>, open: Seq<char>) -> Option<u64> {
    if s.len() >= 4 && open.is_prefix_of(s) && s.last() == '>' && u64_of(
        s.subrange(open.len() as int, s.len() - 1),
    ) is Some {
        u64_of(s.subrange(open.len() as int, s.len() - 1))
    } else {
        u64_of(s)
    }
}

fn u64_from(cs: &Vec<char>, lo: usize, hi: usize) -> (r: Option<u64>)
    requires
        lo <= hi <= cs.len(),
    ensures
        r == u64_of(cs@.subrange(lo as int, hi as int)),
{
    let ghost sub = cs@.subrange(lo as int, hi as int);
    if lo < hi && cs[lo] == '+' {
        let digits = string_of_range(cs, lo + 1, hi);
        assert(sub.skip(1) == cs@.subrange(lo + 1, hi as int));
        parse_id(digits.as_str())
    } else {
        let digits = string_of_range(cs, lo, hi);
        parse_id(digits.as_str())
    }
}

/// Reads an id argument: a mention opened by `open` (`<@&` for a role, `<#`
/// for a channel) and closed by `>`, or a plain number.
pub fn parse_mention_or_id(arg: &str, open: &str) -> (r: Option<u64>)
    requires
        open@.len() <= 3,
    ensures
        r == mention_or_id(arg@, open@),
{
    let cs = chars_of(arg);
    let o = chars_of(open);
    let n = cs.len();
    if n >= 4 && crate::text::occurs_at_exec(&cs, &o, 0) && cs[n - 1] == '>' {
        assert(o@.is_prefix_of(cs@)) by {
            assert(cs@.subrange(0, o@.len() as int) == o@);
        }
        match u64_from(&cs, o.len(), n - 1) {
            Some(id) => {
                return Some(id);
            },
            None => {},
        }
    } else {
        assert(!(n >= 4 && o@.is_prefix_of(cs@) && cs@.last() == '>')) by {
            if n >= 4 && o@.is_prefix_of(cs@) && cs@.last() == '>' {
                assert(cs@.subrange(0, o@.len() as int) == o@);
            }
        }
    }
    let r = u64_from(&cs, 0, n);
    assert(cs@.subrange(0, n as int) == cs@);
    r
}

/// The new admin role of the `admin` command: the first mentioned role, else
/// the argument read as a role id or mention, else the role the argument names.
pub fn admin(mentioned: &Vec<u64>, arg: &str, named: Option<u64>) -> (r: Option<u64>)
    ensures
        r == (if mentioned@.len() > 0 {
            Some(mentioned@[0])
        } else {
            match mention_or_id(arg@, "<@&"@) {
                Some(id) => Some(id),
                None => named,
            }
        }),
{
    if mentioned.len() > 0 {
        return Some(mentioned[0]);
    }
    proof {
        reveal_strlit("<@&");
    }
    match parse_mention_or_id(arg, "<@&") {
        Some(id) => Some(id),
        None => named,
    }
}

/// The new error channel of the `error_channel` command: the first mentioned
/// channel, else the argument read as a channel id or mention, else the
/// channel the argument names.
pub fn error_channel(mentioned: &Vec<u64>, arg: &str, named: Option<u64>) -> (r: Option<u64>)
    ensures
        r == (if mentioned@.len() > 0 {
            Some(mentioned@[0])
        } else {
            match mention_or_id(arg@, "<#"@) {
                Some(id) => Some(id),
                None => named,
            }
        }),
{
    if mentioned.len() > 0 {
        return Some(mentioned[0]);
    }
    proof {
        reveal_strlit("<#");
    }
    match parse_mention_or_id(arg, "<#") {
        Some(id) => Some(id),
        None => named,
    }
}

/// The reply to a configuration update, from whether a row was written.
pub fn update_reply(what: &str, updated: bool) -> (r: String)
    ensures
        r@ == (if updated {
            "Your "@ + what@ + " has been updated"@
        } else {
            "The update has failed"@
        }),
{
    if updated {
        let mut s = String::from_str("Your ");
        s.append(what);
        s.append(" has been updated");
        s
    } else {
        String::from_str("The update has failed")
    }
}

/// The reply posted in the channel of a message whose script failed while running.
pub fn interpretation_error_reply(error: &ScriptError) -> (r: Option<String>)
    ensures
        match error {
            ScriptError::InterpretationError(e) => r matches Some(s) && s@
                == "An error happened during interpretation: `"@ + e@ + "`"@,
            _ => r is None,
        },
{
    match error {
        ScriptError::InterpretationError(e) => {
            let mut s = String::from_str("An error happened during interpretation: `");
            s.append(e.as_str());
            s.append("`");
            Some(s)
        },
        _ => None,
    }
}

} // verus!
