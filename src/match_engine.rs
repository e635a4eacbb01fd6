//! Classification of stored trigger patterns and matching of message text.
use vstd::prelude::*;
use crate::text::{
    byte_len, chars_of, cut_first, first_occurrence, occurs_at, remove_first, string_of_range,
};

verus! {

#[verifier::external_type_specification]
#[verifier::external_body]
pub struct ExRegex(regex::Regex);

#[verifier::external_type_specification]
#[verifier::external_body]
pub struct ExRegexError(regex::Error);

/// Whether `regex::Regex::new` accepts `pattern` (valid syntax, within the default size limit).
pub uninterp spec fn regex_compiles(pattern: Seq<char>) -> bool;

/// The first match of the regular expression `pattern` in `text`, as
/// reported by `regex::Regex::find`: its start byte offset and the matched text.
pub uninterp spec fn regex_first_match(pattern: Seq<char>, text: Seq<char>) -> Option<(nat, Seq<char>)>;

/// Relies on `regex::Regex::new`: it fails exactly on patterns that do not compile.
#[verifier::external_body]
fn compile_regex(pattern: &str) -> (r: Result<regex::Regex, regex::Error>)
    ensures
        r is Ok <==> regex_compiles(pattern@),
{
    regex::Regex::new(pattern)
}

/// A compiled regular expression together with the source it was compiled from.
/// Only `MatchType::new` builds one, from `compile_regex(source)`.
pub struct RegexPattern {
    source: String,
    compiled: regex::Regex,
}

impl RegexPattern {
    /// The source text of the expression.
    pub closed spec fn source(&self) -> Seq<char> {
        self.source@
    }

    /// The source text of the expression.
    pub fn as_str(&self) -> (r: &str)
        ensures
            r@ == self.source(),
    {
        self.source.as_str()
    }
}

/// Relies on `regex::Regex::find` (with `Match::start` and `Match::as_str`):
/// the start byte offset and the text of the leftmost-first match; `compiled`
/// was built from `source`.
#[verifier::external_body]
fn regex_find(re: &RegexPattern, text: &str) -> (r: Option<(usize, String)>)
    ensures
        match r {
            Some((i, m)) => regex_first_match(re.source(), text@) == Some((i as nat, m@)),
            None => regex_first_match(re.source(), text@) is None,
        },
{
    match re.compiled.find(text) {
        Some(m) => Some((m.start(), m.as_str().to_string())),
        None => None,
    }
}

/// The matching strategy of a stored trigger, as a mathematical value.
pub enum MatchKind {
    Literal(Seq<char>),
    StartingLiteral(Seq<char>),
    Regex(Seq<char>),
}

/// A classified trigger pattern.
pub enum MatchType {
    /// Matches wherever the text contains the needle.
    Literal(String),
    /// Matches when the text starts with the prefix.
    StartingLiteral(String),
    /// Matches wherever the expression finds a match.
    Regex(RegexPattern),
}

impl View for MatchType {
    type V = MatchKind;

    open spec fn view(&self) -> MatchKind {
        match self {
            MatchType::Literal(s) => MatchKind::Literal(s@),
            MatchType::StartingLiteral(s) => MatchKind::StartingLiteral(s@),
            MatchType::Regex(r) => MatchKind::Regex(r.source()),
        }
    }
}

/// Why a pattern could not be classified.
#[derive(Debug, Clone, Copy, PartialEq, Eq, Structural)]
pub enum PatternError {
    /// The pattern starts with `?` and the rest is not a valid regular expression.
    InvalidPattern,
}

/// The classification of a stored pattern: `&` selects a literal of the rest,
/// `?` a regular expression of the rest, anything else a starting literal of
/// the whole pattern. `None` when the expression does not compile.
pub open spec fn classify(p: Seq<char>) -> Option<MatchKind> {
    if p.len() > 0 && p[0] == '&' {
        Some(MatchKind::Literal(p.skip(1)))
    } else if p.len() > 0 && p[0] == '?' {
        if regex_compiles(p.skip(1)) {
            Some(MatchKind::Regex(p.skip(1)))
        } else {
            None
        }
    } else {
        Some(MatchKind::StartingLiteral(p))
    }
}

/// `r` is what classifying the pattern `p` yields.
pub open spec fn classified_as(p: Seq<char>, r: Result<MatchType, PatternError>) -> bool {
    match r {
        Ok(m) => classify(p) == Some(m@),
        Err(e) => classify(p) is None && e == PatternError::InvalidPattern,
    }
}

/// Classifying the same stored pattern twice gives equal results: both fail,
/// or both succeed with the same strategy over the same text.
pub proof fn lemma_classify_twice(
    p: Seq<char>,
    first: Result<MatchType, PatternError>,
    second: Result<MatchType, PatternError>,
)
    requires
        classified_as(p, first),
        classified_as(p, second),
    ensures
        first is Ok <==> second is Ok,
        first is Ok ==> first->Ok_0@ == second->Ok_0@,
{
}

impl MatchType {
    /// Classifies a stored trigger pattern by its first character.
    pub fn new(trigger: String) -> (r: Result<MatchType, PatternError>)
        ensures
            classified_as(trigger@, r),
    {
        let cs = chars_of(trigger.as_str());
        if cs.len() > 0 && cs[0] == '&' {
            let needle = string_of_range(&cs, 1, cs.len());
            Ok(MatchType::Literal(needle))
        } else if cs.len() > 0 && cs[0] == '?' {
            let source = string_of_range(&cs, 1, cs.len());
            match compile_regex(source.as_str()) {
                Ok(compiled) => Ok(MatchType::Regex(RegexPattern { source, compiled })),
                Err(_) => Err(PatternError::InvalidPattern),
            }
        } else {
            Ok(MatchType::StartingLiteral(trigger))
        }
    }
}

/// A successful match, as a mathematical value.
pub struct MatchSpan {
    pub matched: Seq<char>,
    pub index: nat,
    pub rest: Seq<char>,
}

/// The result of [check_match]
/// # Fields
/// * `matched`: The string that matched the input
/// * `rest`: The input without the `matched` part
/// * `index`: Where the match occurred, in bytes
#[derive(Debug, Clone, Hash, PartialEq, PartialOrd)]
pub struct MatchResult {
    pub matched: String,
    pub rest: String,
    pub index: usize,
}

impl View for MatchResult {
    type V = MatchSpan;

    open spec fn view(&self) -> MatchSpan {
        MatchSpan { matched: self.matched@, index: self.index as nat, rest: self.rest@ }
    }
}

/// What matching `text` against a classified pattern yields.
pub open spec fn match_spec(text: Seq<char>, kind: MatchKind) -> Option<MatchSpan> {
    match kind {
        MatchKind::Literal(needle) => match first_occurrence(text, needle) {
            Some(i) => Some(
                MatchSpan {
                    matched: needle,
                    index: byte_len(text.take(i as int)),
                    rest: remove_first(text, needle),
                },
            ),
            None => None,
        },
        MatchKind::StartingLiteral(prefix) => if prefix.is_prefix_of(text) {
            Some(MatchSpan { matched: prefix, index: 0, rest: text.skip(prefix.len() as int) })
        } else {
            None
        },
        MatchKind::Regex(source) => match regex_first_match(source, text) {
            Some((i, m)) => Some(MatchSpan { matched: m, index: i, rest: remove_first(text, m) }),
            None => None,
        },
    }
}

/// Matches `text` against `to_check`
pub fn check_match(text: &str, to_check: MatchType) -> (r: Option<MatchResult>)
    ensures
        match r {
            Some(m) => match_spec(text@, to_check@) == Some(m@),
            None => match_spec(text@, to_check@) is None,
        },
{
    match to_check {
        MatchType::Literal(matcher) => {
            match cut_first(text, matcher.as_str()) {
                Some((index, rest)) => Some(MatchResult { matched: matcher, index, rest }),
                None => None,
            }
        },
        MatchType::StartingLiteral(matcher) => {
            let t = chars_of(text);
            let m = chars_of(matcher.as_str());
            if m.len() <= t.len() && crate::text::occurs_at_exec(&t, &m, 0) {
                let rest = string_of_range(&t, m.len(), t.len());
                assert(t@.subrange(m.len() as int, t.len() as int) == text@.skip(m.len() as int));
                assert(matcher@.is_prefix_of(text@));
                Some(MatchResult { matched: matcher, index: 0, rest })
            } else {
                assert(matcher@.is_prefix_of(text@) ==> occurs_at(text@, matcher@, 0)) by {
                    if matcher@.is_prefix_of(text@) {
                        assert(text@.subrange(0, matcher@.len() as int) == matcher@);
                    }
                }
                None
            }
        },
        MatchType::Regex(regex) => {
            match regex_find(&regex, text) {
                Some((index, matched)) => {
                    let rest = match cut_first(text, matched.as_str()) {
                        Some((_, rest)) => rest,
                        None => text.to_owned(),
                    };
                    Some(MatchResult { matched, index, rest })
                },
                None => None,
            }
        },
    }
}

} // verus!
