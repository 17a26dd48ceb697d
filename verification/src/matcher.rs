//! Finding placeholders in a text with a pattern.
//!
//! The pattern is a compiled regular expression. Each of its matches marks a
//! placeholder: the whole match is the placeholder as written, and the first
//! capture group is the placeholder's name.
use crate::text::is_span;
use regex::Regex;
use vstd::prelude::*;

verus! {

/// The built-in pattern: a name without whitespace between braces, with
/// optional whitespace on either side of it. The name is matched lazily, so
/// it ends at the first closing brace that can end it.
pub const DEFAULT_PATTERN: &'static str = r"(?mi)\{\s*(\S+?)\s*\}";

/// `regex::Regex`, a compiled regular expression. Nothing is known of its
/// inside; what it matches is told through [`regex_captures`].
#[verifier::external_type_specification]
#[verifier::external_body]
pub struct ExRegex(regex::Regex);

/// One match of a pattern, as byte offsets into the text searched: the whole
/// match, and the first capture group where it took part in the match.
#[derive(Debug, Clone, Copy, PartialEq)]
pub struct Capture {
    pub full_match: (usize, usize),
    pub value_name: Option<(usize, usize)>,
}

/// Where a placeholder stands in a text, as byte offsets: the placeholder as
/// written and, inside it, its name. Both ends are exclusive.
#[derive(Debug, Clone, Copy, PartialEq)]
pub struct MatchEntry {
    pub full_match_start: usize,
    pub full_match_end: usize,
    pub value_name_start: usize,
    pub value_name_end: usize,
}

impl MatchEntry {
    /// An entry from the span of the whole placeholder and the span of its
    /// name.
    pub fn new(full_match: (usize, usize), value_name: (usize, usize)) -> (entry: Self)
        ensures
            entry == (MatchEntry {
                full_match_start: full_match.0,
                full_match_end: full_match.1,
                value_name_start: value_name.0,
                value_name_end: value_name.1,
            }),
    {
        MatchEntry {
            full_match_start: full_match.0,
            full_match_end: full_match.1,
            value_name_start: value_name.0,
            value_name_end: value_name.1,
        }
    }
}

/// What `regex::Regex::new` makes of a pattern: a regular expression, or
/// nothing where the pattern is refused.
pub uninterp spec fn compiled(pattern: Seq<char>) -> Option<Regex>;

/// What `regex::Regex::captures_iter` yields for a text: the matches of the
/// regular expression, from left to right.
pub uninterp spec fn regex_captures(regex: Regex, text: Seq<char>) -> Seq<Capture>;

/// Whether a match lies in `source`: the whole match is a span of it, and so
/// is the name, inside the whole match.
pub open spec fn capture_fits(capture: Capture, source: Seq<char>) -> bool {
    &&& is_span(source, capture.full_match.0 as int, capture.full_match.1 as int)
    &&& capture.value_name matches Some(name) ==> {
        &&& is_span(source, name.0 as int, name.1 as int)
        &&& capture.full_match.0 <= name.0
        &&& name.1 <= capture.full_match.1
    }
}

/// Whether matches lie in `source` one after the other without overlap.
pub open spec fn captures_fit(captures: Seq<Capture>, source: Seq<char>) -> bool {
    &&& forall|i: int| 0 <= i < captures.len() ==> capture_fits(#[trigger] captures[i], source)
    &&& forall|i: int|
        0 < i < captures.len() ==> captures[i - 1].full_match.1 <= (
        #[trigger] captures[i]).full_match.0
}

/// Compiles a pattern.
///
/// Calls `regex::Regex::new` and drops the reason of a refusal. The contract
/// claims only that the outcome is a function of the pattern's text.
#[verifier::external_body]
fn compile(pattern: &str) -> (regex: Option<Regex>)
    ensures
        regex == compiled(pattern@),
{
    Regex::new(pattern).ok()
}

/// Runs a regular expression over a text.
///
/// Calls `regex::Regex::captures_iter` and reads from each `Captures` that it
/// yields the offsets of the whole match (`get_match`) and of the first
/// capture group (`get(1)`, which is `None` where the pattern has no such
/// group or the group took no part in the match). The contract claims that
/// the outcome is a function of the regular expression and the text, and what
/// the crate documents of the offsets: `Match::start` and `Match::end` are in
/// order and fall on UTF-8 boundaries of the text searched, a group is part
/// of its match, and the iterator yields successive matches that do not
/// overlap.
#[verifier::external_body]
fn find_captures(regex: &Regex, text: &str) -> (found: Vec<Capture>)
    ensures
        found@ == regex_captures(*regex, text@),
        captures_fit(found@, text@),
{
    regex.captures_iter(text).map(|captures| {
        let whole = captures.get_match();
        Capture {
            full_match: (whole.start(), whole.end()),
            value_name: captures.get(1).map(|name| (name.start(), name.end())),
        }
    }).collect()
}

/// The built-in pattern, compiled.
pub fn default_template() -> (regex: Option<Regex>)
    ensures
        regex == compiled(DEFAULT_PATTERN@),
{
    compile(DEFAULT_PATTERN)
}

/// Whether a placeholder lies in `source`: the placeholder and its name are
/// spans of it, the name inside the placeholder.
pub open spec fn entry_fits(entry: MatchEntry, source: Seq<char>) -> bool {
    &&& is_span(source, entry.full_match_start as int, entry.full_match_end as int)
    &&& is_span(source, entry.value_name_start as int, entry.value_name_end as int)
    &&& entry.full_match_start <= entry.value_name_start
    &&& entry.value_name_end <= entry.full_match_end
}

/// Whether placeholders lie in `source` one after the other without overlap.
pub open spec fn entries_fit(entries: Seq<MatchEntry>, source: Seq<char>) -> bool {
    &&& forall|i: int| 0 <= i < entries.len() ==> entry_fits(#[trigger] entries[i], source)
    &&& forall|i: int|
        0 < i < entries.len() ==> entries[i - 1].full_match_end <= (
        #[trigger] entries[i]).full_match_start
}

/// Whether every match has a name, that is, the first capture group took
/// part in each.
pub open spec fn every_match_names(captures: Seq<Capture>) -> bool {
    forall|i: int| 0 <= i < captures.len() ==> (#[trigger] captures[i]).value_name is Some
}

/// The placeholder that a match with a name marks.
pub open spec fn entry_of(capture: Capture) -> MatchEntry
    recommends
        capture.value_name is Some,
{
    let value_name = capture.value_name.unwrap();
    MatchEntry {
        full_match_start: capture.full_match.0,
        full_match_end: capture.full_match.1,
        value_name_start: value_name.0,
        value_name_end: value_name.1,
    }
}

/// The placeholders that matches mark, in the same order.
pub open spec fn entries_of(captures: Seq<Capture>) -> Seq<MatchEntry> {
    Seq::new(captures.len(), |i: int| entry_of(captures[i]))
}

/// Turns matches into placeholders. There is a result exactly when every
/// match has a name.
pub fn entries_from_captures(captures: &Vec<Capture>) -> (entries: Option<Vec<MatchEntry>>)
    ensures
        entries is Some <==> every_match_names(captures@),
        entries matches Some(list) ==> list@ == entries_of(captures@),
{
    let mut list: Vec<MatchEntry> = Vec::with_capacity(captures.len());
    let mut index: usize = 0;
    while index < captures.len()
        invariant
            index <= captures.len(),
            list@ == entries_of(captures@.take(index as int)),
            every_match_names(captures@.take(index as int)),
        decreases captures.len() - index,
    {
        let capture = captures[index];
        match capture.value_name {
            Some(value_name) => {
                list.push(MatchEntry::new(capture.full_match, value_name));
            },
            None => {
                return None;
            },
        }
        index += 1;
    }
    proof {
        assert(captures@.take(index as int) == captures@);
    }
    Some(list)
}

/// The placeholders that a pattern finds in a text.
///
/// Every match must have a name: a pattern without a capture group, or one
/// whose first group can stay out of a match, is not a placeholder pattern.
pub fn get_matches(regex: &Regex, template: &str) -> (matches: Vec<MatchEntry>)
    requires
        every_match_names(regex_captures(*regex, template@)),
    ensures
        matches@ == entries_of(regex_captures(*regex, template@)),
        entries_fit(matches@, template@),
{
    let found = find_captures(regex, template);
    entries_from_captures(&found).unwrap()
}

/// The placeholders that a pattern finds in a text, or `None` where one of
/// its matches has no name.
pub fn try_get_matches(regex: &Regex, template: &str) -> (matches: Option<Vec<MatchEntry>>)
    ensures
        matches is Some <==> every_match_names(regex_captures(*regex, template@)),
        matches matches Some(list) ==> {
            &&& list@ == entries_of(regex_captures(*regex, template@))
            &&& entries_fit(list@, template@)
        },
{
    let found = find_captures(regex, template);
    entries_from_captures(&found)
}

} // verus!
