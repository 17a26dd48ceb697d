//! Templates: a source text with the placeholders found in it, and the
//! rendering of it with data.
use crate::error::{missing_data_message, TemplateError, TemplateErrorKind, TemplateErrorView};
use crate::lookup::Lookup;
use crate::matcher::{
    compiled, default_template, entries_fit, entries_of, every_match_names, get_matches,
    regex_captures, try_get_matches, MatchEntry, DEFAULT_PATTERN,
};
use crate::rendering::{
    covers, cursor_after, first_missing, rendered, rendered_strictly, rendered_upto,
};
use crate::text::{
    is_span, lemma_span_between, lemma_span_ends, lemma_whole_span, slice, slice_from, Text,
};
use regex::Regex;
use std::collections::HashMap;
use vstd::prelude::*;
use vstd::utf8::*;

verus! {

/// A source text and the placeholders that a pattern found in it.
#[derive(Debug, PartialEq)]
pub struct Template {
    src: String,
    matches: Vec<MatchEntry>,
}

/// A template as a value: the characters of its source and its
/// placeholders, from left to right.
pub struct TemplateView {
    pub source: Seq<char>,
    pub entries: Seq<MatchEntry>,
}

impl TemplateView {
    /// Whether the placeholders lie in the source, one after the other
    /// without overlap.
    pub open spec fn well_formed(self) -> bool {
        entries_fit(self.entries, self.source)
    }

    /// The output where a placeholder without a value is left as written.
    pub open spec fn rendered(self, data: Map<Seq<char>, Seq<char>>) -> Seq<char> {
        rendered(self.source, self.entries, data)
    }

    /// The outcome where a placeholder without a value is an error: the
    /// output, or the name of the first placeholder without a value.
    pub open spec fn rendered_strictly(self, data: Map<Seq<char>, Seq<char>>) -> Result<
        Seq<char>,
        Seq<char>,
    > {
        rendered_strictly(self.source, self.entries, data)
    }

    /// Whether the data has a value for the name of every placeholder.
    pub open spec fn is_covered_by(self, data: Map<Seq<char>, Seq<char>>) -> bool {
        covers(self.source, self.entries, data)
    }
}

/// Whether a strict rendering's result is the given outcome: the output, or
/// the error for the name that has no value.
pub open spec fn is_outcome(
    output: Result<String, TemplateError>,
    outcome: Result<Seq<char>, Seq<char>>,
) -> bool {
    match output {
        Ok(text) => outcome == Ok::<Seq<char>, Seq<char>>(text@),
        Err(error) => {
            &&& outcome matches Err(name)
            &&& error@ == (TemplateErrorView {
                kind: TemplateErrorKind::MissingData,
                message: missing_data_message(name),
            })
        },
    }
}

/// The placeholders that a pattern marks in a text: those of its matches
/// where every match has a name, none otherwise.
pub open spec fn usable_entries(regex: Regex, source: Seq<char>) -> Seq<MatchEntry> {
    if every_match_names(regex_captures(regex, source)) {
        entries_of(regex_captures(regex, source))
    } else {
        Seq::empty()
    }
}

/// The placeholders that the built-in pattern marks in a text; none where
/// the pattern is refused.
pub open spec fn default_entries(source: Seq<char>) -> Seq<MatchEntry> {
    match compiled(DEFAULT_PATTERN@) {
        Some(regex) => usable_entries(regex, source),
        None => Seq::empty(),
    }
}

impl View for Template {
    type V = TemplateView;

    closed spec fn view(&self) -> TemplateView {
        TemplateView { source: self.src@, entries: self.matches@ }
    }
}

impl Template {
    /// What holds of every template: its placeholders lie in its source, one
    /// after the other without overlap.
    #[verifier::type_invariant]
    pub open spec fn well_formed(&self) -> bool {
        self@.well_formed()
    }

    /// A template of `template` with the placeholders that the built-in
    /// pattern finds in it ([`default_entries`]).
    pub fn new<T: Text>(template: T) -> (created: Self)
        ensures
            created.well_formed(),
            created@.source == template.text(),
            created@.entries == default_entries(template.text()),
    {
        let literal = Template { src: String::from_str(template.as_text()), matches: Vec::new() };
        match default_template() {
            Some(regex) => match literal.try_with_regex(&regex) {
                Ok(changed) => changed,
                Err(unchanged) => unchanged,
            },
            None => literal,
        }
    }

    /// The same source with the placeholders that `regex` finds in it.
    ///
    /// The first capture group of `regex` is the name of a placeholder, so
    /// every match must have one.
    #[must_use]
    pub fn with_regex(self, regex: &Regex) -> (changed: Self)
        requires
            every_match_names(regex_captures(*regex, self@.source)),
        ensures
            changed.well_formed(),
            changed@.source == self@.source,
            changed@.entries == entries_of(regex_captures(*regex, self@.source)),
    {
        let matches = get_matches(regex, self.src.as_str());
        Template { src: self.src, matches }
    }

    /// The same source with the placeholders that `regex` finds in it, or
    /// the template as it was where a match of `regex` has no name.
    pub fn try_with_regex(self, regex: &Regex) -> (outcome: Result<Self, Self>)
        ensures
            outcome is Ok <==> every_match_names(regex_captures(*regex, self@.source)),
            outcome matches Ok(changed) ==> {
                &&& changed.well_formed()
                &&& changed@.source == self@.source
                &&& changed@.entries == entries_of(regex_captures(*regex, self@.source))
            },
            outcome matches Err(unchanged) ==> unchanged == self,
    {
        match try_get_matches(regex, self.src.as_str()) {
            Some(matches) => Ok(Template { src: self.src, matches }),
            None => Err(self),
        }
    }

    /// Renders the template: the source with each placeholder replaced by
    /// the value under its name. Where the data has no such name, the
    /// placeholder is an error if `fail` is set and stays as written if not.
    ///
    /// Nothing of the output comes with an error, and the template and the
    /// data are as they were.
    pub fn render_internal<L: Lookup>(&self, values: &L, fail: bool) -> (output: Result<
        String,
        TemplateError,
    >)
        ensures
            fail ==> is_outcome(output, self@.rendered_strictly(values.data())),
            !fail ==> (output matches Ok(text) && text@ == self@.rendered(values.data())),
            self@.is_covered_by(values.data()) ==> output is Ok,
    {
        let ghost text = self@.source;
        let ghost entries = self@.entries;
        let ghost data = values.data();
        let source = self.src.as_str();
        proof {
            use_type_invariant(self);
            lemma_whole_span(text);
            lemma_span_ends(text, 0, encode_utf8(text).len() as int);
        }
        if self.matches.len() == 0 {
            return Ok(self.src.clone());
        }
        let mut output = String::new();
        let mut cursor: usize = 0;
        let mut index: usize = 0;
        while index < self.matches.len()
            invariant
                index <= self.matches.len(),
                source@ == text,
                self@.source == text,
                self@.entries == entries,
                values.data() == data,
                entries_fit(entries, text),
                cursor == cursor_after(entries, index as int),
                is_span(text, cursor as int, cursor as int),
                output@ == rendered_upto(text, entries, data, index as nat),
                fail ==> first_missing(text, entries, data, 0) == first_missing(
                    text,
                    entries,
                    data,
                    index as int,
                ),
            decreases self.matches.len() - index,
        {
            let entry = self.matches[index];
            proof {
                lemma_span_ends(text, entry.full_match_start as int, entry.full_match_end as int);
                lemma_span_between(text, cursor as int, entry.full_match_start as int);
            }
            output.append(slice(source, cursor, entry.full_match_start));
            let name = slice(source, entry.value_name_start, entry.value_name_end);
            match values.lookup(name) {
                Some(value) => {
                    output.append(value);
                },
                None => {
                    if fail {
                        return Err(TemplateError::missing_data(name));
                    }
                    output.append(slice(source, entry.full_match_start, entry.full_match_end));
                },
            }
            cursor = entry.full_match_end;
            index += 1;
        }
        output.append(slice_from(source, cursor));
        Ok(output)
    }

    /// Renders the template with values keyed by string slices.
    ///
    /// Fails on the first placeholder whose name the data does not have.
    pub fn render<V: Text>(&self, values: &HashMap<&str, V>) -> (output: Result<
        String,
        TemplateError,
    >)
        ensures
            is_outcome(output, self@.rendered_strictly(values.data())),
            self@.is_covered_by(values.data()) ==> output is Ok,
    {
        self.render_internal(values, true)
    }

    /// Renders the template with values keyed by owned strings.
    ///
    /// Fails on the first placeholder whose name the data does not have.
    pub fn render_string<V: Text>(&self, values: &HashMap<String, V>) -> (output: Result<
        String,
        TemplateError,
    >)
        ensures
            is_outcome(output, self@.rendered_strictly(values.data())),
            self@.is_covered_by(values.data()) ==> output is Ok,
    {
        self.render_internal(values, true)
    }

    /// Renders the template with values keyed by string slices. A
    /// placeholder whose name the data does not have stays as written.
    #[must_use]
    pub fn render_nofail<V: Text>(&self, values: &HashMap<&str, V>) -> (output: String)
        ensures
            output@ == self@.rendered(values.data()),
    {
        match self.render_internal(values, false) {
            Ok(text) => text,
            Err(_) => unreached(),
        }
    }

    /// Renders the template with values keyed by owned strings. A
    /// placeholder whose name the data does not have stays as written.
    #[must_use]
    pub fn render_nofail_string<V: Text>(&self, values: &HashMap<String, V>) -> (output: String)
        ensures
            output@ == self@.rendered(values.data()),
    {
        match self.render_internal(values, false) {
            Ok(text) => text,
            Err(_) => unreached(),
        }
    }
}

impl Clone for Template {
    fn clone(&self) -> (copy: Self)
        ensures
            copy@ == self@,
    {
        proof {
            use_type_invariant(self);
        }
        Template { src: self.src.clone(), matches: self.matches.clone() }
    }
}

/// Matching is repeatable: two templates of the same source that hold what
/// the same pattern finds in it are the same template.
pub proof fn lemma_same_pattern_same_entries(first: Template, second: Template, regex: Regex)
    requires
        first@.source == second@.source,
        first@.entries == entries_of(regex_captures(regex, first@.source)),
        second@.entries == entries_of(regex_captures(regex, second@.source)),
    ensures
        first@ == second@,
{
}

/// Matching with the built-in pattern is repeatable: two templates of the
/// same source that hold what the built-in pattern finds in it are the same
/// template.
pub proof fn lemma_default_pattern_same_entries(first: Template, second: Template)
    requires
        first@.source == second@.source,
        first@.entries == default_entries(first@.source),
        second@.entries == default_entries(second@.source),
    ensures
        first@ == second@,
{
}

} // verus!
