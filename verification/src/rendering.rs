//! What rendering produces, as a function of the source text, the
//! placeholders found in it and the data.
use crate::matcher::{entries_fit, MatchEntry};
use crate::text::{
    is_span, lemma_span_between, lemma_span_bytes, lemma_span_ends, lemma_spans_join,
    lemma_whole_span, text_between,
};
use vstd::prelude::*;
use vstd::utf8::*;

verus! {

/// The name of a placeholder.
pub open spec fn name_of(source: Seq<char>, entry: MatchEntry) -> Seq<char> {
    text_between(source, entry.value_name_start as int, entry.value_name_end as int)
}

/// A placeholder as it is written in the source.
pub open spec fn placeholder_of(source: Seq<char>, entry: MatchEntry) -> Seq<char> {
    text_between(source, entry.full_match_start as int, entry.full_match_end as int)
}

/// What stands in place of a placeholder: the value under its name, or the
/// placeholder itself where the data has no such name.
pub open spec fn substituted(
    source: Seq<char>,
    entry: MatchEntry,
    data: Map<Seq<char>, Seq<char>>,
) -> Seq<char> {
    if data.contains_key(name_of(source, entry)) {
        data[name_of(source, entry)]
    } else {
        placeholder_of(source, entry)
    }
}

/// The offset up to which the source is used once the first `count`
/// placeholders are done.
pub open spec fn cursor_after(entries: Seq<MatchEntry>, count: int) -> int {
    if count <= 0 {
        0
    } else {
        entries[count - 1].full_match_end as int
    }
}

/// The literal text between placeholder `index` and the one before it, or
/// the start of the source.
pub open spec fn literal_before(source: Seq<char>, entries: Seq<MatchEntry>, index: int) -> Seq<
    char,
> {
    text_between(source, cursor_after(entries, index), entries[index].full_match_start as int)
}

/// The literal text after the last placeholder.
pub open spec fn literal_after(source: Seq<char>, entries: Seq<MatchEntry>) -> Seq<char> {
    text_between(
        source,
        cursor_after(entries, entries.len() as int),
        encode_utf8(source).len() as int,
    )
}

/// The output up to and including the first `count` placeholders.
pub open spec fn rendered_upto(
    source: Seq<char>,
    entries: Seq<MatchEntry>,
    data: Map<Seq<char>, Seq<char>>,
    count: nat,
) -> Seq<char>
    decreases count,
{
    if count == 0 {
        Seq::empty()
    } else {
        rendered_upto(source, entries, data, (count - 1) as nat) + literal_before(
            source,
            entries,
            count - 1,
        ) + substituted(source, entries[count - 1], data)
    }
}

/// The whole output where a placeholder without a value is left as written.
pub open spec fn rendered(
    source: Seq<char>,
    entries: Seq<MatchEntry>,
    data: Map<Seq<char>, Seq<char>>,
) -> Seq<char> {
    rendered_upto(source, entries, data, entries.len()) + literal_after(source, entries)
}

/// The index of the first placeholder at or after `from` whose name the data
/// does not have; the number of placeholders where there is none.
pub open spec fn first_missing(
    source: Seq<char>,
    entries: Seq<MatchEntry>,
    data: Map<Seq<char>, Seq<char>>,
    from: int,
) -> int
    decreases entries.len() - from,
{
    if from < 0 || from >= entries.len() {
        entries.len() as int
    } else if !data.contains_key(name_of(source, entries[from])) {
        from
    } else {
        first_missing(source, entries, data, from + 1)
    }
}

/// The outcome where a placeholder without a value is an error: the output,
/// or the name of the first placeholder that the data does not have.
pub open spec fn rendered_strictly(
    source: Seq<char>,
    entries: Seq<MatchEntry>,
    data: Map<Seq<char>, Seq<char>>,
) -> Result<Seq<char>, Seq<char>> {
    let index = first_missing(source, entries, data, 0);
    if index < entries.len() {
        Err(name_of(source, entries[index]))
    } else {
        Ok(rendered(source, entries, data))
    }
}

/// Whether the data has a value for the name of every placeholder.
pub open spec fn covers(
    source: Seq<char>,
    entries: Seq<MatchEntry>,
    data: Map<Seq<char>, Seq<char>>,
) -> bool {
    forall|i: int|
        0 <= i < entries.len() ==> data.contains_key(name_of(source, #[trigger] entries[i]))
}

/// Where the data has a value for every name, no placeholder is missing
/// one.
pub proof fn lemma_covered_has_no_missing(
    source: Seq<char>,
    entries: Seq<MatchEntry>,
    data: Map<Seq<char>, Seq<char>>,
)
    requires
        covers(source, entries, data),
    ensures
        first_missing(source, entries, data, 0) == entries.len(),
        rendered_strictly(source, entries, data) == Ok::<Seq<char>, Seq<char>>(
            rendered(source, entries, data),
        ),
{
    lemma_no_missing_from(source, entries, data, 0);
}

proof fn lemma_no_missing_from(
    source: Seq<char>,
    entries: Seq<MatchEntry>,
    data: Map<Seq<char>, Seq<char>>,
    from: int,
)
    requires
        covers(source, entries, data),
        0 <= from,
    ensures
        first_missing(source, entries, data, from) == entries.len(),
    decreases entries.len() - from,
{
    if from < entries.len() {
        lemma_no_missing_from(source, entries, data, from + 1);
    }
}

/// What `first_missing` finds from the first placeholder on: every name
/// before it has a value, and the name at it, if it is a placeholder, has
/// none.
pub proof fn lemma_first_missing_is_first(
    source: Seq<char>,
    entries: Seq<MatchEntry>,
    data: Map<Seq<char>, Seq<char>>,
)
    ensures
        0 <= first_missing(source, entries, data, 0) <= entries.len(),
        forall|i: int|
            0 <= i < first_missing(source, entries, data, 0) ==> data.contains_key(
                name_of(source, #[trigger] entries[i]),
            ),
        first_missing(source, entries, data, 0) < entries.len() ==> !data.contains_key(
            name_of(source, entries[first_missing(source, entries, data, 0)]),
        ),
{
    lemma_first_missing_from(source, entries, data, 0);
}

proof fn lemma_first_missing_from(
    source: Seq<char>,
    entries: Seq<MatchEntry>,
    data: Map<Seq<char>, Seq<char>>,
    from: int,
)
    requires
        0 <= from,
    ensures
        from <= first_missing(source, entries, data, from) || entries.len() <= from,
        first_missing(source, entries, data, from) <= entries.len(),
        forall|i: int|
            from <= i < first_missing(source, entries, data, from) ==> data.contains_key(
                name_of(source, #[trigger] entries[i]),
            ),
        first_missing(source, entries, data, from) < entries.len() ==> !data.contains_key(
            name_of(source, entries[first_missing(source, entries, data, from)]),
        ),
    decreases entries.len() - from,
{
    if from < entries.len() && data.contains_key(name_of(source, entries[from])) {
        lemma_first_missing_from(source, entries, data, from + 1);
    }
}

/// A failed rendering tells the name that has no value and nothing of the
/// output: it is the same for any data that has the same names, whatever the
/// values are.
pub proof fn lemma_failure_depends_on_names_only(
    source: Seq<char>,
    entries: Seq<MatchEntry>,
    first: Map<Seq<char>, Seq<char>>,
    second: Map<Seq<char>, Seq<char>>,
)
    requires
        forall|name: Seq<char>| first.contains_key(name) == second.contains_key(name),
        rendered_strictly(source, entries, first) is Err,
    ensures
        rendered_strictly(source, entries, second) == rendered_strictly(source, entries, first),
{
    lemma_same_names_same_missing(source, entries, first, second, 0);
}

proof fn lemma_same_names_same_missing(
    source: Seq<char>,
    entries: Seq<MatchEntry>,
    first: Map<Seq<char>, Seq<char>>,
    second: Map<Seq<char>, Seq<char>>,
    from: int,
)
    requires
        forall|name: Seq<char>| first.contains_key(name) == second.contains_key(name),
    ensures
        first_missing(source, entries, first, from) == first_missing(
            source,
            entries,
            second,
            from,
        ),
    decreases entries.len() - from,
{
    if 0 <= from < entries.len() {
        lemma_same_names_same_missing(source, entries, first, second, from + 1);
    }
}

/// A source without placeholders renders to itself, whatever the data
/// holds, and never fails.
pub proof fn lemma_no_placeholders_renders_source(
    source: Seq<char>,
    data: Map<Seq<char>, Seq<char>>,
)
    ensures
        rendered(source, Seq::<MatchEntry>::empty(), data) == source,
        rendered_strictly(source, Seq::<MatchEntry>::empty(), data) == Ok::<
            Seq<char>,
            Seq<char>,
        >(source),
{
    lemma_whole_span(source);
}

/// The output up to some placeholder is the start of the output up to any
/// later one, and of the whole output.
pub proof fn lemma_output_grows(
    source: Seq<char>,
    entries: Seq<MatchEntry>,
    data: Map<Seq<char>, Seq<char>>,
    count: nat,
    later: nat,
)
    requires
        count <= later <= entries.len(),
    ensures
        rendered_upto(source, entries, data, count).is_prefix_of(
            rendered_upto(source, entries, data, later),
        ),
        rendered_upto(source, entries, data, count).is_prefix_of(rendered(source, entries, data)),
{
    lemma_upto_grows(source, entries, data, count, later);
    lemma_upto_grows(source, entries, data, count, entries.len());
}

proof fn lemma_upto_grows(
    source: Seq<char>,
    entries: Seq<MatchEntry>,
    data: Map<Seq<char>, Seq<char>>,
    count: nat,
    later: nat,
)
    requires
        count <= later,
    ensures
        rendered_upto(source, entries, data, count).is_prefix_of(
            rendered_upto(source, entries, data, later),
        ),
    decreases later - count,
{
    if count < later {
        lemma_upto_grows(source, entries, data, count, (later - 1) as nat);
    }
}

/// A placeholder whose name the data does not have stands in the output as
/// it is written in the source, byte for byte, at its place: right after the
/// output for what comes before it and the literal text in front of it.
pub proof fn lemma_missing_placeholder_is_kept(
    source: Seq<char>,
    entries: Seq<MatchEntry>,
    data: Map<Seq<char>, Seq<char>>,
    index: int,
)
    requires
        entries_fit(entries, source),
        0 <= index < entries.len(),
        !data.contains_key(name_of(source, entries[index])),
    ensures
        rendered_upto(source, entries, data, (index + 1) as nat) == rendered_upto(
            source,
            entries,
            data,
            index as nat,
        ) + literal_before(source, entries, index) + placeholder_of(source, entries[index]),
        rendered_upto(source, entries, data, (index + 1) as nat).is_prefix_of(
            rendered(source, entries, data),
        ),
        encode_utf8(placeholder_of(source, entries[index])) == encode_utf8(source).subrange(
            entries[index].full_match_start as int,
            entries[index].full_match_end as int,
        ),
{
    lemma_output_grows(source, entries, data, (index + 1) as nat, (index + 1) as nat);
    lemma_span_bytes(
        source,
        entries[index].full_match_start as int,
        entries[index].full_match_end as int,
    );
}

/// Where the data has none of the names, every placeholder is kept and the
/// output is the source.
pub proof fn lemma_nothing_found_renders_source(
    source: Seq<char>,
    entries: Seq<MatchEntry>,
    data: Map<Seq<char>, Seq<char>>,
)
    requires
        entries_fit(entries, source),
        forall|i: int|
            0 <= i < entries.len() ==> !data.contains_key(name_of(source, #[trigger] entries[i])),
    ensures
        rendered(source, entries, data) == source,
{
    let end = encode_utf8(source).len() as int;
    let cursor = cursor_after(entries, entries.len() as int);
    lemma_kept_upto(source, entries, data, entries.len());
    lemma_whole_span(source);
    lemma_span_ends(source, 0, cursor);
    lemma_span_ends(source, 0, end);
    lemma_span_between(source, cursor, end);
    lemma_spans_join(source, 0, cursor, end);
}

proof fn lemma_kept_upto(
    source: Seq<char>,
    entries: Seq<MatchEntry>,
    data: Map<Seq<char>, Seq<char>>,
    count: nat,
)
    requires
        entries_fit(entries, source),
        count <= entries.len(),
        forall|i: int|
            0 <= i < entries.len() ==> !data.contains_key(name_of(source, #[trigger] entries[i])),
    ensures
        is_span(source, 0, cursor_after(entries, count as int)),
        rendered_upto(source, entries, data, count) == text_between(
            source,
            0,
            cursor_after(entries, count as int),
        ),
    decreases count,
{
    lemma_whole_span(source);
    lemma_span_ends(source, 0, encode_utf8(source).len() as int);
    if count > 0 {
        let index = count - 1;
        let entry = entries[index];
        let cursor = cursor_after(entries, index);
        lemma_kept_upto(source, entries, data, index as nat);
        lemma_span_ends(source, 0, cursor);
        lemma_span_ends(source, entry.full_match_start as int, entry.full_match_end as int);
        lemma_span_between(source, cursor, entry.full_match_start as int);
        lemma_spans_join(source, 0, cursor, entry.full_match_start as int);
        lemma_spans_join(source, 0, entry.full_match_start as int, entry.full_match_end as int);
    }
}

} // verus!
