//! The search boxes that filter the rows of the branch, kernel and scheduler lists.

use vstd::prelude::*;

use crate::text::{contains, lemma_contains_embedded, seq_contains, spec_to_lowercase, to_lowercase};

verus! {

/// A lower-cased query occurs in one of a row's two lower-cased texts.
pub open spec fn search_hit(first_lc: Seq<char>, second_lc: Seq<char>, query_lc: Seq<char>) -> bool {
    seq_contains(first_lc, query_lc) || seq_contains(second_lc, query_lc)
}

/// A row stays visible when the query is empty, or when the lower-cased query
/// occurs in the lower-cased text of one of its two fields (title and subtitle,
/// or title and package name).
pub open spec fn row_shown(query: Seq<char>, first: Seq<char>, second: Seq<char>) -> bool {
    query.len() == 0 || search_hit(
        spec_to_lowercase(first),
        spec_to_lowercase(second),
        spec_to_lowercase(query),
    )
}

/// Whether a lower-cased query occurs in one of two lower-cased texts.
pub fn matches_lowercased(first_lc: &str, second_lc: &str, query_lc: &str) -> (r: bool)
    ensures
        r == search_hit(first_lc@, second_lc@, query_lc@),
{
    contains(first_lc, query_lc) || contains(second_lc, query_lc)
}

/// Whether a row stays visible for the text in the search box.
pub fn row_visible(query: &str, first: &str, second: &str) -> (r: bool)
    ensures
        r == row_shown(query@, first@, second@),
{
    if query.is_empty() {
        return true;
    }
    let first_lc = to_lowercase(first);
    let second_lc = to_lowercase(second);
    let query_lc = to_lowercase(query);
    matches_lowercased(first_lc.as_str(), second_lc.as_str(), query_lc.as_str())
}


/// For a non-empty query a row is shown exactly when the lower-cased query
/// occurs in the lower-cased first field or in the lower-cased second field;
/// the empty query shows every row.
pub proof fn lemma_row_shown_either_field(query: Seq<char>, first: Seq<char>, second: Seq<char>)
    ensures
        query.len() == 0 ==> row_shown(query, first, second),
        query.len() > 0 ==> (row_shown(query, first, second) <==> (seq_contains(
            spec_to_lowercase(first),
            spec_to_lowercase(query),
        ) || seq_contains(spec_to_lowercase(second), spec_to_lowercase(query)))),
{
}

/// A row whose lower-cased first field holds the lower-cased query is shown,
/// whatever its second field holds.
pub proof fn lemma_first_field_match_shows(query: Seq<char>, first: Seq<char>, second: Seq<char>, before: Seq<char>, after: Seq<char>)
    requires
        spec_to_lowercase(first) == before + spec_to_lowercase(query) + after,
    ensures
        row_shown(query, first, second),
{
    lemma_contains_embedded(before, spec_to_lowercase(query), after);
}

/// A row whose lower-cased second field holds the lower-cased query is shown,
/// whatever its first field holds.
pub proof fn lemma_second_field_match_shows(query: Seq<char>, first: Seq<char>, second: Seq<char>, before: Seq<char>, after: Seq<char>)
    requires
        spec_to_lowercase(second) == before + spec_to_lowercase(query) + after,
    ensures
        row_shown(query, first, second),
{
    lemma_contains_embedded(before, spec_to_lowercase(query), after);
}

} // verus!
