//! The `[Default Applications]` entry of a `mimeapps.list` file.

use vstd::prelude::*;
use crate::text::{contains, find_char, find_from, find_seq, index_of, keep_pieces, pieces, split, to_chars, copy_range, views};

verus! {

/// The section header that a `mimeapps.list` file must hold.
pub open spec fn section_header() -> Seq<char> {
    "[Default Applications]"@
}

/// End of the line that holds index `i`: its `\n`, or the end of `text`.
pub open spec fn line_end(text: Seq<char>, i: int) -> int {
    match index_of(text, '\n', i) {
        Some(e) => e,
        None => text.len() as int,
    }
}

/// The application identifiers that `text` lists for `query`, left to right.
///
/// `None` when the header is missing, when `query` occurs nowhere, or when
/// the line of its first occurrence holds no `=` from there on. Otherwise the
/// rest of that line after the `=`, cut at each `;`, each piece trimmed and
/// the empty ones left out. The match is a plain substring search: a query
/// that happens to occur inside another entry is taken there.
pub open spec fn default_app_ids_spec(text: Seq<char>, query: Seq<char>) -> Option<Seq<Seq<char>>> {
    if !contains(text, section_header()) {
        None
    } else {
        match find_from(text, query, 0) {
            None => None,
            Some(idx) => {
                let end = line_end(text, idx);
                match index_of(text, '=', idx) {
                    Some(eq) => if eq < end {
                        Some(keep_pieces(split(text.subrange(eq + 1, end), ';'), true))
                    } else {
                        None
                    },
                    None => None,
                }
            },
        }
    }
}

/// The application identifiers that a `mimeapps.list` text gives for `query`,
/// in the order in which they are to be tried.
pub fn default_app_ids(contents: &str, query: &str) -> (r: Option<Vec<String>>)
    ensures
        match r {
            Some(ids) => default_app_ids_spec(contents@, query@) == Some(views(ids@)),
            None => default_app_ids_spec(contents@, query@) is None,
        },
{
    let t = to_chars(contents);
    let header = to_chars("[Default Applications]");
    if find_seq(&t, &header, 0).is_none() {
        return None;
    }
    let q = to_chars(query);
    let idx = match find_seq(&t, &q, 0) {
        Some(i) => i,
        None => return None,
    };
    let end = match find_char(&t, '\n', idx) {
        Some(e) => e,
        None => t.len(),
    };
    let eq = match find_char(&t, '=', idx) {
        Some(k) => k,
        None => return None,
    };
    if eq >= end {
        return None;
    }
    let value = copy_range(&t, eq + 1, end);
    Some(pieces(&value, ';', true))
}

} // verus!
