//! The server-side filters of a tail session, built from the command line's
//! choices.

use vstd::prelude::*;
use crate::text::{clone_strings, owned, str_eq, texts};
use crate::types::TailFilter;

verus! {

/// The filtering choices of the command line.
#[derive(Debug)]
pub struct FilterOptions {
    /// HTTP methods to keep (`--method`), or every method.
    pub method: Option<Vec<String>>,
    /// Text to look for in the events (`--search`).
    pub search: Option<String>,
    /// Outcomes to keep, as `ok`, `error` or `canceled` (`--status`), or every
    /// outcome.
    pub status: Option<Vec<String>>,
}

/// The methods asked for when the command line names none.
pub open spec fn every_method() -> Seq<Seq<char>> {
    seq!["GET"@, "POST"@, "PUT"@, "DELETE"@, "OPTIONS"@, "HEAD"@, "PATCH"@, "TRACE"@]
}

/// The outcomes asked for when the command line names none.
pub open spec fn every_outcome() -> Seq<Seq<char>> {
    seq!["ok"@, "exception"@, "canceled"@, "exceededCpu"@, "exceededMemory"@]
}

/// The API's name for a status word of the command line: `error` is an
/// exception, and a word it does not know is `unknown`.
pub open spec fn outcome_name(word: Seq<char>) -> Seq<char> {
    if word == "ok"@ {
        "ok"@
    } else if word == "error"@ {
        "exception"@
    } else if word == "canceled"@ {
        "canceled"@
    } else {
        "unknown"@
    }
}

/// The methods that the method filter lists.
pub open spec fn requested_methods(options: FilterOptions) -> Seq<Seq<char>> {
    match options.method {
        Some(methods) => texts(methods@),
        None => every_method(),
    }
}

/// The outcomes that the outcome filter lists.
pub open spec fn requested_outcomes(options: FilterOptions) -> Seq<Seq<char>> {
    match options.status {
        Some(words) => texts(words@).map_values(|w: Seq<char>| outcome_name(w)),
        None => every_outcome(),
    }
}

/// Whether `filters` are those of a session for these choices: every event
/// sampled, then the method filter, then the search (where there is one),
/// then the outcome filter.
pub open spec fn filters_for(options: FilterOptions, filters: Seq<TailFilter>) -> bool {
    let last = filters.len() - 1;
    &&& filters.len() == (if options.search is Some { 4int } else { 3int })
    &&& filters[0] == TailFilter::SamplingRate { parts_per_million: 1_000_000 }
    &&& filters[1] matches TailFilter::Method { method } && texts(method@) == requested_methods(options)
    &&& options.search matches Some(q) ==> (filters[2] matches TailFilter::Query { query } && query@ == q@)
    &&& filters[last] matches TailFilter::Outcome { outcome } && texts(outcome@) == requested_outcomes(options)
}

/// The API's name for one status word of the command line.
pub fn outcome_for(word: &str) -> (r: String)
    ensures
        r@ == outcome_name(word@),
{
    if str_eq(word, "ok") {
        owned("ok")
    } else if str_eq(word, "error") {
        owned("exception")
    } else if str_eq(word, "canceled") {
        owned("canceled")
    } else {
        owned("unknown")
    }
}

fn names_of(list: &[&str]) -> (r: Vec<String>)
    ensures
        texts(r@) == list@.map_values(|s: &str| s@),
{
    let mut r: Vec<String> = Vec::new();
    let mut i: usize = 0;
    while i < list.len()
        invariant
            i <= list@.len(),
            r@.len() == i,
            forall|j: int| 0 <= j < i ==> #[trigger] r@[j]@ == list@[j]@,
        decreases list@.len() - i,
    {
        r.push(owned(list[i]));
        i = i + 1;
    }
    assert(texts(r@) =~= list@.map_values(|s: &str| s@));
    r
}

/// Builds the filters of a tail session from the command line's choices.
pub fn parse_filters(args: &FilterOptions) -> (filters: Vec<TailFilter>)
    ensures
        filters_for(*args, filters@),
{
    let mut filters: Vec<TailFilter> = Vec::new();
    filters.push(TailFilter::SamplingRate { parts_per_million: 1_000_000 });

    match &args.method {
        Some(methods) => {
            let method = clone_strings(methods.as_slice());
            filters.push(TailFilter::Method { method });
        },
        None => {
            let method = names_of(&["GET", "POST", "PUT", "DELETE", "OPTIONS", "HEAD", "PATCH", "TRACE"]);
            proof {
                reveal_strlit("GET");
            }
            assert(texts(method@) =~= every_method());
            filters.push(TailFilter::Method { method });
        },
    }

    if let Some(search) = &args.search {
        filters.push(TailFilter::Query { query: search.clone() });
    }

    match &args.status {
        Some(words) => {
            let mut outcome: Vec<String> = Vec::new();
            let mut i: usize = 0;
            while i < words.len()
                invariant
                    i <= words@.len(),
                    outcome@.len() == i,
                    forall|j: int| 0 <= j < i ==> #[trigger] outcome@[j]@ == outcome_name(words@[j]@),
                decreases words@.len() - i,
            {
                outcome.push(outcome_for(words[i].as_str()));
                i = i + 1;
            }
            assert(texts(outcome@) =~= texts(words@).map_values(|w: Seq<char>| outcome_name(w)));
            filters.push(TailFilter::Outcome { outcome });
        },
        None => {
            let outcome = names_of(&["ok", "exception", "canceled", "exceededCpu", "exceededMemory"]);
            assert(texts(outcome@) =~= every_outcome());
            filters.push(TailFilter::Outcome { outcome });
        },
    }
    filters
}

} // verus!
