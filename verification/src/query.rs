//! What a client asks for: the search terms, the number of hits, and the host name under which
//! the hosted index knows the documentation site.
use vstd::prelude::*;

use crate::text;

verus! {

/// How many hits a search returns where the client names no number.
pub const DEFAULT_LIMIT: usize = 10;

/// How many hits a search returns at most.
pub const MAX_LIMIT: usize = 25;

/// A query without the white space around it; one of white space alone is refused.
pub open spec fn normalized_query(query: Seq<char>) -> Result<Seq<char>, Seq<char>> {
    if text::trim(query).len() == 0 {
        Err("query must not be empty"@)
    } else {
        Ok(text::trim(query))
    }
}

/// Removes the white space around a query, and refuses a query that is empty without it.
pub fn normalize_query(query: &str) -> (r: Result<&str, String>)
    ensures
        match r {
            Ok(q) => normalized_query(query@) == Ok::<Seq<char>, Seq<char>>(q@),
            Err(e) => normalized_query(query@) == Err::<Seq<char>, Seq<char>>(e@),
        },
{
    let q = text::trimmed_text(query);
    if q.is_empty() {
        return Err("query must not be empty".to_owned());
    }
    Ok(q)
}

/// The number of hits that a search returns at most: the number asked for, or the default, moved
/// into the range from one to the maximum.
pub open spec fn limit_for(limit: Option<usize>) -> usize {
    let wanted = match limit {
        Some(n) => n,
        None => DEFAULT_LIMIT,
    };
    if wanted < 1 {
        1
    } else if wanted > MAX_LIMIT {
        MAX_LIMIT
    } else {
        wanted
    }
}

/// The number of hits that a search returns at most.
pub fn effective_limit(limit: Option<usize>) -> (r: usize)
    ensures
        r == limit_for(limit),
        1 <= r <= MAX_LIMIT,
{
    let wanted: usize = limit.unwrap_or(DEFAULT_LIMIT);
    if wanted < 1 {
        1
    } else if wanted > MAX_LIMIT {
        MAX_LIMIT
    } else {
        wanted
    }
}

/// The hosts that serve the documentation and share one entry in the index.
pub open spec fn is_docs_host(hostname: Seq<char>) -> bool {
    ||| hostname == "surrealdb.com"@
    ||| hostname == "www.surrealdb.com"@
    ||| hostname == "docs.surrealdb.com"@
    ||| hostname == "surrealdb-docs.netlify.app"@
    ||| hostname == "localhost"@
}

/// The host name under which the index knows a site.
pub open spec fn index_hostname(hostname: Seq<char>) -> Seq<char> {
    if is_docs_host(hostname) {
        "main--surrealdb-docs.netlify.app"@
    } else {
        hostname
    }
}

/// The host name under which the index knows a site.
pub fn docs_search_hostname(hostname: &str) -> (r: &str)
    ensures
        r@ == index_hostname(hostname@),
{
    if text::same_text(hostname, "surrealdb.com") || text::same_text(hostname, "www.surrealdb.com")
        || text::same_text(hostname, "docs.surrealdb.com") || text::same_text(
        hostname,
        "surrealdb-docs.netlify.app",
    ) || text::same_text(hostname, "localhost") {
        "main--surrealdb-docs.netlify.app"
    } else {
        hostname
    }
}

// ---------------------------------------------------------------------------------------------
// Laws
// ---------------------------------------------------------------------------------------------

/// A query that was accepted is accepted again, unchanged, and has no white space around it.
pub proof fn law_normalized_query_is_stable(query: Seq<char>)
    ensures
        normalized_query(query) matches Ok(q) ==> {
            &&& normalized_query(q) == Ok::<Seq<char>, Seq<char>>(q)
            &&& q.len() > 0
            &&& !text::is_white_space(q[0])
            &&& !text::is_white_space(q.last())
        },
{
    text::law_trim_is_idempotent(query);
    text::lemma_trim_ends(query);
}

/// A limit that was settled settles to itself, and a larger wish never yields fewer hits.
pub proof fn law_limits_are_settled(a: usize, b: usize)
    ensures
        limit_for(Some(limit_for(Some(a)))) == limit_for(Some(a)),
        a <= b ==> limit_for(Some(a)) <= limit_for(Some(b)),
        1 <= limit_for(Some(a)) <= MAX_LIMIT,
        1 <= limit_for(None) <= MAX_LIMIT,
{
}

/// The name that the index uses stands for itself.
pub proof fn law_index_hostname_is_idempotent(hostname: Seq<char>)
    ensures
        index_hostname(index_hostname(hostname)) == index_hostname(hostname),
{
}

/// A query means what stands between the white space around it, and white space alone is refused.
pub proof fn law_queries_are_taken_whole(before: Seq<char>, terms: Seq<char>, behind: Seq<char>)
    requires
        text::is_blank(before),
        text::is_blank(behind),
        text::has_bare_ends(terms),
    ensures
        normalized_query(before + terms + behind) == if terms.len() > 0 {
            Ok::<Seq<char>, Seq<char>>(terms)
        } else {
            Err("query must not be empty"@)
        },
{
    text::law_trim_removes_what_is_around(before, terms, behind);
}

/// A number of hits from one to twenty-five is granted as it is asked for. A smaller one becomes
/// one, a larger one twenty-five, and where none is asked for it is ten.
pub proof fn law_limits_are_granted(n: usize)
    ensures
        1 <= n <= 25 ==> limit_for(Some(n)) == n,
        n < 1 ==> limit_for(Some(n)) == 1,
        n > 25 ==> limit_for(Some(n)) == 25,
        limit_for(None) == 10,
{
}

/// The hosts of the documentation share one name in the index. Every other host has its own.
pub proof fn law_other_hosts_keep_their_names(hostname: Seq<char>)
    ensures
        index_hostname("surrealdb.com"@) == "main--surrealdb-docs.netlify.app"@,
        index_hostname("www.surrealdb.com"@) == "main--surrealdb-docs.netlify.app"@,
        index_hostname("docs.surrealdb.com"@) == "main--surrealdb-docs.netlify.app"@,
        index_hostname("surrealdb-docs.netlify.app"@) == "main--surrealdb-docs.netlify.app"@,
        index_hostname("localhost"@) == "main--surrealdb-docs.netlify.app"@,
        hostname != "surrealdb.com"@ && hostname != "www.surrealdb.com"@ && hostname
            != "docs.surrealdb.com"@ && hostname != "surrealdb-docs.netlify.app"@ && hostname
            != "localhost"@ ==> index_hostname(hostname) == hostname,
{
}

} // verus!
