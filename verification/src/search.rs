//! Searching the documentation: what a request asks of the index, and what becomes of its hits.
use vstd::prelude::*;

use crate::doc_url;
use crate::doc_url::{DocUrl, SiteParts, SiteUrl, UrlParts};
use crate::query;
use crate::text;

verus! {

broadcast use vstd::string::group_string_axioms;

/// How long the index may take to answer.
pub const SEARCH_REQUEST_TIMEOUT_SECS: u64 = 10;

/// What a client sends: the search terms and how many hits it wants at most.
#[derive(Debug, PartialEq, Eq)]
pub struct SearchDocsRequest {
    pub query: String,
    pub limit: Option<usize>,
}

/// What the index is asked: under which host name, for which terms; and how many of its hits are
/// passed on at most.
#[derive(Debug, PartialEq, Eq)]
pub struct SearchPlan {
    pub hostname: String,
    pub query: String,
    pub limit: usize,
}

/// What the index is asked.
#[verifier::ext_equal]
pub struct PlanView {
    pub hostname: Seq<char>,
    pub query: Seq<char>,
    pub limit: usize,
}

impl View for SearchPlan {
    type V = PlanView;

    open spec fn view(&self) -> PlanView {
        PlanView { hostname: self.hostname@, query: self.query@, limit: self.limit }
    }
}

/// A hit as the index gives it. Its score is held by the bits of the floating-point number.
#[derive(Debug, PartialEq, Eq)]
pub struct DocsSearchApiResult {
    pub title: String,
    pub description: String,
    pub hostname: String,
    pub score_bits: u64,
    pub url: String,
}

/// A hit as the index gives it.
#[verifier::ext_equal]
pub struct ApiHit {
    pub title: Seq<char>,
    pub description: Seq<char>,
    pub hostname: Seq<char>,
    pub score_bits: u64,
    pub url: Seq<char>,
}

impl View for DocsSearchApiResult {
    type V = ApiHit;

    open spec fn view(&self) -> ApiHit {
        ApiHit {
            title: self.title@,
            description: self.description@,
            hostname: self.hostname@,
            score_bits: self.score_bits,
            url: self.url@,
        }
    }
}

/// A hit as a client gets it: with the path and the URL under which it can fetch the page.
#[derive(Debug, PartialEq, Eq)]
pub struct SearchDocsResult {
    pub title: String,
    pub description: String,
    pub hostname: String,
    pub path: String,
    pub url: String,
    pub score_bits: u64,
}

/// A hit as a client gets it.
#[verifier::ext_equal]
pub struct Hit {
    pub title: Seq<char>,
    pub description: Seq<char>,
    pub hostname: Seq<char>,
    pub path: Seq<char>,
    pub url: Seq<char>,
    pub score_bits: u64,
}

impl View for SearchDocsResult {
    type V = Hit;

    open spec fn view(&self) -> Hit {
        Hit {
            title: self.title@,
            description: self.description@,
            hostname: self.hostname@,
            path: self.path@,
            url: self.url@,
            score_bits: self.score_bits,
        }
    }
}

/// What a client gets for a search.
#[derive(Debug, PartialEq, Eq)]
pub struct SearchDocsResponse {
    pub query: String,
    pub count: usize,
    pub results: Vec<SearchDocsResult>,
}

// ---------------------------------------------------------------------------------------------
// What the index is asked
// ---------------------------------------------------------------------------------------------

/// What the index is asked for a request, given the site that is searched.
pub open spec fn plan(
    site: UrlParts,
    terms: Seq<char>,
    limit: Option<usize>,
) -> Result<PlanView, Seq<char>> {
    match query::normalized_query(terms) {
        Ok(q) => match site.host {
            Some(host) => Ok(
                PlanView {
                    hostname: query::index_hostname(host),
                    query: q,
                    limit: query::limit_for(limit),
                },
            ),
            None => Err("configured docs site URL is missing a host"@),
        },
        Err(e) => Err(e),
    }
}

/// What the index is asked for a request, given the site that is searched.
pub fn plan_search(docs_site_url: &DocUrl, request: &SearchDocsRequest) -> (r: Result<
    SearchPlan,
    String,
>)
    ensures
        text::viewed(r) == plan(docs_site_url@, request.query@, request.limit),
{
    let terms = match query::normalize_query(&request.query) {
        Ok(terms) => terms,
        Err(e) => {
            return Err(e);
        },
    };
    match &docs_site_url.host {
        Some(host) => Ok(
            SearchPlan {
                hostname: query::docs_search_hostname(host).to_owned(),
                query: terms.to_owned(),
                limit: query::effective_limit(request.limit),
            },
        ),
        None => Err("configured docs site URL is missing a host".to_owned()),
    }
}

// ---------------------------------------------------------------------------------------------
// What becomes of a hit
// ---------------------------------------------------------------------------------------------

/// The path of a hit, given what the URL parser made of its URL: the path of the URL, or the
/// whole text where it is no absolute URL. One outside of `/docs/` is refused.
pub open spec fn docs_path(value: Seq<char>, parsed: Result<UrlParts, Seq<char>>) -> Result<
    Seq<char>,
    Seq<char>,
> {
    let path = match parsed {
        Ok(u) => u.path,
        Err(_) => value,
    };
    if text::has_prefix(path, "/docs/"@) {
        Ok(path)
    } else {
        Err("search result URL is not a docs path: "@ + value)
    }
}

/// The path of a hit, given what the URL parser made of its URL.
pub fn accept_docs_path(value: &str, parsed: Result<DocUrl, String>) -> (r: Result<String, String>)
    ensures
        text::viewed(r) == docs_path(value@, text::viewed(parsed)),
{
    let path: String = match parsed {
        Ok(url) => url.path,
        Err(_) => value.to_owned(),
    };
    let chars = text::to_chars(&path);
    let prefix = text::to_chars("/docs/");
    if !text::starts_with(&chars, &prefix) {
        return Err(text::concat("search result URL is not a docs path: ", value));
    }
    Ok(path)
}

/// The path of a hit with the URL `value`.
pub open spec fn hit_path(value: Seq<char>) -> Result<Seq<char>, Seq<char>> {
    match query::normalized_query(value) {
        Ok(v) => docs_path(v, doc_url::url_parse(v)),
        Err(e) => Err(e),
    }
}

/// The path of a hit with the URL `value`. It is plain: a client may ask for the page by it.
pub fn normalize_search_result_path(value: &str) -> (r: Result<String, String>)
    ensures
        text::viewed(r) == hit_path(value@),
        r matches Ok(path) ==> doc_url::is_plain_path(path@),
        text::has_prefix(text::trim(value@), "/docs/"@) ==> (r matches Ok(path) && path@
            == text::trim(value@)),
{
    proof {
        reveal_strlit("/docs/");
    }
    let trimmed = match query::normalize_query(value) {
        Ok(trimmed) => trimmed,
        Err(e) => {
            return Err(e);
        },
    };
    let parsed = doc_url::parse_url(trimmed);
    proof {
        if text::has_prefix(trimmed@, "/docs/"@) {
            lemma_docs_path_is_plain(trimmed@);
        }
        let path = if parsed is Ok {
            parsed->Ok_0@.path
        } else {
            trimmed@
        };
        if text::has_prefix(path, "/docs/"@) {
            lemma_docs_path_is_plain(path);
            if parsed is Ok {
                text::lemma_trim_keeps(path);
            } else {
                text::lemma_trim_ends(value@);
                text::lemma_trim_keeps(path);
            }
        }
    }
    accept_docs_path(trimmed, parsed)
}

/// A path below `/docs/` names no scheme and no host.
proof fn lemma_docs_path_is_plain(path: Seq<char>)
    requires
        text::has_prefix(path, "/docs/"@),
    ensures
        path.len() > 0,
        path[0] == '/',
        doc_url::is_path_reference(text::strip_leading(path, '/')),
{
    reveal_strlit("/docs/");
    let head = path.take(6);
    assert forall|i: int| 0 <= i < 6 implies path[i] == "/docs/"@[i] by {
        assert(head[i] == path[i]);
    }
    let tail = path.skip(1);
    assert(tail[0] == 'd' && tail[1] == 'o' && tail[2] == 'c' && tail[3] == 's' && tail[4] == '/');
    assert(text::strip_leading(tail, '/') == tail);
    assert(text::strip_leading(path, '/') == tail);
}

/// A hit as a client gets it, with the path and the URL that were found for it.
pub open spec fn hit_with(hit: ApiHit, path: Seq<char>, url: Seq<char>) -> Hit {
    Hit {
        title: hit.title,
        description: hit.description,
        hostname: hit.hostname,
        path,
        url,
        score_bits: hit.score_bits,
    }
}

/// What becomes of a hit; `None` where the site cannot be joined with its path.
pub open spec fn mapped(site: SiteParts, hit: ApiHit) -> Option<Result<Hit, Seq<char>>> {
    match hit_path(hit.url) {
        Ok(path) => match doc_url::page_url(site, path) {
            Some(url) => Some(Ok(hit_with(hit, path, url))),
            None => None,
        },
        Err(e) => Some(Err(e)),
    }
}

/// The path of a hit is plain, and its URL keeps what a client needs of it.
pub open spec fn can_be_fetched(site: SiteParts, hit: Hit) -> bool {
    doc_url::is_plain_path(hit.path) && doc_url::page_url_keeps(site, hit.path, hit.url)
}

/// Makes of a hit what a client gets, for a site that can be joined with the path of the hit.
pub fn map_search_result(docs_site_url: &SiteUrl, result: DocsSearchApiResult) -> (r: Result<
    SearchDocsResult,
    String,
>)
    requires
        mapped(docs_site_url@, result@) is Some,
    ensures
        mapped(docs_site_url@, result@) == Some(text::viewed(r)),
        r matches Ok(hit) ==> can_be_fetched(docs_site_url@, hit@),
{
    match normalize_search_result_path(&result.url) {
        Ok(path) => {
            let url = doc_url::build_docs_url(docs_site_url, &path);
            Ok(
                SearchDocsResult {
                    title: result.title,
                    description: result.description,
                    hostname: result.hostname,
                    path,
                    url,
                    score_bits: result.score_bits,
                },
            )
        },
        Err(e) => Err(e),
    }
}

/// Makes of a hit what a client gets; `None` where the site cannot be joined with the path of the
/// hit. An `https` site can be joined with every path that fits into a URL.
pub fn try_map_search_result(docs_site_url: &SiteUrl, result: DocsSearchApiResult) -> (r: Option<
    Result<SearchDocsResult, String>,
>)
    ensures
        match r {
            Some(m) => mapped(docs_site_url@, result@) == Some(text::viewed(m)),
            None => mapped(docs_site_url@, result@) is None,
        },
        r matches Some(Ok(hit)) ==> can_be_fetched(docs_site_url@, hit@),
        doc_url::is_docs_site(docs_site_url@) && (hit_path(result.url@) matches Ok(path)
            ==> doc_url::fits_behind(docs_site_url@.url, path)) ==> r is Some,
{
    if let Ok(path) = normalize_search_result_path(&result.url) {
        if doc_url::try_build_docs_url(docs_site_url, &path).is_none() {
            return None;
        }
    }
    Some(map_search_result(docs_site_url, result))
}

/// The hits that the index gave.
pub open spec fn hits_of(results: Seq<DocsSearchApiResult>) -> Seq<ApiHit> {
    results.map_values(|r: DocsSearchApiResult| r@)
}

/// The hits that a client gets.
pub open spec fn found(results: Seq<SearchDocsResult>) -> Seq<Hit> {
    results.map_values(|r: SearchDocsResult| r@)
}

/// What becomes of the first `n` hits, in their order. The first one that is refused decides, and
/// so does the first one whose path the site cannot be joined with (`None`).
pub open spec fn mapped_hits(site: SiteParts, hits: Seq<ApiHit>, n: nat) -> Option<
    Result<Seq<Hit>, Seq<char>>,
>
    decreases n,
{
    if n == 0 {
        Some(Ok(Seq::empty()))
    } else {
        match mapped_hits(site, hits, (n - 1) as nat) {
            Some(Ok(before)) => match mapped(site, hits[n - 1]) {
                Some(Ok(hit)) => Some(Ok(before.push(hit))),
                Some(Err(e)) => Some(Err(e)),
                None => None,
            },
            other => other,
        }
    }
}

/// How many of the hits are passed on.
pub open spec fn passed_on(hits: Seq<ApiHit>, limit: usize) -> nat {
    if hits.len() <= limit {
        hits.len()
    } else {
        limit as nat
    }
}

/// Where a first part of the hits is refused, so is every longer part.
proof fn lemma_refusal_stays(site: SiteParts, hits: Seq<ApiHit>, k: nat, n: nat)
    requires
        k <= n,
        !(mapped_hits(site, hits, k) matches Some(Ok(_))),
    ensures
        mapped_hits(site, hits, n) == mapped_hits(site, hits, k),
    decreases n,
{
    if k < n {
        lemma_refusal_stays(site, hits, k, (n - 1) as nat);
    }
}

/// Makes of the hits what a client gets, in their order and at most `limit` of them. A hit that is
/// refused is an error of the whole; `None` where the site cannot be joined with a path.
pub fn map_search_hits(
    docs_site_url: &SiteUrl,
    results: Vec<DocsSearchApiResult>,
    limit: usize,
) -> (r: Option<Result<Vec<SearchDocsResult>, String>>)
    ensures
        ({
            let hits = hits_of(results@);
            let all = mapped_hits(docs_site_url@, hits, passed_on(hits, limit));
            match r {
                Some(Ok(v)) => all == Some(Ok::<Seq<Hit>, Seq<char>>(found(v@))),
                Some(Err(e)) => all == Some(Err::<Seq<Hit>, Seq<char>>(e@)),
                None => all is None,
            }
        }),
        r matches Some(Ok(v)) ==> forall|i: int|
            0 <= i < v@.len() ==> can_be_fetched(docs_site_url@, (#[trigger] v@[i])@),
{
    let ghost hits = hits_of(results@);
    let ghost n = passed_on(hits, limit);
    let mut kept: Vec<SearchDocsResult> = Vec::new();
    let mut count: usize = 0;
    assert(found(kept@) == Seq::<Hit>::empty());
    for result in it: results
        invariant
            it.seq() == results@,
            hits == hits_of(results@),
            n == passed_on(hits, limit),
            count == if it.index() <= limit { it.index() } else { limit as int },
            mapped_hits(docs_site_url@, hits, count as nat) == Some(
                Ok::<Seq<Hit>, Seq<char>>(found(kept@)),
            ),
            forall|i: int|
                0 <= i < kept@.len() ==> can_be_fetched(docs_site_url@, (#[trigger] kept@[i])@),
    {
        if count < limit {
            assert(hits[count as int] == result@);
            let ghost before = kept@;
            match try_map_search_result(docs_site_url, result) {
                Some(Ok(hit)) => {
                    kept.push(hit);
                    assert(found(kept@) == found(before).push(hit@));
                },
                Some(Err(e)) => {
                    proof {
                        lemma_refusal_stays(docs_site_url@, hits, (count + 1) as nat, n);
                    }
                    return Some(Err(e));
                },
                None => {
                    proof {
                        lemma_refusal_stays(docs_site_url@, hits, (count + 1) as nat, n);
                    }
                    return None;
                },
            }
            count = count + 1;
        }
    }
    Some(Ok(kept))
}

/// What a client gets for a search: the terms that were searched for, and the hits with their
/// number. `None` where the site cannot be joined with the path of a hit.
pub fn finish_search(
    docs_site_url: &SiteUrl,
    plan: SearchPlan,
    results: Vec<DocsSearchApiResult>,
) -> (r: Option<Result<SearchDocsResponse, String>>)
    ensures
        ({
            let hits = hits_of(results@);
            let all = mapped_hits(docs_site_url@, hits, passed_on(hits, plan.limit));
            match r {
                Some(Ok(response)) => {
                    &&& all == Some(Ok::<Seq<Hit>, Seq<char>>(found(response.results@)))
                    &&& response.query@ == plan.query@
                    &&& response.count == response.results@.len()
                },
                Some(Err(e)) => all == Some(Err::<Seq<Hit>, Seq<char>>(e@)),
                None => all is None,
            }
        }),
        r matches Some(Ok(response)) ==> forall|i: int|
            0 <= i < response.results@.len() ==> can_be_fetched(
                docs_site_url@,
                (#[trigger] response.results@[i])@,
            ),
{
    match map_search_hits(docs_site_url, results, plan.limit) {
        Some(Ok(results)) => Some(
            Ok(SearchDocsResponse { query: plan.query, count: results.len(), results }),
        ),
        Some(Err(e)) => Some(Err(e)),
        None => None,
    }
}

// ---------------------------------------------------------------------------------------------
// Laws
// ---------------------------------------------------------------------------------------------

/// An answer holds at most as many hits as were asked for and as many as the index gave, in the
/// order in which the index ranked them.
pub proof fn law_hits_keep_rank_and_limit(site: SiteParts, hits: Seq<ApiHit>, limit: usize)
    ensures
        mapped_hits(site, hits, passed_on(hits, limit)) matches Some(Ok(answer)) ==> {
            &&& answer.len() <= limit
            &&& answer.len() <= hits.len()
            &&& answer.len() == hits.len() || answer.len() == limit
            &&& forall|i: int|
                0 <= i < answer.len() ==> mapped(site, hits[i]) == Some(
                    Ok::<Hit, Seq<char>>(#[trigger] answer[i]),
                )
        },
{
    lemma_mapped_hits(site, hits, passed_on(hits, limit));
}

/// The answer to the first `n` hits holds what became of each of them.
proof fn lemma_mapped_hits(site: SiteParts, hits: Seq<ApiHit>, n: nat)
    ensures
        mapped_hits(site, hits, n) matches Some(Ok(answer)) ==> {
            &&& answer.len() == n
            &&& forall|i: int|
                0 <= i < n ==> mapped(site, hits[i]) == Some(
                    Ok::<Hit, Seq<char>>(#[trigger] answer[i]),
                )
        },
    decreases n,
{
    if n > 0 {
        lemma_mapped_hits(site, hits, (n - 1) as nat);
    }
}

/// A hit keeps its title, its description, its host name and its score, and its path lies below
/// `/docs/`.
pub proof fn law_hits_are_kept(site: SiteParts, hit: ApiHit)
    ensures
        mapped(site, hit) matches Some(Ok(h)) ==> {
            &&& h.title == hit.title
            &&& h.description == hit.description
            &&& h.hostname == hit.hostname
            &&& h.score_bits == hit.score_bits
            &&& text::has_prefix(h.path, "/docs/"@)
        },
{
}

/// One hit outside of `/docs/` among those that are passed on leaves no answer.
pub proof fn law_one_refused_hit_refuses_the_answer(
    site: SiteParts,
    hits: Seq<ApiHit>,
    limit: usize,
    i: int,
)
    requires
        0 <= i < passed_on(hits, limit),
        mapped(site, hits[i]) matches Some(Err(_)),
    ensures
        !(mapped_hits(site, hits, passed_on(hits, limit)) matches Some(Ok(_))),
{
    let n = passed_on(hits, limit);
    lemma_mapped_hits(site, hits, n);
    if let Some(Ok(answer)) = mapped_hits(site, hits, n) {
        assert(mapped(site, hits[i]) == Some(Ok::<Hit, Seq<char>>(answer[i])));
    }
}

/// Every plan asks for at least one hit and for at most the maximum, under the name that the
/// index uses, for terms without white space around them.
pub proof fn law_plans_are_settled(site: UrlParts, terms: Seq<char>, limit: Option<usize>)
    ensures
        plan(site, terms, limit) matches Ok(p) ==> {
            &&& 1 <= p.limit <= query::MAX_LIMIT
            &&& p.query == text::trim(terms)
            &&& p.query.len() > 0
            &&& query::index_hostname(p.hostname) == p.hostname
        },
{
}

/// The path of a hit is that of the URL that the index gave, white space around it aside: the path
/// of an absolute URL, else the whole text. It is refused if and only if it does not lie below
/// `/docs/`.
pub proof fn law_paths_of_hits_are_kept(
    before: Seq<char>,
    value: Seq<char>,
    behind: Seq<char>,
    path: Seq<char>,
)
    requires
        text::is_blank(before),
        text::is_blank(behind),
        text::has_bare_ends(value),
        doc_url::url_parse(value) matches Ok(u) ==> path == u.path,
        doc_url::url_parse(value) is Err ==> path == value,
    ensures
        value.len() == 0 ==> hit_path(before + value + behind) == Err::<Seq<char>, Seq<char>>(
            "query must not be empty"@,
        ),
        value.len() > 0 ==> hit_path(before + value + behind) == if path.len() >= 6 && path.take(6)
            == "/docs/"@ {
            Ok::<Seq<char>, Seq<char>>(path)
        } else {
            Err("search result URL is not a docs path: "@ + value)
        },
{
    reveal_strlit("/docs/");
    text::law_trim_removes_what_is_around(before, value, behind);
}

/// A hit keeps the path of the URL that the index gave, and its own URL is that of the path: the
/// path is joined to the site without the slash before it, unless it is a URL by itself. The rest of
/// the hit stays. One whose path does not lie below `/docs/` is refused, and none that does.
pub proof fn law_hits_lead_where_the_index_says(
    site: SiteParts,
    hit: ApiHit,
    before: Seq<char>,
    value: Seq<char>,
    behind: Seq<char>,
    path: Seq<char>,
    url: Seq<char>,
)
    requires
        hit.url == before + value + behind,
        text::is_blank(before),
        text::is_blank(behind),
        text::has_bare_ends(value),
        doc_url::url_parse(value) matches Ok(u) ==> path == u.path,
        doc_url::url_parse(value) is Err ==> path == value,
    ensures
        value.len() == 0 ==> mapped(site, hit) == Some(
            Err::<Hit, Seq<char>>("query must not be empty"@),
        ),
        value.len() > 0 && (path.len() < 6 || path.take(6) != "/docs/"@) ==> mapped(site, hit) == Some(
            Err::<Hit, Seq<char>>("search result URL is not a docs path: "@ + value),
        ),
        value.len() > 0 && path.len() >= 6 && path.take(6) == "/docs/"@
            ==> match doc_url::url_parse(path) {
            Ok(u) => u.text == url,
            Err(_) => doc_url::url_join(site.given, path.skip(1)) matches Ok(u) && u.text == url,
        } ==> mapped(site, hit) == Some(
            Ok::<Hit, Seq<char>>(
                (Hit {
                    title: hit.title,
                    description: hit.description,
                    hostname: hit.hostname,
                    path,
                    url,
                    score_bits: hit.score_bits,
                }),
            ),
        ),
        value.len() > 0 && path.len() >= 6 && path.take(6) == "/docs/"@ ==> {
            &&& !(mapped(site, hit) matches Some(Err(_)))
            &&& mapped(site, hit) is None <==> doc_url::url_parse(path) is Err && doc_url::url_join(
                site.given,
                path.skip(1),
            ) is Err
        },
        mapped(site, hit) matches Some(Ok(h)) ==> h.path == path,
{
    reveal_strlit("/docs/");
    law_paths_of_hits_are_kept(before, value, behind, path);
    if path.len() >= 6 && path.take(6) == "/docs/"@ {
        assert(path.take(6)[0] == path[0] && path.take(6)[1] == path[1]);
        let slash = seq!['/'];
        assert(path == slash + path.skip(1));
        text::law_strip_removes_what_is_at_the_end(slash, path.skip(1), '/');
    }
}

/// Where each hit that is passed on gets a path and a URL, so does the answer hold them all: the
/// first hits, in their order, up to the limit. Where one of them does not, the first such hit
/// decides: its error is the answer.
pub proof fn law_answers_hold_the_first_hits(
    site: SiteParts,
    hits: Seq<ApiHit>,
    limit: usize,
    k: int,
)
    requires
        0 <= k <= hits.len(),
        k <= limit,
        forall|i: int| 0 <= i < k ==> (#[trigger] mapped(site, hits[i]) matches Some(Ok(_))),
    ensures
        ({
            let all = mapped_hits(site, hits, passed_on(hits, limit));
            if k == hits.len() || k == limit {
                &&& all matches Some(Ok(answer))
                &&& answer.len() == k
                &&& forall|i: int|
                    0 <= i < k ==> mapped(site, hits[i]) == Some(
                        Ok::<Hit, Seq<char>>(#[trigger] answer[i]),
                    )
            } else {
                &&& mapped(site, hits[k]) matches Some(Err(e)) ==> all == Some(
                    Err::<Seq<Hit>, Seq<char>>(e),
                )
                &&& mapped(site, hits[k]) is None ==> all is None
            }
        }),
{
    let n = passed_on(hits, limit);
    lemma_mapped_while_ok(site, hits, k as nat);
    lemma_mapped_hits(site, hits, k as nat);
    if k < hits.len() && k < limit && !(mapped(site, hits[k]) matches Some(Ok(_))) {
        lemma_refusal_stays(site, hits, (k + 1) as nat, n);
    }
}

/// Hits of which none is refused are all answered.
proof fn lemma_mapped_while_ok(site: SiteParts, hits: Seq<ApiHit>, n: nat)
    requires
        n <= hits.len(),
        forall|i: int| 0 <= i < n ==> (#[trigger] mapped(site, hits[i]) matches Some(Ok(_))),
    ensures
        mapped_hits(site, hits, n) matches Some(Ok(_)),
    decreases n,
{
    if n > 0 {
        lemma_mapped_while_ok(site, hits, (n - 1) as nat);
        assert(mapped(site, hits[n - 1]) matches Some(Ok(_)));
    }
}

/// The index is asked for the terms of the request, white space around them aside, under the name
/// that it has for the host of the site, and as many hits are passed on as were asked for, between
/// one and twenty-five, or ten where no number was given.
pub proof fn law_requests_are_planned(
    site: UrlParts,
    before: Seq<char>,
    terms: Seq<char>,
    behind: Seq<char>,
    limit: Option<usize>,
)
    requires
        text::is_blank(before),
        text::is_blank(behind),
        text::has_bare_ends(terms),
    ensures
        terms.len() == 0 ==> plan(site, before + terms + behind, limit) == Err::<
            PlanView,
            Seq<char>,
        >("query must not be empty"@),
        terms.len() > 0 && site.host is None ==> plan(site, before + terms + behind, limit) == Err::<
            PlanView,
            Seq<char>,
        >("configured docs site URL is missing a host"@),
        terms.len() > 0 && site.host is Some ==> {
            &&& plan(site, before + terms + behind, limit) matches Ok(p)
            &&& p.query == terms
            &&& p.hostname == query::index_hostname(site.host->0)
            &&& limit is None ==> p.limit == 10
            &&& limit matches Some(n) ==> {
                &&& 1 <= n <= 25 ==> p.limit == n
                &&& n < 1 ==> p.limit == 1
                &&& n > 25 ==> p.limit == 25
            }
        },
{
    text::law_trim_removes_what_is_around(before, terms, behind);
}

/// A client that asks for a number of hits gets at most that many, and never more than twenty-five.
pub proof fn law_clients_get_no_more_than_they_asked_for(
    site: SiteParts,
    terms: Seq<char>,
    n: usize,
    hits: Seq<ApiHit>,
)
    ensures
        plan(site.url, terms, Some(n)) matches Ok(p) ==> (mapped_hits(
            site,
            hits,
            passed_on(hits, p.limit),
        ) matches Some(Ok(answer)) ==> {
            &&& n >= 1 ==> answer.len() <= n
            &&& answer.len() <= 25
            &&& 1 <= n <= 25 && n <= hits.len() ==> answer.len() == n
        }),
        plan(site.url, terms, None) matches Ok(p) ==> (mapped_hits(
            site,
            hits,
            passed_on(hits, p.limit),
        ) matches Some(Ok(answer)) ==> {
            &&& answer.len() <= 10
            &&& 10 <= hits.len() ==> answer.len() == 10
        }),
{
    law_hits_keep_rank_and_limit(site, hits, query::limit_for(Some(n)));
    law_hits_keep_rank_and_limit(site, hits, query::limit_for(None));
}

/// Plans and hits are viewed by their fields, and hits in their order.
pub proof fn law_hits_are_viewed_as_they_are(
    plan: SearchPlan,
    api_hit: DocsSearchApiResult,
    hit: SearchDocsResult,
    api_hits: Seq<DocsSearchApiResult>,
    hits: Seq<SearchDocsResult>,
)
    ensures
        plan@ == (PlanView { hostname: plan.hostname@, query: plan.query@, limit: plan.limit }),
        api_hit@ == (ApiHit {
            title: api_hit.title@,
            description: api_hit.description@,
            hostname: api_hit.hostname@,
            score_bits: api_hit.score_bits,
            url: api_hit.url@,
        }),
        hit@ == (Hit {
            title: hit.title@,
            description: hit.description@,
            hostname: hit.hostname@,
            path: hit.path@,
            url: hit.url@,
            score_bits: hit.score_bits,
        }),
        hits_of(api_hits).len() == api_hits.len(),
        forall|i: int| 0 <= i < api_hits.len() ==> #[trigger] hits_of(api_hits)[i] == api_hits[i]@,
        found(hits).len() == hits.len(),
        forall|i: int| 0 <= i < hits.len() ==> #[trigger] found(hits)[i] == hits[i]@,
{
}

/// The index has ten seconds to answer.
pub proof fn law_the_index_has_ten_seconds()
    ensures
        SEARCH_REQUEST_TIMEOUT_SECS == 10,
{
}

} // verus!
