//! URLs of documentation pages: parsing and joining them, and the rules by which one is accepted.
use vstd::prelude::*;

use crate::query;
use crate::text;

verus! {

broadcast use vstd::string::group_string_axioms;

/// The documentation site where none is configured.
pub const DEFAULT_DOCS_SITE_URL: &'static str = "https://surrealdb.com";

/// The search service where none is configured.
pub const DEFAULT_DOCS_SEARCH_API_URL: &'static str = "https://surrealdb.com/api/docs/search";

/// What the library reads of a URL: its text in full, and its scheme, host and path.
#[verifier::ext_equal]
pub struct UrlParts {
    pub text: Seq<char>,
    pub scheme: Seq<char>,
    pub host: Option<Seq<char>>,
    pub path: Seq<char>,
}

/// A parsed URL: its text in full, and its scheme, host and path.
#[derive(Debug, PartialEq, Eq)]
pub struct DocUrl {
    pub text: String,
    pub scheme: String,
    pub host: Option<String>,
    pub path: String,
}

impl View for DocUrl {
    type V = UrlParts;

    open spec fn view(&self) -> UrlParts {
        UrlParts {
            text: self.text@,
            scheme: self.scheme@,
            host: match self.host {
                Some(h) => Some(h@),
                None => None,
            },
            path: self.path@,
        }
    }
}

/// A configured URL: the text that was given for it and the URL that the text parses to.
#[verifier::ext_equal]
pub struct SiteParts {
    pub given: Seq<char>,
    pub url: UrlParts,
}

/// A configured URL: the text that was given for it and the URL that the text parses to. Pages are
/// joined to the text as it was given.
#[derive(Debug, PartialEq, Eq)]
pub struct SiteUrl {
    pub given: String,
    pub url: DocUrl,
}

impl View for SiteUrl {
    type V = SiteParts;

    open spec fn view(&self) -> SiteParts {
        SiteParts { given: self.given@, url: self.url@ }
    }
}

// ---------------------------------------------------------------------------------------------
// The URL parser
// ---------------------------------------------------------------------------------------------

/// What `url::Url::parse` makes of a text: the parts of the URL, or the words of the error.
pub uninterp spec fn url_parse(value: Seq<char>) -> Result<UrlParts, Seq<char>>;

/// What `url::Url::join` makes of a reference, given the text of the URL that it is relative to.
pub uninterp spec fn url_join(base: Seq<char>, reference: Seq<char>) -> Result<UrlParts, Seq<char>>;

/// How long an encoded label of a host may be, with the mark `xn--` before it, for the parser to
/// decode it.
pub const MAX_ENCODED_LABEL_LENGTH: usize = 2004;

/// A label that is encoded in Punycode begins at `i`.
pub open spec fn starts_encoded_label(host: Seq<char>, i: int) -> bool {
    text::occurs_at(host, "xn--"@, i) && (i == 0 || host[i - 1] == '.')
}

/// No encoded label of the host is too long to be decoded.
pub open spec fn has_readable_labels(host: Seq<char>) -> bool {
    forall|i: int| #[trigger]
        starts_encoded_label(host, i) && i + MAX_ENCODED_LABEL_LENGTH < host.len()
            ==> host.subrange(i, i + MAX_ENCODED_LABEL_LENGTH + 1).contains('.')
}

/// The URL uses `https` or `http`.
pub open spec fn is_web_url(u: UrlParts) -> bool {
    u.scheme == "https"@ || u.scheme == "http"@
}

/// What holds of the text of every URL. It begins with a letter, no white space stands around it,
/// and where it is read again, alone or behind another URL, it gives a URL with the same scheme.
/// An `https` or `http` URL has a host, and its text parses to the same URL unless a label of the
/// host is too long to be decoded.
pub open spec fn is_settled(u: UrlParts) -> bool {
    &&& u.text.len() > 0
    &&& 'a' <= u.text[0] <= 'z'
    &&& text::trim(u.text) == u.text
    &&& url_parse(u.text) matches Ok(v) ==> v.scheme == u.scheme
    &&& forall|base: Seq<char>|
        (#[trigger] url_join(base, u.text)) matches Ok(v) ==> v.scheme == u.scheme
    &&& is_web_url(u) ==> {
        &&& u.host is Some
        &&& has_readable_labels(u.host->0) ==> url_parse(u.text) == Ok::<UrlParts, Seq<char>>(u)
    }
}

/// A letter or a digit of ASCII.
pub open spec fn is_ascii_word(c: char) -> bool {
    'a' <= c <= 'z' || 'A' <= c <= 'Z' || '0' <= c <= '9'
}

/// The reference begins with a path segment of letters and digits, so that it names no scheme
/// and no host.
pub open spec fn is_path_reference(reference: Seq<char>) -> bool {
    exists|n: int|
        0 < n < reference.len() && reference[n] == '/' && forall|i: int|
            0 <= i < n ==> is_ascii_word(#[trigger] reference[i])
}

/// The reference is a path of letters, digits, hyphens, underscores, slashes and dots, in which
/// each dot follows a letter or a digit: no segment of it is `.` or `..`, and no character of it
/// is written otherwise in a URL.
pub open spec fn is_clean_reference(reference: Seq<char>) -> bool {
    &&& is_path_reference(reference)
    &&& forall|i: int|
        0 <= i < reference.len() ==> {
            let c = #[trigger] reference[i];
            ||| is_ascii_word(c)
            ||| c == '-'
            ||| c == '_'
            ||| c == '/'
            ||| c == '.' && i > 0 && is_ascii_word(reference[i - 1])
        }
}

/// The URL is the root of an `https` site: its path is a slash, and no query and no fragment
/// follow it.
pub open spec fn is_site_root(u: UrlParts) -> bool {
    &&& u.scheme == "https"@
    &&& u.path == "/"@
    &&& forall|i: int| 0 <= i < u.text.len() ==> #[trigger] u.text[i] != '?' && u.text[i] != '#'
}

/// The reference can be joined to the URL in the four gigabytes that a URL may take: each
/// character of it takes up to twelve bytes there.
pub open spec fn fits_behind(u: UrlParts, reference: Seq<char>) -> bool {
    u.text.len() + 12 * reference.len() < 0xffff_ffff
}

/// A reference that is no URL by itself keeps the scheme of the base. One that begins with a plain
/// path segment keeps the scheme and the host, and can be joined to an `https` base where the two
/// are short enough. A clean reference to the root of a site is written behind it as it stands.
pub open spec fn joins_as_promised(
    base: Seq<char>,
    reference: Seq<char>,
    joined: Result<UrlParts, Seq<char>>,
) -> bool {
    match url_parse(base) {
        Ok(b) => {
            &&& url_parse(reference) is Err && joined is Ok ==> joined->Ok_0.scheme == b.scheme
            &&& is_path_reference(reference) && joined is Ok ==> joined->Ok_0.scheme == b.scheme
                && joined->Ok_0.host == b.host
            &&& is_path_reference(reference) && b.scheme == "https"@ && fits_behind(b, reference)
                ==> joined is Ok
            &&& is_site_root(b) && is_clean_reference(reference) ==> {
                &&& joined is Ok
                &&& joined->Ok_0.text == b.text + reference
                &&& joined->Ok_0.path == "/"@ + reference
            }
        },
        Err(e) => joined == Err::<UrlParts, Seq<char>>(e),
    }
}

/// Calls `url::Url::parse` and takes the URL apart with `as_str`, `scheme`, `host_str` and
/// `path`; an error is given by its `Display` text. The result depends on the text alone.
///
/// Of that result it claims that a text which begins with a slash is no absolute URL, that a path
/// which begins with a slash holds no white space (the parser percent-encodes it), and that the
/// URL is settled. Its text then begins with a letter and has no white space around it, and reading
/// it again, alone or behind another URL, gives a URL with the same scheme if it gives one. If it
/// uses `https` or `http`, it has a host and its text parses to the same URL, unless a label of the
/// host is longer than what the parser decodes. Which texts are URLs otherwise, and what their
/// parts are, is left to the parser.
#[verifier::external_body]
pub(crate) fn parse_url(value: &str) -> (r: Result<DocUrl, String>)
    ensures
        text::viewed(r) == url_parse(value@),
        value@.len() > 0 && value@[0] == '/' ==> r is Err,
        r matches Ok(u) ==> (u@.path.len() > 0 && u@.path[0] == '/' ==> text::no_white_space(
            u@.path,
        )),
        r matches Ok(u) ==> is_settled(u@),
{
    match url::Url::parse(value) {
        Ok(u) => Ok(DocUrl {
            text: u.as_str().to_string(),
            scheme: u.scheme().to_string(),
            host: u.host_str().map(str::to_string),
            path: u.path().to_string(),
        }),
        Err(e) => Err(e.to_string()),
    }
}

/// Calls `url::Url::join` on the URL with the text `base`, and takes the result apart as
/// `parse_url` does. The result depends on the two texts alone; where `base` is no URL, it is the
/// error of parsing it.
///
/// Of that result it claims that it is settled, as `parse_url` does; that a reference which is no
/// URL by itself keeps the scheme of the base; that one which begins with a plain path segment
/// keeps the scheme and the host of the base, and can be joined to an `https` URL where the two are
/// short enough; and that a clean reference to the root of a site is written behind it as it
/// stands. How other references are resolved is left to the parser.
#[verifier::external_body]
pub(crate) fn join_url(base: &str, reference: &str) -> (r: Result<DocUrl, String>)
    ensures
        text::viewed(r) == url_join(base@, reference@),
        r matches Ok(u) ==> is_settled(u@),
        joins_as_promised(base@, reference@, text::viewed(r)),
{
    let base = match url::Url::parse(base) {
        Ok(b) => b,
        Err(e) => return Err(e.to_string()),
    };
    match base.join(reference) {
        Ok(u) => Ok(DocUrl {
            text: u.as_str().to_string(),
            scheme: u.scheme().to_string(),
            host: u.host_str().map(str::to_string),
            path: u.path().to_string(),
        }),
        Err(e) => Err(e.to_string()),
    }
}

impl DocUrl {
    /// Parses an absolute URL.
    pub fn parse(value: &str) -> (r: Result<DocUrl, String>)
        ensures
            text::viewed(r) == url_parse(value@),
            r matches Ok(u) ==> is_settled(u@),
    {
        parse_url(value)
    }
}

/// The configured URL that a text gives.
pub open spec fn site_from(value: Seq<char>) -> Result<SiteParts, Seq<char>> {
    match url_parse(value) {
        Ok(url) => Ok(SiteParts { given: value, url }),
        Err(e) => Err(e),
    }
}

/// The URL is the one that the text parses to.
pub open spec fn is_parsed(site: SiteParts) -> bool {
    url_parse(site.given) == Ok::<UrlParts, Seq<char>>(site.url)
}

impl SiteUrl {
    /// Parses an absolute URL and keeps the text.
    pub fn parse(value: &str) -> (r: Result<SiteUrl, String>)
        ensures
            text::viewed(r) == site_from(value@),
            r matches Ok(site) ==> is_parsed(site@) && is_settled(site@.url),
    {
        match parse_url(value) {
            Ok(url) => Ok(SiteUrl { given: value.to_owned(), url }),
            Err(e) => Err(e),
        }
    }
}

// ---------------------------------------------------------------------------------------------
// Which URLs name a documentation page
// ---------------------------------------------------------------------------------------------

/// Why a URL names no page of the site `base`: it does not use `https`, it has no host, the site
/// has none, or the two hosts differ, in this order; `None` where it is accepted.
pub open spec fn refusal(base: UrlParts, candidate: UrlParts) -> Option<Seq<char>> {
    if candidate.scheme != "https"@ {
        Some("document URL must use https"@)
    } else if candidate.host is None {
        Some("document URL must include a host"@)
    } else if base.host is None {
        Some("configured docs site URL is missing a host"@)
    } else if candidate.host != base.host {
        Some("document URL host must be "@ + base.host->0)
    } else {
        None
    }
}

/// Accepts a URL that uses `https` and has the host of the site `base`.
pub fn validate_doc_url(base_url: &DocUrl, candidate: &DocUrl) -> (r: Result<(), String>)
    ensures
        match r {
            Ok(_) => refusal(base_url@, candidate@) is None,
            Err(e) => refusal(base_url@, candidate@) == Some(e@),
        },
{
    if !text::same_text(&candidate.scheme, "https") {
        return Err("document URL must use https".to_owned());
    }
    let host = match &candidate.host {
        Some(host) => host,
        None => {
            return Err("document URL must include a host".to_owned());
        },
    };
    let base_host = match &base_url.host {
        Some(base_host) => base_host,
        None => {
            return Err("configured docs site URL is missing a host".to_owned());
        },
    };
    if !text::same_text(host, base_host) {
        return Err(text::concat("document URL host must be ", base_host));
    }
    Ok(())
}

/// The URL that was found for a page, where it names a page of the site.
pub open spec fn accepted(base: UrlParts, found: Result<UrlParts, Seq<char>>) -> Result<
    UrlParts,
    Seq<char>,
> {
    match found {
        Ok(u) => match refusal(base, u) {
            Some(e) => Err(e),
            None => Ok(u),
        },
        Err(e) => Err("invalid document URL: "@ + e),
    }
}

/// Accepts the URL that was found for a page, or says why there is none.
pub fn accept_doc_url(base_url: &DocUrl, found: Result<DocUrl, String>) -> (r: Result<
    DocUrl,
    String,
>)
    ensures
        text::viewed(r) == accepted(base_url@, text::viewed(found)),
{
    match found {
        Ok(url) => match validate_doc_url(base_url, &url) {
            Ok(_) => Ok(url),
            Err(e) => Err(e),
        },
        Err(e) => Err(text::concat("invalid document URL: ", &e)),
    }
}

/// The URL that a client means by `value`: `value` itself where it is an absolute URL, else the
/// page of the site with that path. White space around `value` and slashes before a path do not
/// count.
pub open spec fn meant_url(site: SiteParts, value: Seq<char>) -> Result<UrlParts, Seq<char>> {
    match query::normalized_query(value) {
        Ok(v) => match url_parse(v) {
            Ok(u) => accepted(site.url, Ok(u)),
            Err(_) => accepted(site.url, url_join(site.given, text::strip_leading(v, '/'))),
        },
        Err(e) => Err(e),
    }
}

/// The request is an absolute URL, with or without slashes before it.
pub open spec fn names_a_url(value: Seq<char>) -> bool {
    let v = text::trim(value);
    url_parse(v) is Ok || url_parse(text::strip_leading(v, '/')) is Ok
}

/// The URL that a client means by `value`. Its text means it too, unless a label of its host is too
/// long to be read again. On a site without `https`, only an absolute URL is accepted.
pub fn normalize_doc_url(base_url: &SiteUrl, value: &str) -> (r: Result<DocUrl, String>)
    ensures
        text::viewed(r) == meant_url(base_url@, value@),
        r matches Ok(u) ==> is_settled(u@),
        r matches Ok(u) ==> (has_readable_labels(u@.host->0) ==> meant_url(base_url@, u@.text)
            == Ok::<UrlParts, Seq<char>>(u@)),
        is_parsed(base_url@) && base_url@.url.scheme != "https"@ && !names_a_url(value@)
            ==> r is Err,
{
    let value = match query::normalize_query(value) {
        Ok(value) => value,
        Err(e) => {
            return Err(e);
        },
    };
    let found = match parse_url(value) {
        Ok(url) => Ok(url),
        Err(_) => join_url(&base_url.given, &without_leading_slashes(value)),
    };
    accept_doc_url(&base_url.url, found)
}

/// A path without the slashes before it.
fn without_leading_slashes(path: &str) -> (r: String)
    ensures
        r@ == text::strip_leading(path@, '/'),
{
    let chars = text::to_chars(path);
    text::to_text(text::skip_char(&chars, '/'))
}

/// The text of the URL of a page: `path` itself where it is an absolute URL, else the page of the
/// site with that path. `None` where the site cannot be joined with a path.
pub open spec fn page_url(site: SiteParts, path: Seq<char>) -> Option<Seq<char>> {
    match url_parse(path) {
        Ok(u) => Some(u.text),
        Err(_) => match url_join(site.given, text::strip_leading(path, '/')) {
            Ok(u) => Some(u.text),
            Err(_) => None,
        },
    }
}

/// A path that is written with a slash before it, without white space around it, and whose first
/// segment is made of letters and digits.
pub open spec fn is_plain_path(path: Seq<char>) -> bool {
    &&& path.len() > 0
    &&& path[0] == '/'
    &&& text::trim(path) == path
    &&& is_path_reference(text::strip_leading(path, '/'))
}

/// A site whose pages clients may ask for: it was parsed, and it uses `https`.
pub open spec fn is_docs_site(site: SiteParts) -> bool {
    is_parsed(site) && site.url.scheme == "https"@
}

/// The URLs of the pages of the site can be read again: no label of its host is too long for that.
pub open spec fn has_readable_host(site: SiteParts) -> bool {
    has_readable_labels(site.url.host->0)
}

/// A client that asks for the path of a page means the URL of the page.
pub open spec fn names_page(site: SiteParts, path: Seq<char>, url: Seq<char>) -> bool {
    meant_url(site, path) matches Ok(u) && u.text == url
}

/// A client that asks for the path of a page is refused, and so is one that asks for its URL.
pub open spec fn names_no_page(site: SiteParts, path: Seq<char>, url: Seq<char>) -> bool {
    &&& meant_url(site, path) == Err::<UrlParts, Seq<char>>("document URL must use https"@)
    &&& meant_url(site, url) is Err
}

/// The page has the path behind the root of the site, and that path is the path of its URL.
pub open spec fn keeps_path(site: SiteParts, path: Seq<char>, url: Seq<char>) -> bool {
    &&& url == site.url.text + path.skip(1)
    &&& meant_url(site, path) matches Ok(u)
    &&& u.text == url
    &&& u.path == path
}

/// What a page's URL keeps of the plain path that it was built from. On an `https` site, a client
/// may ask for the page by the path; on any other, the path and the URL are both refused. Where the
/// URLs of the site can be read again, the path and the URL mean the same. On the root of a site, a
/// clean path stands in the URL as it is.
pub open spec fn page_url_keeps(site: SiteParts, path: Seq<char>, url: Seq<char>) -> bool {
    is_parsed(site) && is_plain_path(path) ==> {
        &&& url.len() > 0
        &&& text::trim(url) == url
        &&& is_docs_site(site) ==> names_page(site, path, url)
        &&& !is_docs_site(site) ==> names_no_page(site, path, url)
        &&& is_web_url(site.url) && has_readable_host(site) ==> meant_url(site, url) == meant_url(
            site,
            path,
        )
        &&& is_site_root(site.url) && is_clean_reference(path.skip(1)) ==> keeps_path(
            site,
            path,
            url,
        )
    }
}

/// The text of the URL of a page, for a site that can be joined with the path of the page.
pub fn build_docs_url(base_url: &SiteUrl, path: &str) -> (r: String)
    requires
        page_url(base_url@, path@) is Some,
    ensures
        page_url(base_url@, path@) == Some(r@),
        page_url_keeps(base_url@, path@, r@),
{
    match parse_url(path) {
        Ok(url) => url.text,
        Err(_) => match join_url(&base_url.given, &without_leading_slashes(path)) {
            Ok(url) => {
                proof {
                    if is_parsed(base_url@) && is_plain_path(path@) {
                        lemma_joined_url_keeps(base_url@, path@, url@);
                    }
                }
                url.text
            },
            Err(e) => e,
        },
    }
}

/// What joining promises is what a page's URL keeps.
proof fn lemma_joined_url_keeps(site: SiteParts, path: Seq<char>, u: UrlParts)
    requires
        is_parsed(site),
        is_plain_path(path),
        url_parse(path) is Err,
        url_join(site.given, text::strip_leading(path, '/')) == Ok::<UrlParts, Seq<char>>(u),
        is_settled(u),
        joins_as_promised(
            site.given,
            text::strip_leading(path, '/'),
            Ok::<UrlParts, Seq<char>>(u),
        ),
    ensures
        page_url_keeps(site, path, u.text),
{
    text::lemma_strip_keeps(u.text, '/');
    if is_site_root(site.url) && is_clean_reference(path.skip(1)) {
        let tail = path.skip(1);
        assert(is_ascii_word(tail[0]));
        assert(text::strip_leading(tail, '/') == tail);
        assert(text::strip_leading(path, '/') == tail);
        reveal_strlit("/");
        assert("/"@ + tail == path);
    }
}

/// The text of the URL of a page, or `None` where the site cannot be joined with its path.
///
/// An `https` site can be joined with every plain path that fits into a URL.
pub fn try_build_docs_url(base_url: &SiteUrl, path: &str) -> (r: Option<String>)
    ensures
        match r {
            Some(u) => page_url(base_url@, path@) == Some(u@) && page_url_keeps(
                base_url@,
                path@,
                u@,
            ),
            None => page_url(base_url@, path@) is None,
        },
        is_docs_site(base_url@) && is_plain_path(path@) && fits_behind(base_url@.url, path@)
            ==> r is Some,
{
    let reference = without_leading_slashes(path);
    proof {
        text::lemma_strip_leading(path@, '/');
    }
    if parse_url(path).is_ok() || join_url(&base_url.given, &reference).is_ok() {
        Some(build_docs_url(base_url, path))
    } else {
        None
    }
}

// ---------------------------------------------------------------------------------------------
// Laws
// ---------------------------------------------------------------------------------------------

/// Every URL that is accepted uses `https` and has the host of the site.
pub proof fn law_accepted_urls_are_on_the_site(site: SiteParts, value: Seq<char>)
    ensures
        meant_url(site, value) matches Ok(u) ==> {
            &&& u.scheme == "https"@
            &&& u.host is Some
            &&& u.host == site.url.host
        },
{
}

/// An absolute URL with another scheme or another host is refused.
pub proof fn law_other_sites_are_refused(site: SiteParts, value: Seq<char>)
    requires
        url_parse(text::trim(value)) is Ok,
        url_parse(text::trim(value))->Ok_0.scheme != "https"@ || url_parse(
            text::trim(value),
        )->Ok_0.host != site.url.host,
    ensures
        meant_url(site, value) is Err,
{
}

/// White space around what a client asks for makes no difference.
pub proof fn law_white_space_around_a_request_is_ignored(site: SiteParts, value: Seq<char>)
    ensures
        meant_url(site, value) == meant_url(site, text::trim(value)),
{
    text::law_trim_is_idempotent(value);
}

/// A URL is accepted for a site if and only if it uses `https` and has the host of the site. What
/// is wrong with one that is refused is said in this order: the scheme, a missing host, a site
/// without a host, another host.
pub proof fn law_urls_of_the_site_are_accepted(base: UrlParts, u: UrlParts)
    ensures
        refusal(base, u) is None <==> u.scheme == "https"@ && u.host is Some && u.host == base.host,
        u.scheme != "https"@ ==> refusal(base, u) == Some("document URL must use https"@),
        u.scheme == "https"@ && u.host is None ==> refusal(base, u) == Some(
            "document URL must include a host"@,
        ),
        u.scheme == "https"@ && u.host is Some && base.host is None ==> refusal(base, u) == Some(
            "configured docs site URL is missing a host"@,
        ),
        u.scheme == "https"@ && u.host is Some && base.host is Some && u.host != base.host
            ==> refusal(base, u) == Some("document URL host must be "@ + base.host->0),
{
}

/// The URL that a request means is the one that the request is, or else the one that it gives
/// behind the site, without the slashes before it. It is accepted unchanged where it uses `https`
/// and has the host of the site, and else the request is refused.
pub proof fn law_requests_mean_their_url(
    site: SiteParts,
    before: Seq<char>,
    slashes: Seq<char>,
    reference: Seq<char>,
    behind: Seq<char>,
    found: Result<UrlParts, Seq<char>>,
)
    requires
        text::is_blank(before),
        text::is_blank(behind),
        text::is_made_of(slashes, '/'),
        reference.len() > 0 ==> reference[0] != '/',
        text::has_bare_ends(slashes + reference),
        slashes.len() + reference.len() > 0,
        found == if url_parse(slashes + reference) is Ok {
            url_parse(slashes + reference)
        } else {
            url_join(site.given, reference)
        },
    ensures
        ({
            let meant = meant_url(site, before + (slashes + reference) + behind);
            match found {
                Ok(u) => if u.scheme != "https"@ {
                    meant == Err::<UrlParts, Seq<char>>("document URL must use https"@)
                } else if u.host is None {
                    meant == Err::<UrlParts, Seq<char>>("document URL must include a host"@)
                } else if site.url.host is None {
                    meant == Err::<UrlParts, Seq<char>>(
                        "configured docs site URL is missing a host"@,
                    )
                } else if u.host != site.url.host {
                    meant == Err::<UrlParts, Seq<char>>(
                        "document URL host must be "@ + site.url.host->0,
                    )
                } else {
                    meant == Ok::<UrlParts, Seq<char>>(u)
                },
                Err(e) => meant == Err::<UrlParts, Seq<char>>("invalid document URL: "@ + e),
            }
        }),
        meant_url(site, before + behind) == Err::<UrlParts, Seq<char>>("query must not be empty"@),
{
    let value = slashes + reference;
    text::law_trim_removes_what_is_around(before, value, behind);
    text::law_strip_removes_what_is_at_the_end(slashes, reference, '/');
    let none = Seq::<char>::empty();
    assert(before + none + behind == before + behind);
    text::law_trim_removes_what_is_around(before, none, behind);
}

/// The URL of a page is the one that its path is, or else the one that it gives behind the site,
/// without the slashes before it.
pub proof fn law_pages_are_joined_to_the_site(
    site: SiteParts,
    slashes: Seq<char>,
    reference: Seq<char>,
)
    requires
        text::is_made_of(slashes, '/'),
        reference.len() > 0 ==> reference[0] != '/',
    ensures
        match url_parse(slashes + reference) {
            Ok(u) => page_url(site, slashes + reference) == Some(u.text),
            Err(_) => match url_join(site.given, reference) {
                Ok(u) => page_url(site, slashes + reference) == Some(u.text),
                Err(_) => page_url(site, slashes + reference) is None,
            },
        },
{
    text::law_strip_removes_what_is_at_the_end(slashes, reference, '/');
}

/// A configured URL keeps the text that was given for it, and is what the parser makes of it.
pub proof fn law_configured_urls_keep_their_text(value: Seq<char>)
    ensures
        match url_parse(value) {
            Ok(url) => site_from(value) matches Ok(site) && site.given == value && site.url == url,
            Err(e) => site_from(value) == Err::<SiteParts, Seq<char>>(e),
        },
{
}

/// URLs are viewed by their fields.
pub proof fn law_urls_are_viewed_as_they_are(url: DocUrl, site: SiteUrl)
    ensures
        url@.text == url.text@,
        url@.scheme == url.scheme@,
        url@.path == url.path@,
        url.host matches Some(host) ==> url@.host == Some(host@),
        url.host is None ==> url@.host is None,
        site@.given == site.given@,
        site@.url == site.url@,
{
}

/// A URL that was found is accepted unchanged or refused with a reason, and where none was found,
/// the reason of the parser is passed on.
pub proof fn law_found_urls_are_not_changed(base: UrlParts, found: Result<UrlParts, Seq<char>>)
    ensures
        match found {
            Ok(u) => if u.scheme == "https"@ && u.host is Some && u.host == base.host {
                accepted(base, found) == Ok::<UrlParts, Seq<char>>(u)
            } else {
                refusal(base, u) is Some && accepted(base, found) == Err::<UrlParts, Seq<char>>(
                    refusal(base, u)->0,
                )
            },
            Err(e) => accepted(base, found) == Err::<UrlParts, Seq<char>>(
                "invalid document URL: "@ + e,
            ),
        },
{
}

} // verus!
