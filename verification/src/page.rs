//! Fetching a page: which URL and which files a request means, and what a client gets of the file
//! that was read.
use vstd::prelude::*;

use crate::doc_url;
use crate::doc_url::{DocUrl, SiteParts, SiteUrl, UrlParts};
use crate::frontmatter;
use crate::query;
use crate::search;
use crate::source;
use crate::source::SourceFile;
use crate::text;

verus! {

broadcast use vstd::string::group_string_axioms;

/// What a client sends: the URL or the path of a page.
#[derive(Debug, PartialEq, Eq)]
pub struct FetchDocRequest {
    pub url: String,
}

/// What a request means: the page, and the files that may hold it, in the order in which they are
/// looked for.
#[derive(Debug, PartialEq, Eq)]
pub struct FetchPlan {
    pub requested_url: String,
    pub doc_url: DocUrl,
    pub files: Vec<SourceFile>,
}

/// What a request means.
#[verifier::ext_equal]
pub struct Wanted {
    pub requested_url: Seq<char>,
    pub doc_url: UrlParts,
    pub files: Seq<Seq<Seq<char>>>,
}

impl View for FetchPlan {
    type V = Wanted;

    open spec fn view(&self) -> Wanted {
        Wanted {
            requested_url: self.requested_url@,
            doc_url: self.doc_url@,
            files: source::files_view(self.files@),
        }
    }
}

/// The file that was found for a page.
#[derive(Debug, PartialEq, Eq)]
pub struct PageFile {
    /// How the file is called.
    pub name: String,
    /// How the file is called once links and the like are resolved, where they can be.
    pub canonical_name: Option<String>,
    /// How the file is called from the root of the file system, where that is known.
    pub absolute_name: Option<String>,
    /// The last part of its path without the extension, where that is a text.
    pub stem: Option<String>,
    /// The extension, where there is one that is a text.
    pub extension: Option<String>,
    /// What it holds, or why it cannot be read.
    pub content: Result<String, String>,
}

/// What a client gets for a page.
#[derive(Debug, PartialEq, Eq)]
pub struct FetchDocResponse {
    pub requested_url: String,
    pub resolved_url: String,
    pub title: String,
    pub description: Option<String>,
    pub content_format: String,
    /// The absolute path of the file in the local copy of the repository. It is there so that
    /// clients can open the file directly, and only suitable for local use.
    pub source_path: String,
    pub content: String,
}

/// What a client gets for a page.
#[verifier::ext_equal]
pub struct Page {
    pub requested_url: Seq<char>,
    pub resolved_url: Seq<char>,
    pub title: Seq<char>,
    pub description: Option<Seq<char>>,
    pub content_format: Seq<char>,
    pub source_path: Seq<char>,
    pub content: Seq<char>,
}

impl View for FetchDocResponse {
    type V = Page;

    open spec fn view(&self) -> Page {
        Page {
            requested_url: self.requested_url@,
            resolved_url: self.resolved_url@,
            title: self.title@,
            description: text::view_of(self.description),
            content_format: self.content_format@,
            source_path: self.source_path@,
            content: self.content@,
        }
    }
}

// ---------------------------------------------------------------------------------------------
// What a request means
// ---------------------------------------------------------------------------------------------

/// What a request for `url` means on a site: the page that it names and the files of the page.
pub open spec fn wanted(site: SiteParts, url: Seq<char>) -> Result<Wanted, Seq<char>> {
    match query::normalized_query(url) {
        Ok(requested_url) => match doc_url::meant_url(site, requested_url) {
            Ok(doc_url) => match source::files_for(doc_url.path) {
                Ok(files) => Ok(Wanted { requested_url, doc_url, files }),
                Err(e) => Err(e),
            },
            Err(e) => Err(e),
        },
        Err(e) => Err(e),
    }
}

/// What a request means on a site.
pub fn plan_fetch(docs_site_url: &SiteUrl, request: &FetchDocRequest) -> (r: Result<
    FetchPlan,
    String,
>)
    ensures
        text::viewed(r) == wanted(docs_site_url@, request.url@),
{
    let requested_url = match query::normalize_query(&request.url) {
        Ok(url) => url,
        Err(e) => {
            return Err(e);
        },
    };
    let doc_url = match doc_url::normalize_doc_url(docs_site_url, requested_url) {
        Ok(url) => url,
        Err(e) => {
            return Err(e);
        },
    };
    match source::source_files(&doc_url) {
        Ok(files) => Ok(FetchPlan { requested_url: requested_url.to_owned(), doc_url, files }),
        Err(e) => Err(e),
    }
}

// ---------------------------------------------------------------------------------------------
// What a client gets
// ---------------------------------------------------------------------------------------------

/// The title of a page: the one in its metadata, else its first heading, else the name of its
/// file.
pub open spec fn title_of(content: Seq<char>, stem: Option<Seq<char>>) -> Seq<char> {
    match frontmatter::value_of(content, "title"@) {
        Some(title) => title,
        None => match frontmatter::heading_of(content) {
            Some(title) => title,
            None => match stem {
                Some(name) => name,
                None => "Untitled document"@,
            },
        },
    }
}

/// The title of a page.
pub fn page_title(content: &str, stem: Option<String>) -> (r: String)
    ensures
        r@ == title_of(content@, text::view_of(stem)),
{
    if let Some(title) = frontmatter::extract_frontmatter_value(content, "title") {
        return title;
    }
    if let Some(title) = frontmatter::extract_heading_title(content) {
        return title;
    }
    match stem {
        Some(name) => name,
        None => "Untitled document".to_owned(),
    }
}

/// The path under which a client finds a file: the canonical one, else the absolute one. Where the
/// system tells neither, the name of the file is all there is.
pub open spec fn source_path_of(file: PageFile) -> Seq<char> {
    match file.canonical_name {
        Some(name) => name@,
        None => match file.absolute_name {
            Some(name) => name@,
            None => file.name@,
        },
    }
}

/// What a client gets of a file, or why it gets nothing.
pub open spec fn page_of(
    requested_url: Seq<char>,
    resolved_url: Seq<char>,
    file: PageFile,
) -> Result<Page, Seq<char>> {
    match file.content {
        Ok(content) => Ok(
            Page {
                requested_url,
                resolved_url,
                title: title_of(content@, text::view_of(file.stem)),
                description: frontmatter::value_of(content@, "description"@),
                content_format: match file.extension {
                    Some(extension) => extension@,
                    None => "text"@,
                },
                source_path: source_path_of(file),
                content: content@,
            },
        ),
        Err(e) => Err("failed to read "@ + file.name@ + ": "@ + e@),
    }
}

/// What a client gets of the file that was found for its request.
pub fn finish_fetch(plan: FetchPlan, file: PageFile) -> (r: Result<FetchDocResponse, String>)
    ensures
        text::viewed(r) == page_of(plan.requested_url@, plan.doc_url.text@, file),
{
    let content = match file.content {
        Ok(content) => content,
        Err(e) => {
            return Err(
                text::concat(&text::concat(&text::concat("failed to read ", &file.name), ": "), &e),
            );
        },
    };
    let title = page_title(&content, file.stem);
    let description = frontmatter::extract_frontmatter_value(&content, "description");
    let content_format = match file.extension {
        Some(extension) => extension,
        None => "text".to_owned(),
    };
    let source_path = match file.canonical_name {
        Some(name) => name,
        None => match file.absolute_name {
            Some(name) => name,
            None => file.name,
        },
    };
    Ok(
        FetchDocResponse {
            requested_url: plan.requested_url,
            resolved_url: plan.doc_url.text,
            title,
            description,
            content_format,
            source_path,
            content,
        },
    )
}

// ---------------------------------------------------------------------------------------------
// Laws
// ---------------------------------------------------------------------------------------------

/// On an `https` site, a page that a search found can be asked for by the path and by the URL of the
/// hit, and both mean the URL of the hit and the same files. On any other site both are refused.
///
/// An `https` site is left out where a label of its host is too long to be read again: there the
/// path of a hit is accepted and its URL is not.
pub proof fn law_found_pages_can_be_fetched(site: SiteParts, hit: search::Hit)
    requires
        doc_url::is_parsed(site),
        doc_url::is_docs_site(site) ==> doc_url::has_readable_host(site),
        search::can_be_fetched(site, hit),
    ensures
        !doc_url::is_docs_site(site) ==> wanted(site, hit.path) == Err::<Wanted, Seq<char>>(
            "document URL must use https"@,
        ) && wanted(site, hit.url) is Err,
        doc_url::is_docs_site(site) ==> {
            &&& doc_url::meant_url(site, hit.path) matches Ok(page)
            &&& page.text == hit.url
            &&& doc_url::meant_url(site, hit.url) == Ok::<UrlParts, Seq<char>>(page)
            &&& match source::files_for(page.path) {
                Ok(files) => {
                    &&& wanted(site, hit.path) == Ok::<Wanted, Seq<char>>(
                        (Wanted { requested_url: hit.path, doc_url: page, files }),
                    )
                    &&& wanted(site, hit.url) == Ok::<Wanted, Seq<char>>(
                        (Wanted { requested_url: hit.url, doc_url: page, files }),
                    )
                },
                Err(e) => {
                    &&& wanted(site, hit.path) == Err::<Wanted, Seq<char>>(e)
                    &&& wanted(site, hit.url) == Err::<Wanted, Seq<char>>(e)
                },
            }
        },
        wanted(site, hit.path) is Ok <==> wanted(site, hit.url) is Ok,
{
}

/// What a client gets that asks for `url`: the page in the first of the files that is there, given
/// for some files whether they are there, and for a file what was read.
pub open spec fn answer(
    site: SiteParts,
    url: Seq<char>,
    content_root: Seq<char>,
    present: spec_fn(Seq<Seq<Seq<char>>>) -> Seq<bool>,
    read: spec_fn(Seq<Seq<char>>) -> PageFile,
) -> Result<Page, Seq<char>> {
    match wanted(site, url) {
        Ok(w) => match source::resolved(w.doc_url, content_root, present(w.files)) {
            Ok(file) => page_of(w.requested_url, w.doc_url.text, read(file)),
            Err(e) => Err(e),
        },
        Err(e) => Err(e),
    }
}

/// A client that asks for the path of a hit gets a page if and only if it gets one for the URL of
/// the hit. The two answers are the same but for what was requested, and the page is resolved to
/// the URL of the hit.
///
/// An `https` site is left out where a label of its host is too long to be read again.
pub proof fn law_hits_are_answered_alike(
    site: SiteParts,
    hit: search::Hit,
    content_root: Seq<char>,
    present: spec_fn(Seq<Seq<Seq<char>>>) -> Seq<bool>,
    read: spec_fn(Seq<Seq<char>>) -> PageFile,
)
    requires
        doc_url::is_parsed(site),
        doc_url::is_docs_site(site) ==> doc_url::has_readable_host(site),
        search::can_be_fetched(site, hit),
    ensures
        match (
            answer(site, hit.path, content_root, present, read),
            answer(site, hit.url, content_root, present, read),
        ) {
            (Ok(by_path), Ok(by_url)) => {
                &&& by_path.requested_url == hit.path
                &&& by_url.requested_url == hit.url
                &&& by_path.resolved_url == hit.url
                &&& by_path == (Page { requested_url: hit.path, ..by_url })
            },
            (Err(by_path), Err(by_url)) => doc_url::is_docs_site(site) ==> by_path == by_url,
            _ => false,
        },
{
    law_found_pages_can_be_fetched(site, hit);
}

/// A client is told the canonical path of the file; where it is not known, the absolute path. Only
/// where neither is known, it is told the name under which the file was read.
pub proof fn law_clients_find_files_by_their_full_path(
    requested_url: Seq<char>,
    resolved_url: Seq<char>,
    file: PageFile,
)
    ensures
        page_of(requested_url, resolved_url, file) matches Ok(page) ==> {
            &&& file.canonical_name matches Some(name) ==> page.source_path == name@
            &&& file.canonical_name is None ==> (file.absolute_name matches Some(name)
                ==> page.source_path == name@)
            &&& file.canonical_name is None && file.absolute_name is None ==> page.source_path
                == file.name@
        },
{
}

/// On the root of a site, a hit with a clean path leads to the files of that path, and its URL is
/// the root with the path behind it. The URL leads to the same files, unless a label of the host is
/// too long to be read again.
pub proof fn law_clean_hits_lead_to_their_files(site: SiteParts, hit: search::Hit)
    requires
        doc_url::is_docs_site(site),
        doc_url::is_site_root(site.url),
        doc_url::is_clean_reference(hit.path.skip(1)),
        search::can_be_fetched(site, hit),
    ensures
        hit.url == site.url.text + hit.path.skip(1),
        match source::files_for(hit.path) {
            Ok(files) => {
                &&& wanted(site, hit.path) matches Ok(w)
                &&& w.files == files
                &&& doc_url::has_readable_host(site) ==> (wanted(site, hit.url) matches Ok(w)
                    && w.files == files)
            },
            Err(e) => {
                &&& wanted(site, hit.path) == Err::<Wanted, Seq<char>>(e)
                &&& doc_url::has_readable_host(site) ==> wanted(site, hit.url) == Err::<
                    Wanted,
                    Seq<char>,
                >(e)
            },
        },
{
}

/// White space around a request makes no difference.
pub proof fn law_white_space_around_a_request_is_ignored(site: SiteParts, url: Seq<char>)
    ensures
        wanted(site, url) == wanted(site, text::trim(url)),
{
    text::law_trim_is_idempotent(url);
}

/// Every request that is answered means a page of the site, over `https`.
pub proof fn law_answered_requests_are_on_the_site(site: SiteParts, url: Seq<char>)
    ensures
        wanted(site, url) matches Ok(w) ==> {
            &&& w.doc_url.scheme == "https"@
            &&& w.doc_url.host == site.url.host
            &&& source::route_of(w.doc_url.path) is Some
        },
{
}

/// A client gets the file as it is, metadata and all, and a title that is not empty unless the
/// name of the file is.
pub proof fn law_pages_are_passed_on_whole(
    requested_url: Seq<char>,
    resolved_url: Seq<char>,
    file: PageFile,
)
    requires
        file.stem matches Some(name) ==> name@.len() > 0,
    ensures
        page_of(requested_url, resolved_url, file) matches Ok(page) ==> {
            &&& file.content is Ok
            &&& page.content == file.content->Ok_0@
            &&& page.title.len() > 0
            &&& page.description matches Some(d) ==> d.len() > 0
        },
{
    reveal_strlit("Untitled document");
}

/// What a request means: the URL that it is or that it gives behind the site, and the files of that
/// page. The request is repeated as it was sent, white space around it aside. What is wrong with the
/// request, the URL or the path is passed on as it is.
pub proof fn law_requests_mean_their_page(
    site: SiteParts,
    before: Seq<char>,
    request: Seq<char>,
    behind: Seq<char>,
)
    requires
        text::is_blank(before),
        text::is_blank(behind),
        text::has_bare_ends(request),
    ensures
        ({
            let w = wanted(site, before + request + behind);
            &&& request.len() == 0 ==> w == Err::<Wanted, Seq<char>>("query must not be empty"@)
            &&& request.len() > 0 ==> match doc_url::meant_url(site, request) {
                Err(e) => w == Err::<Wanted, Seq<char>>(e),
                Ok(u) => match source::files_for(u.path) {
                    Err(e) => w == Err::<Wanted, Seq<char>>(e),
                    Ok(files) => w == Ok::<Wanted, Seq<char>>(
                        (Wanted { requested_url: request, doc_url: u, files }),
                    ),
                },
            }
        }),
{
    text::law_trim_removes_what_is_around(before, request, behind);
}

/// A client gets the page of the file, with the URLs that it asked for and that it was led to, its
/// description and its content as the file has them, and its format by the extension of the file.
/// A file that cannot be read is an error that names the file and the reason.
pub proof fn law_pages_tell_what_the_file_says(
    requested_url: Seq<char>,
    resolved_url: Seq<char>,
    file: PageFile,
)
    ensures
        match file.content {
            Ok(content) => {
                &&& page_of(requested_url, resolved_url, file) matches Ok(page)
                &&& page.requested_url == requested_url
                &&& page.resolved_url == resolved_url
                &&& page.content == content@
                &&& page.description == frontmatter::value_of(content@, "description"@)
                &&& file.extension matches Some(e) ==> page.content_format == e@
                &&& file.extension is None ==> page.content_format == "text"@
            },
            Err(e) => page_of(requested_url, resolved_url, file) == Err::<Page, Seq<char>>(
                "failed to read "@ + file.name@ + ": "@ + e@,
            ),
        },
{
}

/// The title of a page is the one in its metadata; without one, its first heading; without both, the
/// name of its file; and without a name, that it has none.
pub proof fn law_titles_come_from_the_best_source(
    requested_url: Seq<char>,
    resolved_url: Seq<char>,
    file: PageFile,
)
    ensures
        page_of(requested_url, resolved_url, file) matches Ok(page) ==> {
            let content = file.content->Ok_0@;
            let meta = frontmatter::value_of(content, "title"@);
            let heading = frontmatter::heading_of(content);
            &&& page.title == title_of(content, text::view_of(file.stem))
            &&& meta is Some ==> page.title == meta->0
            &&& meta is None && heading is Some ==> page.title == heading->0
            &&& meta is None && heading is None ==> match file.stem {
                Some(name) => page.title == name@,
                None => page.title == "Untitled document"@,
            }
        },
{
}

/// A title and a description that stand in the metadata of a page, without quotes around them, are
/// what a client gets, whole.
pub proof fn law_metadata_reaches_the_client(
    requested_url: Seq<char>,
    resolved_url: Seq<char>,
    file: PageFile,
    value: Seq<char>,
    rest: Seq<char>,
)
    requires
        file.content is Ok,
        text::is_one_line(value),
        value.len() > 0,
        text::has_bare_ends(value),
        value != "|"@ && value != ">"@ && value != "|-"@ && value != ">-"@ && value != "|+"@ && value
            != ">+"@,
        value.len() < 2 || value[0] != value.last() || (value[0] != '"' && value[0] != '\''),
    ensures
        file.content->Ok_0@ == frontmatter::page_with("title"@, value, rest) ==> (page_of(
            requested_url,
            resolved_url,
            file,
        ) matches Ok(page) && page.title == value),
        file.content->Ok_0@ == frontmatter::page_with("description"@, value, rest) ==> (page_of(
            requested_url,
            resolved_url,
            file,
        ) matches Ok(page) && page.description == Some(value)),
{
    reveal_strlit("title");
    reveal_strlit("description");
    frontmatter::law_unquoted_values_are_read_back("title"@, value, rest);
    frontmatter::law_unquoted_values_are_read_back("description"@, value, rest);
}

/// A plan and an answer are viewed by their fields.
pub proof fn law_answers_are_viewed_as_they_are(plan: FetchPlan, response: FetchDocResponse)
    ensures
        plan@.requested_url == plan.requested_url@,
        plan@.doc_url == plan.doc_url@,
        plan@.files == source::files_view(plan.files@),
        response@.requested_url == response.requested_url@,
        response@.resolved_url == response.resolved_url@,
        response@.title == response.title@,
        response.description matches Some(d) ==> response@.description == Some(d@),
        response.description is None ==> response@.description is None,
        response@.content_format == response.content_format@,
        response@.source_path == response.source_path@,
        response@.content == response.content@,
{
}

} // verus!
