//! From the path of a page to the files of the documentation repository that may hold it.
use vstd::prelude::*;
use vstd::slice::slice_subrange;

use crate::doc_url::{DocUrl, UrlParts};
use crate::text;

verus! {

broadcast use vstd::string::group_string_axioms;

/// A file of the repository: the parts of its path, to be joined in turn behind the root of the
/// repository.
#[derive(Debug, PartialEq, Eq)]
pub struct SourceFile {
    pub parts: Vec<String>,
}

impl View for SourceFile {
    type V = Seq<Seq<char>>;

    open spec fn view(&self) -> Seq<Seq<char>> {
        text::texts(self.parts@)
    }
}

/// The views of some files.
pub open spec fn files_view(files: Seq<SourceFile>) -> Seq<Seq<Seq<char>>> {
    files.map_values(|f: SourceFile| f@)
}

/// The collections of the repository, each with the route below `/docs/` that it serves.
pub open spec fn collection_routes() -> Seq<(Seq<char>, Seq<char>)> {
    seq![
        ("doc-sdk-javascript-1x"@, "1.x/sdk/javascript"@),
        ("doc-sdk-python-1x"@, "1.x/sdk/python"@),
        ("doc-sdk-dotnet"@, "sdk/dotnet"@),
        ("doc-sdk-golang"@, "sdk/golang"@),
        ("doc-sdk-java"@, "sdk/java"@),
        ("doc-sdk-javascript"@, "sdk/javascript"@),
        ("doc-sdk-php"@, "sdk/php"@),
        ("doc-sdk-python"@, "sdk/python"@),
        ("doc-sdk-rust"@, "sdk/rust"@),
        ("doc-surrealdb"@, "surrealdb"@),
        ("doc-cloud"@, "cloud"@),
        ("doc-surrealist"@, "surrealist"@),
        ("doc-surrealml"@, "surrealml"@),
        ("doc-surrealql"@, "surrealql"@),
        ("doc-integrations"@, "integrations"@),
        ("doc-tutorials"@, "tutorials"@),
        ("labs-items"@, "labs"@),
    ]
}

/// The collections of the repository, each with the route that it serves.
fn routes() -> (r: Vec<(&'static str, &'static str)>)
    ensures
        r@.map_values(|p: (&'static str, &'static str)| (p.0@, p.1@)) == collection_routes(),
{
    vec![
        ("doc-sdk-javascript-1x", "1.x/sdk/javascript"),
        ("doc-sdk-python-1x", "1.x/sdk/python"),
        ("doc-sdk-dotnet", "sdk/dotnet"),
        ("doc-sdk-golang", "sdk/golang"),
        ("doc-sdk-java", "sdk/java"),
        ("doc-sdk-javascript", "sdk/javascript"),
        ("doc-sdk-php", "sdk/php"),
        ("doc-sdk-python", "sdk/python"),
        ("doc-sdk-rust", "sdk/rust"),
        ("doc-surrealdb", "surrealdb"),
        ("doc-cloud", "cloud"),
        ("doc-surrealist", "surrealist"),
        ("doc-surrealml", "surrealml"),
        ("doc-surrealql", "surrealql"),
        ("doc-integrations", "integrations"),
        ("doc-tutorials", "tutorials"),
        ("labs-items", "labs"),
    ]
}

/// The route below `/docs/` that the path of a page names. Slashes around the path do not count.
pub open spec fn route_of(path: Seq<char>) -> Option<Seq<char>> {
    text::after_prefix(
        text::strip_trailing(text::strip_leading(path, '/'), '/'),
        "docs/"@,
    )
}

/// The route is the collection's own or lies below it.
pub open spec fn serves(prefix: Seq<char>, route: Seq<char>) -> bool {
    route == prefix || text::has_prefix(route, prefix + "/"@)
}

/// The name of a page within its collection: the route behind the collection's own.
pub open spec fn slug_of(prefix: Seq<char>, route: Seq<char>) -> Seq<char> {
    text::strip_leading(route.skip(prefix.len() as int), '/')
}

/// The files that may hold a page of a collection: for the page of the collection itself its
/// index, else the file with the page's name or the index of the directory with that name. MDX
/// comes before plain Markdown.
pub open spec fn candidates(root: Seq<Seq<char>>, slug: Seq<char>) -> Seq<Seq<Seq<char>>> {
    if slug.len() == 0 {
        seq![root.push("index.mdx"@), root.push("index.md"@)]
    } else {
        seq![
            root.push(slug + ".mdx"@),
            root.push(slug + ".md"@),
            root.push(slug).push("index.mdx"@),
            root.push(slug).push("index.md"@),
        ]
    }
}

/// The directory of a collection.
pub open spec fn collection_root(collection: Seq<char>) -> Seq<Seq<char>> {
    seq!["src/content"@, collection]
}

/// The files that may hold the page of a route, as the first `n` collections have it.
pub open spec fn files_in(route: Seq<char>, n: nat) -> Seq<Seq<Seq<char>>>
    decreases n,
{
    if n == 0 {
        Seq::empty()
    } else {
        let (collection, prefix) = collection_routes()[n - 1];
        let before = files_in(route, (n - 1) as nat);
        if serves(prefix, route) {
            before + candidates(collection_root(collection), slug_of(prefix, route))
        } else {
            before
        }
    }
}

/// The files that may hold the page at a path, in the order in which they are looked for; or why
/// the path names no page.
pub open spec fn files_for(path: Seq<char>) -> Result<Seq<Seq<Seq<char>>>, Seq<char>> {
    match route_of(path) {
        Some(route) => Ok(files_in(route, collection_routes().len())),
        None => Err("unsupported docs path: "@ + path),
    }
}

/// The file whose parts are those of a directory and one or two more.
fn file_below(root: &Vec<String>, name: String, inner: Option<String>) -> (r: SourceFile)
    ensures
        r@ == {
            let parts = text::texts(root@).push(name@);
            match inner {
                Some(i) => parts.push(i@),
                None => parts,
            }
        },
{
    let mut parts: Vec<String> = Vec::new();
    let mut i: usize = 0;
    while i < root.len()
        invariant
            i <= root@.len(),
            text::texts(parts@) == text::texts(root@).take(i as int),
        decreases root@.len() - i,
    {
        let ghost before = parts@;
        parts.push(root[i].clone());
        assert(text::texts(parts@) == text::texts(before).push(
            root@[i as int]@,
        ));
        assert(text::texts(root@).take(i + 1) == text::texts(root@).take(i as int).push(root@[i as int]@));
        i = i + 1;
    }
    assert(text::texts(root@).take(i as int) == text::texts(root@));
    let ghost before = parts@;
    parts.push(name);
    let ghost named = parts@;
    assert(text::texts(named) == text::texts(before).push(name@));
    assert(text::texts(named) == text::texts(root@).push(name@));
    if let Some(inner) = inner {
        parts.push(inner);
        assert(text::texts(parts@) == text::texts(named).push(inner@));
    }
    SourceFile { parts }
}

/// The files that may hold a page of a collection, given the directory of the collection.
pub fn source_candidates(root: &Vec<String>, slug: &str) -> (r: Vec<SourceFile>)
    ensures
        files_view(r@) == candidates(text::texts(root@), slug@),
{
    if slug.is_empty() {
        let r = vec![
            file_below(root, "index.mdx".to_owned(), None),
            file_below(root, "index.md".to_owned(), None),
        ];
        assert(files_view(r@) == candidates(text::texts(root@), slug@));
        return r;
    }
    let r = vec![
        file_below(root, text::concat(slug, ".mdx"), None),
        file_below(root, text::concat(slug, ".md"), None),
        file_below(root, slug.to_owned(), Some("index.mdx".to_owned())),
        file_below(root, slug.to_owned(), Some("index.md".to_owned())),
    ];
    assert(files_view(r@) == candidates(text::texts(root@), slug@));
    r
}

/// The name of a page within the collection with this route, where the collection serves it.
fn slug_in(prefix: &str, route: &[char]) -> (r: Option<String>)
    ensures
        match r {
            Some(slug) => serves(prefix@, route@) && slug@ == slug_of(prefix@, route@),
            None => !serves(prefix@, route@),
        },
{
    let own = text::to_chars(prefix);
    let below = text::to_chars(&text::concat(prefix, "/"));
    if text::same_chars(route, &own) || text::starts_with(route, &below) {
        let rest = slice_subrange(route, own.len(), route.len());
        Some(text::to_text(text::skip_char(rest, '/')))
    } else {
        None
    }
}

/// The files that may hold the page with this URL, in the order in which they are looked for.
pub fn source_files(doc_url: &DocUrl) -> (r: Result<Vec<SourceFile>, String>)
    ensures
        match r {
            Ok(files) => files_for(doc_url.path@) == Ok::<Seq<Seq<Seq<char>>>, Seq<char>>(
                files_view(files@),
            ),
            Err(e) => files_for(doc_url.path@) == Err::<Seq<Seq<Seq<char>>>, Seq<char>>(e@),
        },
{
    let path = text::to_chars(&doc_url.path);
    let bare = text::cut_char(text::skip_char(&path, '/'), '/');
    let route = match text::strip_prefix(bare, &text::to_chars("docs/")) {
        Some(route) => route,
        None => {
            return Err(text::concat("unsupported docs path: ", &doc_url.path));
        },
    };
    let routes = routes();
    let mut files: Vec<SourceFile> = Vec::new();
    let mut i: usize = 0;
    assert(files_view(files@) == Seq::<Seq<Seq<char>>>::empty());
    while i < routes.len()
        invariant
            i <= routes@.len(),
            routes@.map_values(|p: (&'static str, &'static str)| (p.0@, p.1@))
                == collection_routes(),
            route_of(doc_url.path@) == Some(route@),
            files_view(files@) == files_in(route@, i as nat),
        decreases routes@.len() - i,
    {
        let (collection, prefix) = routes[i];
        assert(collection_routes()[i as int] == (collection@, prefix@));
        if let Some(slug) = slug_in(prefix, route) {
            let root = vec!["src/content".to_owned(), collection.to_owned()];
            assert(text::texts(root@) == collection_root(collection@));
            let mut more = source_candidates(&root, &slug);
            let ghost before = files@;
            let ghost added = more@;
            files.append(&mut more);
            assert(files_view(files@) == files_view(before) + files_view(added));
        }
        i = i + 1;
    }
    Ok(files)
}

/// The first index at which there is `true`.
pub open spec fn first_present(present: Seq<bool>) -> Option<int>
    decreases present.len(),
{
    if present.len() == 0 {
        None
    } else if present[0] {
        Some(0)
    } else {
        match first_present(present.skip(1)) {
            Some(i) => Some(i + 1),
            None => None,
        }
    }
}

/// The file that holds the page at a path: the first of its files that is there.
pub open spec fn resolved(url: UrlParts, content_root: Seq<char>, present: Seq<bool>) -> Result<
    Seq<Seq<char>>,
    Seq<char>,
> {
    match files_for(url.path) {
        Ok(files) => match first_present(present) {
            Some(i) => Ok(files[i]),
            None => Err(
                "could not map "@ + url.text + " to a source file under "@ + content_root,
            ),
        },
        Err(e) => Err(e),
    }
}

/// The file that holds the page with this URL, given which of its files are there. `content_root`
/// is how the directory of the collections is called in an error.
pub fn resolve_doc_source_path(doc_url: &DocUrl, content_root: &str, present: &Vec<bool>) -> (r:
    Result<SourceFile, String>)
    requires
        files_for(doc_url.path@) matches Ok(files) ==> files.len() == present@.len(),
    ensures
        text::viewed(r) == resolved(doc_url@, content_root@, present@),
{
    let mut files = match source_files(doc_url) {
        Ok(files) => files,
        Err(e) => {
            return Err(e);
        },
    };
    let mut i: usize = 0;
    assert(present@.skip(0) == present@);
    while i < present.len()
        invariant
            i <= present@.len() == files@.len(),
            files_for(doc_url.path@) == Ok::<Seq<Seq<Seq<char>>>, Seq<char>>(files_view(files@)),
            first_present(present@) == match first_present(present@.skip(i as int)) {
                Some(k) => Some(k + i),
                None => None,
            },
        decreases present@.len() - i,
    {
        assert(present@.skip(i as int).skip(1) == present@.skip(i + 1));
        if present[i] {
            assert(files_view(files@)[i as int] == files@[i as int]@);
            return Ok(files.remove(i));
        }
        i = i + 1;
    }
    Err(
        text::concat(
            &text::concat(
                &text::concat("could not map ", &doc_url.text),
                " to a source file under ",
            ),
            content_root,
        ),
    )
}

// ---------------------------------------------------------------------------------------------
// Laws
// ---------------------------------------------------------------------------------------------

/// A route belongs to one collection at most, so that the order of the collections does not
/// matter.
pub proof fn law_one_collection_serves_a_route(route: Seq<char>, i: int, j: int)
    requires
        0 <= i < collection_routes().len(),
        0 <= j < collection_routes().len(),
        serves(collection_routes()[i].1, route),
        serves(collection_routes()[j].1, route),
    ensures
        i == j,
{
    let p = collection_routes()[i].1;
    let q = collection_routes()[j].1;
    if p.len() <= q.len() {
        lemma_served_routes_are_nested(p, q, route);
        lemma_collections_are_not_nested(i, j);
    } else {
        lemma_served_routes_are_nested(q, p, route);
        lemma_collections_are_not_nested(j, i);
    }
}

/// Of two routes that serve a third one, the longer is the shorter or lies below it.
proof fn lemma_served_routes_are_nested(p: Seq<char>, q: Seq<char>, route: Seq<char>)
    requires
        p.len() <= q.len(),
        serves(p, route),
        serves(q, route),
    ensures
        q == p || nested(p, q),
{
    reveal_strlit("/");
    assert forall|k: int| 0 <= k < p.len() implies p[k] == route[k] by {
        if route != p {
            assert(route.take(p.len() as int + 1)[k] == (p + "/"@)[k]);
        }
    }
    assert forall|k: int| 0 <= k < q.len() implies q[k] == route[k] by {
        if route != q {
            assert(route.take(q.len() as int + 1)[k] == (q + "/"@)[k]);
        }
    }
    if p.len() == q.len() {
        assert(p == q);
    } else {
        assert(route.take(p.len() as int + 1)[p.len() as int] == (p + "/"@)[p.len() as int]);
    }
}

/// `q` begins with the segments of `p`.
spec fn nested(p: Seq<char>, q: Seq<char>) -> bool {
    p.len() < q.len() && q[p.len() as int] == '/' && forall|k: int|
        0 <= k < p.len() ==> p[k] == #[trigger] q[k]
}

/// What tells the routes of the collections apart: their length and one character.
spec fn mark(s: Seq<char>) -> (nat, char) {
    (
        s.len(),
        if s.len() == 9 {
            s[7]
        } else if s.len() == 8 || s.len() == 10 {
            s[4]
        } else {
            s[0]
        },
    )
}

/// The marks of the routes, in the order of the collections.
spec fn marks() -> Seq<(nat, char)> {
    seq![
        (18, '1'),
        (14, '1'),
        (10, 'd'),
        (10, 'g'),
        (8, 'j'),
        (14, 's'),
        (7, 's'),
        (10, 'p'),
        (8, 'r'),
        (9, 'd'),
        (5, 'c'),
        (10, 'e'),
        (9, 'm'),
        (9, 'q'),
        (12, 'i'),
        (9, 'l'),
        (4, 'l'),
    ]
}

/// Each route has its mark and ends in no slash. Only the first two begin with a digit, and slashes
/// stand behind three characters or, in those two, behind seven.
proof fn lemma_mark(i: int)
    requires
        0 <= i < collection_routes().len(),
    ensures
        mark(collection_routes()[i].1) == marks()[i],
        i < 2 ==> collection_routes()[i].1[0] == '1',
        i >= 2 ==> collection_routes()[i].1[0] != '1',
        collection_routes()[i].1.last() != '/',
        forall|k: int|
            0 <= k < collection_routes()[i].1.len() && #[trigger] collection_routes()[i].1[k] == '/'
                ==> k == 3 || (k == 7 && i < 2),
{
    let s = collection_routes()[i].1;
    if i == 0 {
        reveal_strlit("1.x/sdk/javascript");
        assert(s == "1.x/sdk/javascript"@);
    } else if i == 1 {
        reveal_strlit("1.x/sdk/python");
        assert(s == "1.x/sdk/python"@);
    } else if i == 2 {
        reveal_strlit("sdk/dotnet");
        assert(s == "sdk/dotnet"@);
    } else if i == 3 {
        reveal_strlit("sdk/golang");
        assert(s == "sdk/golang"@);
    } else if i == 4 {
        reveal_strlit("sdk/java");
        assert(s == "sdk/java"@);
    } else if i == 5 {
        reveal_strlit("sdk/javascript");
        assert(s == "sdk/javascript"@);
    } else if i == 6 {
        reveal_strlit("sdk/php");
        assert(s == "sdk/php"@);
    } else if i == 7 {
        reveal_strlit("sdk/python");
        assert(s == "sdk/python"@);
    } else if i == 8 {
        reveal_strlit("sdk/rust");
        assert(s == "sdk/rust"@);
    } else if i == 9 {
        reveal_strlit("surrealdb");
        assert(s == "surrealdb"@);
    } else if i == 10 {
        reveal_strlit("cloud");
        assert(s == "cloud"@);
    } else if i == 11 {
        reveal_strlit("surrealist");
        assert(s == "surrealist"@);
    } else if i == 12 {
        reveal_strlit("surrealml");
        assert(s == "surrealml"@);
    } else if i == 13 {
        reveal_strlit("surrealql");
        assert(s == "surrealql"@);
    } else if i == 14 {
        reveal_strlit("integrations");
        assert(s == "integrations"@);
    } else if i == 15 {
        reveal_strlit("tutorials");
        assert(s == "tutorials"@);
    } else if i == 16 {
        reveal_strlit("labs");
        assert(s == "labs"@);
    }
}

/// No collection has the route of another or one below it.
proof fn lemma_collections_are_not_nested(i: int, j: int)
    requires
        0 <= i < collection_routes().len(),
        0 <= j < collection_routes().len(),
    ensures
        collection_routes()[i].1 == collection_routes()[j].1 ==> i == j,
        !nested(collection_routes()[i].1, collection_routes()[j].1),
{
    lemma_mark(i);
    lemma_mark(j);
    let p = collection_routes()[i].1;
    let q = collection_routes()[j].1;
    if nested(p, q) {
        assert(q[p.len() as int] == '/');
        assert(p[0] == q[0]);
    }
}

/// The files of a route are those of the collection that serves it.
pub proof fn law_files_of_a_served_route(route: Seq<char>, i: int)
    requires
        0 <= i < collection_routes().len(),
        serves(collection_routes()[i].1, route),
    ensures
        files_in(route, collection_routes().len()) == candidates(
            collection_root(collection_routes()[i].0),
            slug_of(collection_routes()[i].1, route),
        ),
{
    lemma_files_of_a_served_route(route, i, collection_routes().len());
}

/// The files of a route that no collection serves: there are none.
pub proof fn law_unserved_routes_have_no_files(route: Seq<char>)
    requires
        forall|i: int|
            0 <= i < collection_routes().len() ==> !serves(
                (#[trigger] collection_routes()[i]).1,
                route,
            ),
    ensures
        files_in(route, collection_routes().len()) == Seq::<Seq<Seq<char>>>::empty(),
{
    lemma_no_files_before(route, collection_routes().len());
}

proof fn lemma_no_files_before(route: Seq<char>, n: nat)
    requires
        n <= collection_routes().len(),
        forall|i: int|
            0 <= i < n ==> !serves((#[trigger] collection_routes()[i]).1, route),
    ensures
        files_in(route, n) == Seq::<Seq<Seq<char>>>::empty(),
    decreases n,
{
    if n > 0 {
        lemma_no_files_before(route, (n - 1) as nat);
        assert(!serves(collection_routes()[n - 1].1, route));
    }
}

proof fn lemma_files_of_a_served_route(route: Seq<char>, i: int, n: nat)
    requires
        0 <= i < n <= collection_routes().len(),
        serves(collection_routes()[i].1, route),
    ensures
        files_in(route, n) == candidates(
            collection_root(collection_routes()[i].0),
            slug_of(collection_routes()[i].1, route),
        ),
    decreases n,
{
    if n == i + 1 {
        assert forall|k: int| 0 <= k < i implies !serves(
            (#[trigger] collection_routes()[k]).1,
            route,
        ) by {
            if serves(collection_routes()[k].1, route) {
                law_one_collection_serves_a_route(route, i, k);
            }
        }
        lemma_no_files_before(route, i as nat);
        assert(files_in(route, n) == candidates(
            collection_root(collection_routes()[i].0),
            slug_of(collection_routes()[i].1, route),
        ));
    } else {
        lemma_files_of_a_served_route(route, i, (n - 1) as nat);
        if serves(collection_routes()[n - 1].1, route) {
            law_one_collection_serves_a_route(route, i, n - 1);
        }
    }
}

/// Slashes before and behind the path of a page make no difference.
pub proof fn law_slashes_around_a_path_do_not_count(path: Seq<char>)
    ensures
        route_of(path.push('/')) == route_of(path),
        route_of(seq!['/'] + path) == route_of(path),
{
    text::lemma_strip_ignores_one_more(path, '/');
}

/// The path of a page below a collection leads to the files with the name of the page in the
/// directory of the collection.
pub proof fn law_pages_are_looked_for_in_their_collection(i: int, slug: Seq<char>)
    requires
        0 <= i < collection_routes().len(),
        slug.len() > 0,
        slug[0] != '/',
        slug.last() != '/',
    ensures
        files_for("/docs/"@ + collection_routes()[i].1 + "/"@ + slug) == Ok::<
            Seq<Seq<Seq<char>>>,
            Seq<char>,
        >(candidates(collection_root(collection_routes()[i].0), slug)),
{
    let prefix = collection_routes()[i].1;
    let route = prefix + "/"@ + slug;
    let path = "/docs/"@ + prefix + "/"@ + slug;
    reveal_strlit("/docs/");
    reveal_strlit("docs/");
    reveal_strlit("/");
    let bare = "docs/"@ + route;
    assert(path == seq!['/'] + bare);
    text::lemma_strip_ignores_one_more(bare, '/');
    text::lemma_strip_keeps(bare, '/');
    assert(bare.take(5) == "docs/"@);
    assert(bare.skip(5) == route);
    assert(route.take(prefix.len() as int + 1) == prefix + "/"@);
    law_files_of_a_served_route(route, i);
    assert(route.skip(prefix.len() as int) == seq!['/'] + slug);
    text::lemma_strip_ignores_one_more(slug, '/');
    text::lemma_strip_keeps(slug, '/');
}

/// The path of a collection leads to its index.
pub proof fn law_collections_have_an_index(i: int)
    requires
        0 <= i < collection_routes().len(),
    ensures
        files_for("/docs/"@ + collection_routes()[i].1) == Ok::<Seq<Seq<Seq<char>>>, Seq<char>>(
            candidates(collection_root(collection_routes()[i].0), Seq::empty()),
        ),
{
    let prefix = collection_routes()[i].1;
    let path = "/docs/"@ + prefix;
    reveal_strlit("/docs/");
    reveal_strlit("docs/");
    let bare = "docs/"@ + prefix;
    lemma_mark(i);
    assert(path == seq!['/'] + bare);
    text::lemma_strip_ignores_one_more(bare, '/');
    assert(bare.last() == prefix.last());
    text::lemma_strip_keeps(bare, '/');
    assert(bare.take(5) == "docs/"@);
    assert(bare.skip(5) == prefix);
    law_files_of_a_served_route(prefix, i);
    assert(prefix.skip(prefix.len() as int) == Seq::<char>::empty());
}

/// The file that holds a page is one of its files, it is there, and none that is looked for
/// before it is.
pub proof fn law_first_file_wins(url: UrlParts, content_root: Seq<char>, present: Seq<bool>)
    requires
        files_for(url.path) is Ok,
        files_for(url.path)->Ok_0.len() == present.len(),
    ensures
        match resolved(url, content_root, present) {
            Ok(file) => exists|i: int|
                {
                    &&& 0 <= i < present.len()
                    &&& #[trigger] present[i]
                    &&& file == files_for(url.path)->Ok_0[i]
                    &&& forall|j: int| 0 <= j < i ==> !#[trigger] present[j]
                },
            Err(_) => forall|j: int| 0 <= j < present.len() ==> !#[trigger] present[j],
        },
{
    lemma_first_present(present);
}

proof fn lemma_first_present(present: Seq<bool>)
    ensures
        match first_present(present) {
            Some(i) => 0 <= i < present.len() && present[i] && forall|j: int|
                0 <= j < i ==> !#[trigger] present[j],
            None => forall|j: int| 0 <= j < present.len() ==> !#[trigger] present[j],
        },
    decreases present.len(),
{
    if present.len() > 0 && !present[0] {
        let rest = present.skip(1);
        lemma_first_present(rest);
        assert forall|j: int| 0 < j < present.len() implies #[trigger] present[j] == rest[j - 1] by {}
    }
}

/// The path leads to the page with this name in a collection: slashes may stand around the path and
/// between the route of the collection and the name.
pub open spec fn is_page_path(
    path: Seq<char>,
    lead: Seq<char>,
    route: Seq<char>,
    between: Seq<char>,
    slug: Seq<char>,
    trail: Seq<char>,
) -> bool {
    &&& path == lead + ("docs/"@ + route + between + slug) + trail
    &&& text::is_made_of(lead, '/')
    &&& text::is_made_of(between, '/')
    &&& text::is_made_of(trail, '/')
}

/// The page with a name in a collection is looked for in four files: the one with its name in MDX
/// and in Markdown, and the index of the directory with its name in MDX and in Markdown.
pub proof fn law_pages_have_four_files(
    path: Seq<char>,
    i: int,
    lead: Seq<char>,
    between: Seq<char>,
    slug: Seq<char>,
    trail: Seq<char>,
)
    requires
        0 <= i < collection_routes().len(),
        is_page_path(path, lead, collection_routes()[i].1, between, slug, trail),
        between.len() > 0,
        slug.len() > 0,
        slug[0] != '/',
        slug.last() != '/',
    ensures
        files_for(path) == Ok::<Seq<Seq<Seq<char>>>, Seq<char>>(
            seq![
                seq!["src/content"@, collection_routes()[i].0, slug + ".mdx"@],
                seq!["src/content"@, collection_routes()[i].0, slug + ".md"@],
                seq!["src/content"@, collection_routes()[i].0, slug, "index.mdx"@],
                seq!["src/content"@, collection_routes()[i].0, slug, "index.md"@],
            ],
        ),
{
    let (collection, prefix) = collection_routes()[i];
    let route = prefix + between + slug;
    assert("docs/"@ + prefix + between + slug == "docs/"@ + route);
    assert(route.last() == slug.last());
    lemma_route_of_path(path, lead, route, trail);
    reveal_strlit("/");
    assert(between[0] == '/');
    assert(route.take(prefix.len() as int + 1) == prefix + "/"@);
    law_files_of_a_served_route(route, i);
    assert(route.skip(prefix.len() as int) == between + slug);
    text::law_strip_removes_what_is_at_the_end(between, slug, '/');
    let root = collection_root(collection);
    assert(root.push(slug + ".mdx"@) == seq!["src/content"@, collection, slug + ".mdx"@]);
    assert(root.push(slug + ".md"@) == seq!["src/content"@, collection, slug + ".md"@]);
    assert(root.push(slug).push("index.mdx"@) == seq!["src/content"@, collection, slug, "index.mdx"@]);
    assert(root.push(slug).push("index.md"@) == seq!["src/content"@, collection, slug, "index.md"@]);
}

/// The page of a collection itself is looked for in the index of the collection, in MDX and in
/// Markdown.
pub proof fn law_collections_have_two_files(
    path: Seq<char>,
    i: int,
    lead: Seq<char>,
    trail: Seq<char>,
)
    requires
        0 <= i < collection_routes().len(),
        is_page_path(
            path,
            lead,
            collection_routes()[i].1,
            Seq::empty(),
            Seq::empty(),
            trail,
        ),
    ensures
        files_for(path) == Ok::<Seq<Seq<Seq<char>>>, Seq<char>>(
            seq![
                seq!["src/content"@, collection_routes()[i].0, "index.mdx"@],
                seq!["src/content"@, collection_routes()[i].0, "index.md"@],
            ],
        ),
{
    let (collection, prefix) = collection_routes()[i];
    let none = Seq::<char>::empty();
    assert("docs/"@ + prefix + none + none == "docs/"@ + prefix);
    lemma_mark(i);
    lemma_route_of_path(path, lead, prefix, trail);
    law_files_of_a_served_route(prefix, i);
    assert(prefix.skip(prefix.len() as int) == none);
    let root = collection_root(collection);
    assert(root.push("index.mdx"@) == seq!["src/content"@, collection, "index.mdx"@]);
    assert(root.push("index.md"@) == seq!["src/content"@, collection, "index.md"@]);
}

/// The path of a page below a collection, written out, leads to its four files, and the path of the
/// collection to the two files of its index.
pub proof fn law_plain_paths_lead_to_their_files(i: int, slug: Seq<char>)
    requires
        0 <= i < collection_routes().len(),
    ensures
        slug.len() > 0 && slug[0] != '/' && slug.last() != '/' ==> files_for(
            "/docs/"@ + collection_routes()[i].1 + "/"@ + slug,
        ) == Ok::<Seq<Seq<Seq<char>>>, Seq<char>>(
            seq![
                seq!["src/content"@, collection_routes()[i].0, slug + ".mdx"@],
                seq!["src/content"@, collection_routes()[i].0, slug + ".md"@],
                seq!["src/content"@, collection_routes()[i].0, slug, "index.mdx"@],
                seq!["src/content"@, collection_routes()[i].0, slug, "index.md"@],
            ],
        ),
        files_for("/docs/"@ + collection_routes()[i].1) == Ok::<Seq<Seq<Seq<char>>>, Seq<char>>(
            seq![
                seq!["src/content"@, collection_routes()[i].0, "index.mdx"@],
                seq!["src/content"@, collection_routes()[i].0, "index.md"@],
            ],
        ),
{
    reveal_strlit("/docs/");
    reveal_strlit("docs/");
    reveal_strlit("/");
    let prefix = collection_routes()[i].1;
    let none = Seq::<char>::empty();
    let slash = seq!['/'];
    if slug.len() > 0 && slug[0] != '/' && slug.last() != '/' {
        let path = "/docs/"@ + prefix + "/"@ + slug;
        assert(path == slash + ("docs/"@ + prefix + slash + slug) + none);
        law_pages_have_four_files(path, i, slash, slash, slug, none);
    }
    let path = "/docs/"@ + prefix;
    assert(path == slash + ("docs/"@ + prefix + none + none) + none);
    law_collections_have_two_files(path, i, slash, none);
}

/// Slashes around a path do not belong to its route.
proof fn lemma_route_of_path(path: Seq<char>, lead: Seq<char>, route: Seq<char>, trail: Seq<char>)
    requires
        path == lead + ("docs/"@ + route) + trail,
        text::is_made_of(lead, '/'),
        text::is_made_of(trail, '/'),
        route.len() > 0,
        route.last() != '/',
    ensures
        route_of(path) == Some(route),
{
    reveal_strlit("docs/");
    let core = "docs/"@ + route;
    assert(core[0] == 'd' && core.last() == route.last());
    lemma_slashes_are_stripped(path, lead, core, trail);
    text::law_prefix_and_rest_are_the_whole(core, "docs/"@, route);
}

/// Slashes around a path are stripped, and nothing else.
proof fn lemma_slashes_are_stripped(
    path: Seq<char>,
    lead: Seq<char>,
    core: Seq<char>,
    trail: Seq<char>,
)
    requires
        path == lead + core + trail,
        text::is_made_of(lead, '/'),
        text::is_made_of(trail, '/'),
        core.len() > 0 ==> core[0] != '/' && core.last() != '/',
    ensures
        text::strip_trailing(text::strip_leading(path, '/'), '/') == core,
{
    assert(path == lead + (core + trail));
    if core.len() > 0 {
        assert((core + trail)[0] == core[0]);
        text::law_strip_removes_what_is_at_the_end(lead, core + trail, '/');
    } else {
        let all = lead + trail;
        assert(core + trail == trail);
        assert forall|k: int| 0 <= k < all.len() implies #[trigger] all[k] == '/' by {
            if k < lead.len() {
                assert(all[k] == lead[k]);
            } else {
                assert(all[k] == trail[k - lead.len()]);
            }
        }
        assert(path == all + core);
        text::law_strip_removes_what_is_at_the_end(all, core, '/');
        assert(text::strip_trailing(core, '/') == core);
    }
    text::law_strip_removes_what_is_at_the_end(trail, core, '/');
}

/// A path that lies below `docs/`, but neither is the route of a collection nor lies below one, has
/// no files. A path that does not lie below `docs/` is refused, and its words are in the error.
pub proof fn law_other_paths_have_no_files(
    path: Seq<char>,
    lead: Seq<char>,
    core: Seq<char>,
    trail: Seq<char>,
)
    requires
        path == lead + core + trail,
        text::is_made_of(lead, '/'),
        text::is_made_of(trail, '/'),
        core.len() > 0 ==> core[0] != '/' && core.last() != '/',
    ensures
        core.len() < 5 || core.take(5) != "docs/"@ ==> files_for(path) == Err::<
            Seq<Seq<Seq<char>>>,
            Seq<char>,
        >("unsupported docs path: "@ + path),
        core.len() >= 5 && core.take(5) == "docs/"@ && (forall|i: int|
            0 <= i < collection_routes().len() ==> {
                let prefix = (#[trigger] collection_routes()[i]).1;
                core.skip(5) != prefix && (core.skip(5).len() <= prefix.len() || core.skip(5).take(
                    prefix.len() as int,
                ) != prefix || core.skip(5)[prefix.len() as int] != '/')
            }) ==> files_for(path) == Ok::<Seq<Seq<Seq<char>>>, Seq<char>>(Seq::empty()),
{
    reveal_strlit("docs/");
    reveal_strlit("/");
    lemma_slashes_are_stripped(path, lead, core, trail);
    if core.len() >= 5 && core.take(5) == "docs/"@ && (forall|i: int|
        0 <= i < collection_routes().len() ==> {
            let prefix = (#[trigger] collection_routes()[i]).1;
            core.skip(5) != prefix && (core.skip(5).len() <= prefix.len() || core.skip(5).take(
                prefix.len() as int,
            ) != prefix || core.skip(5)[prefix.len() as int] != '/')
        }) {
        let route = core.skip(5);
        assert forall|i: int| 0 <= i < collection_routes().len() implies !serves(
            (#[trigger] collection_routes()[i]).1,
            route,
        ) by {
            let prefix = collection_routes()[i].1;
            let n = prefix.len() as int;
            if text::has_prefix(route, prefix + "/"@) {
                let taken = route.take(n + 1);
                assert(taken[n] == (prefix + "/"@)[n]);
                assert(route.take(n) == taken.take(n));
                assert((prefix + "/"@).take(n) == prefix);
            }
        }
        law_unserved_routes_have_no_files(route);
    }
}

/// The files of a page of a collection, whatever the directory of the collection is.
pub proof fn law_candidates_are_named_after_the_page(root: Seq<Seq<char>>, slug: Seq<char>)
    ensures
        slug.len() == 0 ==> candidates(root, slug) == seq![
            root + seq!["index.mdx"@],
            root + seq!["index.md"@],
        ],
        slug.len() > 0 ==> candidates(root, slug) == seq![
            root + seq![slug + ".mdx"@],
            root + seq![slug + ".md"@],
            root + seq![slug, "index.mdx"@],
            root + seq![slug, "index.md"@],
        ],
{
    assert(root.push("index.mdx"@) == root + seq!["index.mdx"@]);
    assert(root.push("index.md"@) == root + seq!["index.md"@]);
    assert(root.push(slug + ".mdx"@) == root + seq![slug + ".mdx"@]);
    assert(root.push(slug + ".md"@) == root + seq![slug + ".md"@]);
    assert(root.push(slug).push("index.mdx"@) == root + seq![slug, "index.mdx"@]);
    assert(root.push(slug).push("index.md"@) == root + seq![slug, "index.md"@]);
}

/// A page of which no file is there is an error that names its URL and where it was looked for.
pub proof fn law_missing_files_are_reported(
    url: UrlParts,
    content_root: Seq<char>,
    present: Seq<bool>,
)
    requires
        files_for(url.path) is Ok,
        forall|j: int| 0 <= j < present.len() ==> !#[trigger] present[j],
    ensures
        resolved(url, content_root, present) == Err::<Seq<Seq<char>>, Seq<char>>(
            "could not map "@ + url.text + " to a source file under "@ + content_root,
        ),
{
    lemma_first_present(present);
}

/// A file is viewed by the parts of its path, and files are viewed in their order.
pub proof fn law_files_are_viewed_as_they_are(file: SourceFile, files: Seq<SourceFile>)
    ensures
        file@.len() == file.parts@.len(),
        forall|i: int| 0 <= i < file.parts@.len() ==> #[trigger] file@[i] == file.parts@[i]@,
        files_view(files).len() == files.len(),
        forall|i: int| 0 <= i < files.len() ==> #[trigger] files_view(files)[i] == files[i]@,
{
}

/// A collection is named after its route. That of an SDK is named after the language, with the
/// version behind it where the route begins with one; that of the labs holds their items.
pub proof fn law_collections_are_named_after_their_routes(i: int)
    requires
        0 <= i < collection_routes().len(),
    ensures
        collection_routes().len() == 17,
        ({
            let (collection, route) = collection_routes()[i];
            if i < 2 {
                &&& route == "1.x/sdk/"@ + route.skip(8)
                &&& collection == "doc-sdk-"@ + route.skip(8) + "-1x"@
            } else if i < 9 {
                &&& route == "sdk/"@ + route.skip(4)
                &&& collection == "doc-sdk-"@ + route.skip(4)
            } else if i < 16 {
                collection == "doc-"@ + route
            } else {
                route == "labs"@ && collection == "labs-items"@
            }
        }),
{
    let (collection, route) = collection_routes()[i];
    reveal_strlit("1.x/sdk/");
    reveal_strlit("sdk/");
    reveal_strlit("doc-sdk-");
    reveal_strlit("doc-");
    reveal_strlit("-1x");
    if i == 0 {
        reveal_strlit("javascript");
        reveal_strlit("1.x/sdk/javascript");
        reveal_strlit("doc-sdk-javascript-1x");
        assert(route == "1.x/sdk/javascript"@ && collection == "doc-sdk-javascript-1x"@);
        assert("1.x/sdk/"@ + "javascript"@ == "1.x/sdk/javascript"@);
        assert("doc-sdk-"@ + "javascript"@ + "-1x"@ == "doc-sdk-javascript-1x"@);
        assert(route.skip(8) == "javascript"@);
    } else if i == 1 {
        reveal_strlit("python");
        reveal_strlit("1.x/sdk/python");
        reveal_strlit("doc-sdk-python-1x");
        assert(route == "1.x/sdk/python"@ && collection == "doc-sdk-python-1x"@);
        assert("1.x/sdk/"@ + "python"@ == "1.x/sdk/python"@);
        assert("doc-sdk-"@ + "python"@ + "-1x"@ == "doc-sdk-python-1x"@);
        assert(route.skip(8) == "python"@);
    } else if i == 2 {
        reveal_strlit("dotnet");
        reveal_strlit("sdk/dotnet");
        reveal_strlit("doc-sdk-dotnet");
        assert(route == "sdk/dotnet"@ && collection == "doc-sdk-dotnet"@);
        assert("sdk/"@ + "dotnet"@ == "sdk/dotnet"@);
        assert("doc-sdk-"@ + "dotnet"@ == "doc-sdk-dotnet"@);
        assert(route.skip(4) == "dotnet"@);
    } else if i == 3 {
        reveal_strlit("golang");
        reveal_strlit("sdk/golang");
        reveal_strlit("doc-sdk-golang");
        assert(route == "sdk/golang"@ && collection == "doc-sdk-golang"@);
        assert("sdk/"@ + "golang"@ == "sdk/golang"@);
        assert("doc-sdk-"@ + "golang"@ == "doc-sdk-golang"@);
        assert(route.skip(4) == "golang"@);
    } else if i == 4 {
        reveal_strlit("java");
        reveal_strlit("sdk/java");
        reveal_strlit("doc-sdk-java");
        assert(route == "sdk/java"@ && collection == "doc-sdk-java"@);
        assert("sdk/"@ + "java"@ == "sdk/java"@);
        assert("doc-sdk-"@ + "java"@ == "doc-sdk-java"@);
        assert(route.skip(4) == "java"@);
    } else if i == 5 {
        reveal_strlit("javascript");
        reveal_strlit("sdk/javascript");
        reveal_strlit("doc-sdk-javascript");
        assert(route == "sdk/javascript"@ && collection == "doc-sdk-javascript"@);
        assert("sdk/"@ + "javascript"@ == "sdk/javascript"@);
        assert("doc-sdk-"@ + "javascript"@ == "doc-sdk-javascript"@);
        assert(route.skip(4) == "javascript"@);
    } else if i == 6 {
        reveal_strlit("php");
        reveal_strlit("sdk/php");
        reveal_strlit("doc-sdk-php");
        assert(route == "sdk/php"@ && collection == "doc-sdk-php"@);
        assert("sdk/"@ + "php"@ == "sdk/php"@);
        assert("doc-sdk-"@ + "php"@ == "doc-sdk-php"@);
        assert(route.skip(4) == "php"@);
    } else if i == 7 {
        reveal_strlit("python");
        reveal_strlit("sdk/python");
        reveal_strlit("doc-sdk-python");
        assert(route == "sdk/python"@ && collection == "doc-sdk-python"@);
        assert("sdk/"@ + "python"@ == "sdk/python"@);
        assert("doc-sdk-"@ + "python"@ == "doc-sdk-python"@);
        assert(route.skip(4) == "python"@);
    } else if i == 8 {
        reveal_strlit("rust");
        reveal_strlit("sdk/rust");
        reveal_strlit("doc-sdk-rust");
        assert(route == "sdk/rust"@ && collection == "doc-sdk-rust"@);
        assert("sdk/"@ + "rust"@ == "sdk/rust"@);
        assert("doc-sdk-"@ + "rust"@ == "doc-sdk-rust"@);
        assert(route.skip(4) == "rust"@);
    } else if i == 9 {
        reveal_strlit("surrealdb");
        reveal_strlit("doc-surrealdb");
        assert(route == "surrealdb"@ && collection == "doc-surrealdb"@);
        assert("doc-"@ + "surrealdb"@ == "doc-surrealdb"@);
    } else if i == 10 {
        reveal_strlit("cloud");
        reveal_strlit("doc-cloud");
        assert(route == "cloud"@ && collection == "doc-cloud"@);
        assert("doc-"@ + "cloud"@ == "doc-cloud"@);
    } else if i == 11 {
        reveal_strlit("surrealist");
        reveal_strlit("doc-surrealist");
        assert(route == "surrealist"@ && collection == "doc-surrealist"@);
        assert("doc-"@ + "surrealist"@ == "doc-surrealist"@);
    } else if i == 12 {
        reveal_strlit("surrealml");
        reveal_strlit("doc-surrealml");
        assert(route == "surrealml"@ && collection == "doc-surrealml"@);
        assert("doc-"@ + "surrealml"@ == "doc-surrealml"@);
    } else if i == 13 {
        reveal_strlit("surrealql");
        reveal_strlit("doc-surrealql");
        assert(route == "surrealql"@ && collection == "doc-surrealql"@);
        assert("doc-"@ + "surrealql"@ == "doc-surrealql"@);
    } else if i == 14 {
        reveal_strlit("integrations");
        reveal_strlit("doc-integrations");
        assert(route == "integrations"@ && collection == "doc-integrations"@);
        assert("doc-"@ + "integrations"@ == "doc-integrations"@);
    } else if i == 15 {
        reveal_strlit("tutorials");
        reveal_strlit("doc-tutorials");
        assert(route == "tutorials"@ && collection == "doc-tutorials"@);
        assert("doc-"@ + "tutorials"@ == "doc-tutorials"@);
    }
}

} // verus!
