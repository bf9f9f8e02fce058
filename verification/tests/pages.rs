use surrealdb_docs_mcp::doc_url::{DocUrl, SiteUrl, DEFAULT_DOCS_SITE_URL};
use surrealdb_docs_mcp::frontmatter::{
    content_without_frontmatter, extract_frontmatter_value, extract_heading_title,
    frontmatter_block, trim_quotes,
};
use surrealdb_docs_mcp::page::{
    finish_fetch, page_title, plan_fetch, FetchDocRequest, FetchDocResponse, PageFile,
};
use surrealdb_docs_mcp::search::{map_search_result, DocsSearchApiResult};
use surrealdb_docs_mcp::source::{
    resolve_doc_source_path, source_candidates, source_files, SourceFile,
};

fn site() -> SiteUrl {
    SiteUrl::parse(DEFAULT_DOCS_SITE_URL).unwrap()
}

fn joined(file: &SourceFile) -> String {
    file.parts.join("/")
}

fn files_of(url: &str) -> Vec<String> {
    let url = DocUrl::parse(url).unwrap();
    source_files(&url).unwrap().iter().map(joined).collect()
}

#[test]
fn frontmatter_and_heading_are_extracted() {
    let content = r#"---
title: "Embedding SurrealDB"
description: Intro text
---

# Embedding SurrealDB

Body
"#;

    assert_eq!(
        extract_frontmatter_value(content, "title").as_deref(),
        Some("Embedding SurrealDB")
    );
    assert_eq!(
        extract_frontmatter_value(content, "description").as_deref(),
        Some("Intro text")
    );
    assert_eq!(
        extract_heading_title(content).as_deref(),
        Some("Embedding SurrealDB")
    );
}

#[test]
fn frontmatter_handles_edge_cases() {
    // Escaped inner quotes are unescaped.
    let escaped = "---\ntitle: \"Hello \\\"World\\\"\"\n---\n";
    assert_eq!(
        extract_frontmatter_value(escaped, "title").as_deref(),
        Some("Hello \"World\"")
    );

    // Mismatched outer quotes are left as-is.
    let mismatched = "---\ntitle: \"oops'\n---\n";
    assert_eq!(
        extract_frontmatter_value(mismatched, "title").as_deref(),
        Some("\"oops'")
    );

    // Block scalars return None rather than the bare indicator character.
    let block = "---\ndescription: |\n  multi\n  line\n---\n";
    assert_eq!(extract_frontmatter_value(block, "description"), None);
}

#[test]
fn every_block_scalar_counts_as_absent() {
    for indicator in ["|", ">", "|-", ">-", "|+", ">+"] {
        let page = format!("---\ntitle: {indicator}\n  x\n---\n");
        assert_eq!(extract_frontmatter_value(&page, "title"), None);
    }
    assert_eq!(
        extract_frontmatter_value("---\ntitle: |x\n---\n", "title").as_deref(),
        Some("|x")
    );
}

#[test]
fn first_entry_of_a_key_decides() {
    let page = "---\n  title :no\n\ttitle:  one  \ntitle: two\nempty:\nquoted: ''\n---\n";
    assert_eq!(extract_frontmatter_value(page, "title").as_deref(), Some("one"));
    assert_eq!(extract_frontmatter_value(page, "empty"), None);
    assert_eq!(extract_frontmatter_value(page, "quoted"), None);
    assert_eq!(extract_frontmatter_value(page, "missing"), None);
    assert_eq!(extract_frontmatter_value("title: x\n", "title"), None);
    assert_eq!(extract_frontmatter_value("---\ntitle: x\n---", "title"), None);
    assert_eq!(
        extract_frontmatter_value("---\na: 1\r\ntitle: x\r\n---\n", "title").as_deref(),
        Some("x")
    );
}

#[test]
fn quoted_values_are_read_back() {
    for quote in ['"', '\''] {
        for value in ["a", "a\"b'c", "\\", "\\\"", "  x ", "é \\' ü", "---"] {
            let escaped = value.replace(quote, &format!("\\{quote}"));
            let page = format!("---\ntitle: {quote}{escaped}{quote}\n---\nrest\n---\n");
            assert_eq!(extract_frontmatter_value(&page, "title").as_deref(), Some(value));
            assert_eq!(content_without_frontmatter(&page), "rest\n---\n");
        }
    }
}

#[test]
fn quotes_are_trimmed_only_in_pairs() {
    assert_eq!(trim_quotes("\""), "\"");
    assert_eq!(trim_quotes("\"\""), "");
    assert_eq!(trim_quotes("'it\\'s'"), "it's");
    assert_eq!(trim_quotes("'a\\\"b'"), "a\\\"b");
    assert_eq!(trim_quotes("plain"), "plain");
    assert_eq!(trim_quotes("é"), "é");
    assert_eq!(trim_quotes("\"a\\\\\"b\""), "a\\\"b");
}

#[test]
fn page_is_split_at_its_fences() {
    let page = "---\na: é\n---\nbody\n---\nmore";
    assert_eq!(frontmatter_block(page), Some("a: é"));
    assert_eq!(content_without_frontmatter(page), "body\n---\nmore");
    assert_eq!(frontmatter_block("---\n---\n"), None);
    assert_eq!(content_without_frontmatter("---\n---\n"), "---\n---\n");
    assert_eq!(frontmatter_block("---\n\n---\n"), Some(""));
    assert_eq!(frontmatter_block(""), None);
    assert_eq!(frontmatter_block("---\r\na: 1\r\n---\r\n"), None);
}

#[test]
fn heading_is_the_first_of_its_level() {
    assert_eq!(extract_heading_title("## no\n  # yes  \n# later").as_deref(), Some("yes"));
    assert_eq!(extract_heading_title("#no\ntext"), None);
    assert_eq!(extract_heading_title("# \n# later").as_deref(), Some("later"));
    assert_eq!(extract_heading_title("---\n# in\n---\n# out").as_deref(), Some("out"));
    assert_eq!(extract_heading_title(""), None);
}

#[test]
fn title_falls_back_to_heading_and_file_name() {
    let stem = || Some("start".to_string());
    assert_eq!(page_title("---\ntitle: A\n---\n# B", stem()), "A");
    assert_eq!(page_title("---\nx: A\n---\n# B", stem()), "B");
    assert_eq!(page_title("text", stem()), "start");
    assert_eq!(page_title("text", None), "Untitled document");
}

#[test]
fn candidates_of_a_page_and_of_an_index() {
    let root = vec!["src/content".to_string(), "doc-cloud".to_string()];
    let names: Vec<String> = source_candidates(&root, "").iter().map(joined).collect();
    assert_eq!(names, ["src/content/doc-cloud/index.mdx", "src/content/doc-cloud/index.md"]);
    let names: Vec<String> = source_candidates(&root, "a/b").iter().map(joined).collect();
    assert_eq!(
        names,
        [
            "src/content/doc-cloud/a/b.mdx",
            "src/content/doc-cloud/a/b.md",
            "src/content/doc-cloud/a/b/index.mdx",
            "src/content/doc-cloud/a/b/index.md",
        ]
    );
}

#[test]
fn embedding_page_is_resolved_to_the_index_of_its_directory() {
    let url = DocUrl::parse("https://surrealdb.com/docs/surrealdb/embedding").unwrap();
    let present = vec![false, false, true, true];
    let file = resolve_doc_source_path(&url, "/repo/src/content", &present).unwrap();
    assert!(joined(&file).ends_with("src/content/doc-surrealdb/embedding/index.mdx"));
}

#[test]
fn sdk_page_is_resolved_to_its_collection() {
    let url = DocUrl::parse("https://surrealdb.com/docs/sdk/golang/start").unwrap();
    let present = vec![true, false, false, false];
    let file = resolve_doc_source_path(&url, "/repo/src/content", &present).unwrap();
    assert!(joined(&file).ends_with("src/content/doc-sdk-golang/start.mdx"));
}

#[test]
fn every_collection_serves_its_route() {
    let routes = [
        ("doc-sdk-javascript-1x", "1.x/sdk/javascript"),
        ("doc-sdk-python-1x", "1.x/sdk/python"),
        ("doc-sdk-dotnet", "sdk/dotnet"),
        ("doc-sdk-golang", "sdk/golang"),
        ("doc-sdk-java", "sdk/java"),
        ("doc-sdk-javascript", "sdk/javascript"),
        ("doc-sdk-php", "sdk/php"),
        ("doc-sdk-python", "sdk/python"),
        ("doc-sdk-rust", "sdk/rust"),
        ("doc-surrealdb", "surrealdb"),
        ("doc-cloud", "cloud"),
        ("doc-surrealist", "surrealist"),
        ("doc-surrealml", "surrealml"),
        ("doc-surrealql", "surrealql"),
        ("doc-integrations", "integrations"),
        ("doc-tutorials", "tutorials"),
        ("labs-items", "labs"),
    ];
    for (collection, route) in routes {
        let index = [
            format!("src/content/{collection}/index.mdx"),
            format!("src/content/{collection}/index.md"),
        ];
        assert_eq!(files_of(&format!("https://surrealdb.com/docs/{route}")), index);
        assert_eq!(files_of(&format!("https://surrealdb.com//docs/{route}//")), index);
        assert_eq!(
            files_of(&format!("https://surrealdb.com/docs/{route}/x"))[0],
            format!("src/content/{collection}/x.mdx")
        );
        assert!(files_of(&format!("https://surrealdb.com/docs/{route}x")).is_empty()
            || route == "sdk/java");
    }
    assert!(files_of("https://surrealdb.com/docs/unknown").is_empty());
}

#[test]
fn pages_that_cannot_be_resolved_are_errors() {
    let url = DocUrl::parse("https://surrealdb.com/blog/launch").unwrap();
    assert_eq!(source_files(&url).unwrap_err(), "unsupported docs path: /blog/launch");
    assert_eq!(
        resolve_doc_source_path(&url, "/repo/src/content", &vec![]).unwrap_err(),
        "unsupported docs path: /blog/launch"
    );
    let url = DocUrl::parse("https://surrealdb.com/docs/cloud").unwrap();
    assert_eq!(
        resolve_doc_source_path(&url, "/repo/src/content", &vec![false, false]).unwrap_err(),
        "could not map https://surrealdb.com/docs/cloud to a source file under /repo/src/content"
    );
    let url = DocUrl::parse("https://surrealdb.com/docs").unwrap();
    assert_eq!(source_files(&url).unwrap_err(), "unsupported docs path: /docs");
}

#[test]
fn fetch_is_planned_and_finished() {
    let request = FetchDocRequest { url: " /docs/surrealdb/embedding\n".to_string() };
    let plan = plan_fetch(&site(), &request).unwrap();
    assert_eq!(plan.requested_url, "/docs/surrealdb/embedding");
    assert_eq!(plan.doc_url.text, "https://surrealdb.com/docs/surrealdb/embedding");
    assert_eq!(plan.files.len(), 4);
    let content = "---\ntitle: \"Embedding SurrealDB\"\ndescription: In\n---\nBody";
    let file = PageFile {
        name: "/repo/index.mdx".to_string(),
        canonical_name: Some("/real/index.mdx".to_string()),
        absolute_name: Some("/repo/index.mdx".to_string()),
        stem: Some("index".to_string()),
        extension: Some("mdx".to_string()),
        content: Ok(content.to_string()),
    };
    assert_eq!(
        finish_fetch(plan, file).unwrap(),
        FetchDocResponse {
            requested_url: "/docs/surrealdb/embedding".to_string(),
            resolved_url: "https://surrealdb.com/docs/surrealdb/embedding".to_string(),
            title: "Embedding SurrealDB".to_string(),
            description: Some("In".to_string()),
            content_format: "mdx".to_string(),
            source_path: "/real/index.mdx".to_string(),
            content: content.to_string(),
        }
    );
}

#[test]
fn fetch_falls_back_where_the_file_says_nothing() {
    let plan = || {
        let request = FetchDocRequest { url: "/docs/cloud".to_string() };
        plan_fetch(&site(), &request).unwrap()
    };
    let file = |content: Result<String, String>| PageFile {
        name: "/repo/page".to_string(),
        canonical_name: None,
        absolute_name: None,
        stem: None,
        extension: None,
        content,
    };
    let page = finish_fetch(plan(), file(Ok(String::new()))).unwrap();
    assert_eq!(page.title, "Untitled document");
    assert_eq!(page.description, None);
    assert_eq!(page.content_format, "text");
    assert_eq!(page.source_path, "/repo/page");
    assert_eq!(
        finish_fetch(plan(), file(Err("denied".to_string()))).unwrap_err(),
        "failed to read /repo/page: denied"
    );
}

#[test]
fn fetch_tells_the_absolute_path_of_a_file() {
    let request = FetchDocRequest { url: "/docs/cloud".to_string() };
    let file = |canonical_name: Option<&str>, content: Result<&str, &str>| PageFile {
        name: "docs/src/content/doc-cloud/index.mdx".to_string(),
        canonical_name: canonical_name.map(str::to_string),
        absolute_name: Some("/work/docs/src/content/doc-cloud/index.mdx".to_string()),
        stem: Some("index".to_string()),
        extension: Some("mdx".to_string()),
        content: content.map(str::to_string).map_err(str::to_string),
    };
    let plan = || plan_fetch(&site(), &request).unwrap();
    let page = finish_fetch(plan(), file(None, Ok("text"))).unwrap();
    assert_eq!(page.source_path, "/work/docs/src/content/doc-cloud/index.mdx");
    let page = finish_fetch(plan(), file(Some("/real/index.mdx"), Ok("text"))).unwrap();
    assert_eq!(page.source_path, "/real/index.mdx");
    assert_eq!(
        finish_fetch(plan(), file(None, Err("denied"))).unwrap_err(),
        "failed to read docs/src/content/doc-cloud/index.mdx: denied"
    );
}

#[test]
fn fetch_errors_come_in_order() {
    let fetch = |url: &str| plan_fetch(&site(), &FetchDocRequest { url: url.to_string() });
    assert_eq!(fetch(" ").unwrap_err(), "query must not be empty");
    assert_eq!(fetch("http://x/").unwrap_err(), "document URL must use https");
    assert_eq!(fetch("/blog").unwrap_err(), "unsupported docs path: /blog");
}

#[test]
fn found_pages_can_be_fetched_by_path_and_url() {
    let sites = [
        "https://surrealdb.com",
        "https://example.com/mirror/",
        "http://localhost:4321",
        "docs://surrealdb.com/",
        "file:///srv/",
    ];
    for site_url in sites {
        let site = SiteUrl::parse(site_url).unwrap();
        for url in ["/docs/1.x/sdk/python", "/docs/cloud/a b?x#y", "https://b.com/docs/labs/ü"] {
            let hit = map_search_result(
                &site,
                DocsSearchApiResult {
                    title: String::new(),
                    description: String::new(),
                    hostname: String::new(),
                    score_bits: 0,
                    url: url.to_string(),
                },
            )
            .unwrap();
            let by_path = plan_fetch(&site, &FetchDocRequest { url: hit.path.clone() });
            let by_url = plan_fetch(&site, &FetchDocRequest { url: hit.url.clone() });
            match (by_path, by_url) {
                (Ok(a), Ok(b)) => {
                    assert_eq!(a.doc_url, b.doc_url);
                    assert_eq!(a.files, b.files);
                    assert_eq!(a.doc_url.text, hit.url);
                }
                (Err(a), Err(b)) => assert_eq!(a, b),
                _ => panic!("the path and the URL of a hit mean different pages"),
            }
        }
    }
}
