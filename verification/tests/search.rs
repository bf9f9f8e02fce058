use surrealdb_docs_mcp::doc_url::{
    accept_doc_url, build_docs_url, normalize_doc_url, try_build_docs_url, validate_doc_url, DocUrl,
    SiteUrl, DEFAULT_DOCS_SITE_URL,
};
use surrealdb_docs_mcp::query::{
    docs_search_hostname, effective_limit, normalize_query, DEFAULT_LIMIT, MAX_LIMIT,
};
use surrealdb_docs_mcp::search::{
    accept_docs_path, finish_search, map_search_hits, map_search_result,
    normalize_search_result_path, plan_search, try_map_search_result, DocsSearchApiResult,
    SearchDocsRequest, SearchPlan,
};

fn hit(title: &str, url: &str) -> DocsSearchApiResult {
    DocsSearchApiResult {
        title: title.to_string(),
        description: "Docs".to_string(),
        hostname: "main--surrealdb-docs.netlify.app".to_string(),
        score_bits: 201.06226f64.to_bits(),
        url: url.to_string(),
    }
}

fn site() -> SiteUrl {
    SiteUrl::parse(DEFAULT_DOCS_SITE_URL).unwrap()
}

#[test]
fn limit_defaults_and_caps() {
    assert_eq!(effective_limit(None), DEFAULT_LIMIT);
    assert_eq!(effective_limit(Some(0)), 1);
    assert_eq!(effective_limit(Some(3)), 3);
    assert_eq!(effective_limit(Some(200)), MAX_LIMIT);
}

#[test]
fn limit_values_are_ten_and_twenty_five() {
    assert_eq!(effective_limit(None), 10);
    assert_eq!(effective_limit(Some(1)), 1);
    assert_eq!(effective_limit(Some(25)), 25);
    assert_eq!(effective_limit(Some(26)), 25);
    assert_eq!(effective_limit(Some(usize::MAX)), 25);
    assert_eq!(effective_limit(Some(effective_limit(Some(40)))), 25);
}

#[test]
fn docs_url_uses_absolute_or_relative_path() {
    let base = SiteUrl::parse(DEFAULT_DOCS_SITE_URL).unwrap();

    assert_eq!(
        build_docs_url(&base, "/docs/surrealdb/embedding"),
        "https://surrealdb.com/docs/surrealdb/embedding"
    );
    assert_eq!(
        build_docs_url(&base, "https://example.com/custom"),
        "https://example.com/custom"
    );
}

#[test]
fn docs_url_of_a_site_without_hierarchy_is_none() {
    let base = SiteUrl::parse("mailto:docs@surrealdb.com").unwrap();
    assert_eq!(try_build_docs_url(&base, "/docs/cloud"), None);
    assert_eq!(
        try_build_docs_url(&site(), "/docs/cloud"),
        Some("https://surrealdb.com/docs/cloud".to_string())
    );
}

#[test]
fn docs_url_is_joined_below_the_directory_of_the_site() {
    let base = SiteUrl::parse("https://example.com/mirror/index.html?x=1#top").unwrap();
    assert_eq!(
        build_docs_url(&base, "/docs/cloud"),
        "https://example.com/mirror/docs/cloud"
    );
}

#[test]
fn docs_url_is_joined_to_the_site_as_it_was_given() {
    let base = SiteUrl::parse(" HTTPS://SurrealDB.com ").unwrap();
    assert_eq!(base.given, " HTTPS://SurrealDB.com ");
    assert_eq!(base.url.text, "https://surrealdb.com/");
    assert_eq!(build_docs_url(&base, "/docs/cloud"), "https://surrealdb.com/docs/cloud");
    assert_eq!(SiteUrl::parse("docs").unwrap_err(), "relative URL without a base");
}

#[test]
fn docs_url_of_a_host_that_cannot_be_read_again() {
    let label: String = (0..900).filter_map(|i| char::from_u32(0x4e00 + 20 * i)).collect();
    let base = SiteUrl::parse(&format!("https://{label}.com")).unwrap();
    assert!(base.url.text.starts_with("https://xn--"));
    assert!(base.url.text.len() > 2012);
    assert!(DocUrl::parse(&base.url.text).is_err());
    let url = build_docs_url(&base, "/docs/cloud");
    assert_eq!(url, format!("{}docs/cloud", base.url.text));
    assert_eq!(normalize_doc_url(&base, "/docs/cloud").unwrap().text, url);
    assert!(normalize_doc_url(&base, &url).is_err());
}

#[test]
fn docs_url_of_a_long_host_can_be_read_again() {
    let plain = "a".repeat(3000);
    let encoded: String = (0..300).filter_map(|i| char::from_u32(0x4e00 + 20 * i)).collect();
    for label in [plain, encoded] {
        let base = SiteUrl::parse(&format!("https://{label}.com")).unwrap();
        assert!(base.url.host.as_ref().unwrap().len() > 253);
        let page = normalize_doc_url(&base, "/docs/cloud").unwrap();
        assert_eq!(page.text, build_docs_url(&base, "/docs/cloud"));
        assert_eq!(normalize_doc_url(&base, &page.text).unwrap(), page);
    }
}

#[test]
fn document_url_of_a_site_without_https_must_be_absolute() {
    let base = SiteUrl::parse("http://surrealdb.com").unwrap();
    let url = build_docs_url(&base, "/docs/cloud");
    assert_eq!(url, "http://surrealdb.com/docs/cloud");
    for value in ["/docs/cloud", "docs/cloud", "?x", "#y", url.as_str()] {
        assert_eq!(
            normalize_doc_url(&base, value).unwrap_err(),
            "document URL must use https"
        );
    }
    for value in ["https://surrealdb.com/docs/cloud", "//https://surrealdb.com/docs/cloud"] {
        assert_eq!(
            normalize_doc_url(&base, value).unwrap().text,
            "https://surrealdb.com/docs/cloud"
        );
    }
}

#[test]
fn parsed_url_has_its_parts() {
    let url = DocUrl::parse("HTTPS://User@SurrealDB.com:443/docs/a b/../c?q=1#f").unwrap();
    assert_eq!(url.text, "https://User@surrealdb.com/docs/c?q=1#f");
    assert_eq!(url.scheme, "https");
    assert_eq!(url.host.as_deref(), Some("surrealdb.com"));
    assert_eq!(url.path, "/docs/c");
    assert_eq!(DocUrl::parse(&url.text).unwrap(), url);
    assert_eq!(DocUrl::parse("mailto:a@b").unwrap().host, None);
    assert_eq!(
        DocUrl::parse("/docs/cloud").unwrap_err(),
        "relative URL without a base"
    );
}

#[test]
fn query_must_not_be_empty() {
    assert!(normalize_query("embedded").is_ok());
    assert!(normalize_query("   ").is_err());
}

#[test]
fn query_is_trimmed() {
    assert_eq!(normalize_query(" \t\u{a0}vector search\u{3000}\r\n"), Ok("vector search"));
    assert_eq!(
        normalize_query("\u{2003}"),
        Err("query must not be empty".to_string())
    );
    assert_eq!(normalize_query("\u{200b}"), Ok("\u{200b}"));
    assert_eq!(normalize_query(normalize_query(" a ").unwrap()), Ok("a"));
}

#[test]
fn white_space_is_what_the_standard_library_trims() {
    for code in 0..=0x10ffffu32 {
        if let Some(c) = char::from_u32(code) {
            assert_eq!(surrealdb_docs_mcp::text::is_white(c), c.is_whitespace());
        }
    }
}

#[test]
fn document_url_supports_relative_and_absolute_docs_urls() {
    let base = SiteUrl::parse(DEFAULT_DOCS_SITE_URL).unwrap();

    assert_eq!(
        normalize_doc_url(&base, "/docs/surrealdb/embedding")
            .unwrap()
            .text
            .as_str(),
        "https://surrealdb.com/docs/surrealdb/embedding"
    );
    assert_eq!(
        normalize_doc_url(&base, "https://surrealdb.com/docs/surrealdb/embedding")
            .unwrap()
            .text
            .as_str(),
        "https://surrealdb.com/docs/surrealdb/embedding"
    );
}

#[test]
fn document_url_rejects_non_docs_hosts() {
    let base = SiteUrl::parse(DEFAULT_DOCS_SITE_URL).unwrap();

    assert!(normalize_doc_url(&base, "http://surrealdb.com/docs/surrealdb/embedding").is_err());
    assert!(normalize_doc_url(&base, "https://example.com/docs/surrealdb/embedding").is_err());
}

#[test]
fn document_url_errors_name_the_reason() {
    let base = site();
    assert_eq!(
        normalize_doc_url(&base, "http://surrealdb.com/docs").unwrap_err(),
        "document URL must use https"
    );
    assert_eq!(
        normalize_doc_url(&base, "https://example.com/docs").unwrap_err(),
        "document URL host must be surrealdb.com"
    );
    assert_eq!(normalize_doc_url(&base, "  ").unwrap_err(), "query must not be empty");
    let mail = SiteUrl::parse("mailto:docs@surrealdb.com").unwrap();
    assert_eq!(
        normalize_doc_url(&mail, "docs/cloud").unwrap_err(),
        "invalid document URL: relative URL with a cannot-be-a-base base"
    );
    assert_eq!(
        normalize_doc_url(&mail, "https://surrealdb.com/docs").unwrap_err(),
        "configured docs site URL is missing a host"
    );
    let hostless = DocUrl {
        text: "https:".to_string(),
        scheme: "https".to_string(),
        host: None,
        path: "/".to_string(),
    };
    assert_eq!(
        validate_doc_url(&base.url, &hostless).unwrap_err(),
        "document URL must include a host"
    );
    assert_eq!(
        accept_doc_url(&base.url, Err("no".to_string())).unwrap_err(),
        "invalid document URL: no"
    );
    assert!(validate_doc_url(&base.url, &base.url).is_ok());
}

#[test]
fn document_url_ignores_white_space_and_leading_slashes() {
    let base = site();
    let plain = normalize_doc_url(&base, "/docs/cloud").unwrap();
    assert_eq!(normalize_doc_url(&base, " \n/docs/cloud ").unwrap(), plain);
    assert_eq!(normalize_doc_url(&base, "///docs/cloud").unwrap(), plain);
    assert_eq!(normalize_doc_url(&base, "docs/cloud").unwrap(), plain);
    assert_eq!(normalize_doc_url(&base, &plain.text).unwrap(), plain);
}

#[test]
fn search_hostname_matches_docs_site_mapping() {
    assert_eq!(
        docs_search_hostname("surrealdb.com"),
        "main--surrealdb-docs.netlify.app"
    );
    assert_eq!(
        docs_search_hostname("docs.surrealdb.com"),
        "main--surrealdb-docs.netlify.app"
    );
    assert_eq!(
        docs_search_hostname("preview.surrealdb.com"),
        "preview.surrealdb.com"
    );
}

#[test]
fn search_hostname_of_the_other_docs_hosts() {
    for host in ["www.surrealdb.com", "surrealdb-docs.netlify.app", "localhost"] {
        assert_eq!(docs_search_hostname(host), "main--surrealdb-docs.netlify.app");
    }
    assert_eq!(docs_search_hostname(docs_search_hostname("localhost")), "main--surrealdb-docs.netlify.app");
    assert_eq!(docs_search_hostname(""), "");
}

#[test]
fn api_result_maps_relative_docs_path() {
    let base = SiteUrl::parse(DEFAULT_DOCS_SITE_URL).unwrap();
    let result = map_search_result(
        &base,
        DocsSearchApiResult {
            title: "Embedding SurrealDB".to_string(),
            description: "Docs".to_string(),
            hostname: "main--surrealdb-docs.netlify.app".to_string(),
            score_bits: 201.0f64.to_bits(),
            url: "/docs/surrealdb/embedding".to_string(),
        },
    )
    .unwrap();

    assert_eq!(result.path, "/docs/surrealdb/embedding");
    assert_eq!(result.url, "https://surrealdb.com/docs/surrealdb/embedding");
}

#[test]
fn api_result_keeps_everything_else() {
    let result = map_search_result(&site(), hit("Embedding", " /docs/cloud ")).unwrap();
    assert_eq!(result.title, "Embedding");
    assert_eq!(result.description, "Docs");
    assert_eq!(result.hostname, "main--surrealdb-docs.netlify.app");
    assert_eq!(f64::from_bits(result.score_bits), 201.06226);
    assert_eq!(result.path, "/docs/cloud");
}

#[test]
fn api_result_rejects_non_docs_path() {
    let error = normalize_search_result_path("/blog/launch").unwrap_err();
    assert!(error.contains("not a docs path"));
}

#[test]
fn api_result_path_of_an_absolute_url() {
    assert_eq!(
        normalize_search_result_path("https://example.com/docs/cloud?x=1#y").unwrap(),
        "/docs/cloud"
    );
    assert_eq!(
        normalize_search_result_path(" https://example.com/blog ").unwrap_err(),
        "search result URL is not a docs path: https://example.com/blog"
    );
    assert_eq!(normalize_search_result_path("").unwrap_err(), "query must not be empty");
    assert_eq!(normalize_search_result_path("/docs/").unwrap(), "/docs/");
    assert!(normalize_search_result_path("/docs").is_err());
    assert_eq!(accept_docs_path("/docs/a", Err("x".to_string())).unwrap(), "/docs/a");
    assert!(accept_docs_path("/docs/a", Ok(site().url)).is_err());
}

#[test]
fn api_result_of_a_site_without_hierarchy_is_none() {
    let base = SiteUrl::parse("mailto:docs@surrealdb.com").unwrap();
    assert!(try_map_search_result(&base, hit("a", "/docs/cloud")).is_none());
    assert!(try_map_search_result(&base, hit("a", "/blog")).unwrap().is_err());
    assert!(map_search_hits(&base, vec![hit("a", "/docs/cloud")], 5).is_none());
    assert!(map_search_hits(&base, vec![hit("a", "/docs/cloud")], 0).unwrap().unwrap().is_empty());
}

#[test]
fn hits_are_passed_on_in_order_up_to_the_limit() {
    let hits = vec![hit("a", "/docs/a"), hit("b", "/docs/b"), hit("c", "/blog")];
    let two = map_search_hits(&site(), hits, 2).unwrap().unwrap();
    assert_eq!(two.len(), 2);
    assert_eq!(two[0].title, "a");
    assert_eq!(two[1].title, "b");
    let hits = vec![hit("a", "/docs/a"), hit("b", "/docs/b"), hit("c", "/blog")];
    assert_eq!(
        map_search_hits(&site(), hits, 3).unwrap().unwrap_err(),
        "search result URL is not a docs path: /blog"
    );
    assert!(map_search_hits(&site(), vec![], 3).unwrap().unwrap().is_empty());
}

#[test]
fn search_is_planned_and_finished() {
    let request = SearchDocsRequest { query: " embedded ".to_string(), limit: Some(100) };
    let plan = plan_search(&site().url, &request).unwrap();
    assert_eq!(
        plan,
        SearchPlan {
            hostname: "main--surrealdb-docs.netlify.app".to_string(),
            query: "embedded".to_string(),
            limit: 25,
        }
    );
    let hits = vec![hit("a", "/docs/a"), hit("b", "https://surrealdb.com/docs/b")];
    let response = finish_search(&site(), plan, hits).unwrap().unwrap();
    assert_eq!(response.query, "embedded");
    assert_eq!(response.count, 2);
    assert_eq!(response.results[1].path, "/docs/b");
    assert_eq!(response.results[1].url, "https://surrealdb.com/docs/b");
}

#[test]
fn search_is_refused_without_terms_or_host() {
    let empty = SearchDocsRequest { query: " ".to_string(), limit: None };
    let mail = SiteUrl::parse("mailto:docs@surrealdb.com").unwrap();
    assert_eq!(plan_search(&mail.url, &empty).unwrap_err(), "query must not be empty");
    let request = SearchDocsRequest { query: "x".to_string(), limit: None };
    assert_eq!(
        plan_search(&mail.url, &request).unwrap_err(),
        "configured docs site URL is missing a host"
    );
    assert_eq!(plan_search(&site().url, &request).unwrap().limit, 10);
}
