//! The configuration of the server: which site is served, which index is asked, and where the
//! local copy of the repository lies.
use vstd::prelude::*;

use crate::doc_url;
use crate::doc_url::{SiteParts, SiteUrl};
use crate::environment;
use crate::environment::{EnvPath, EnvText};
use crate::location;
use crate::location::{CacheEnv, Directory};
use crate::text;

verus! {

broadcast use vstd::string::group_string_axioms;

/// What the environment says about the server.
#[derive(Debug, PartialEq, Eq)]
pub struct ServerEnv<R> {
    pub docs_site_url: EnvText,
    pub docs_search_api_url: EnvText,
    pub docs_repo_path: Option<EnvPath<R>>,
    pub cache: CacheEnv<R>,
}

/// The configuration of the server.
#[derive(Debug, PartialEq, Eq)]
pub struct ServerConfig<R> {
    pub docs_repo_path: Directory<R>,
    pub docs_site_url: SiteUrl,
    pub docs_search_api_url: SiteUrl,
}

/// The configuration of the server.
#[verifier::ext_equal]
pub struct Config<R> {
    pub docs_repo_path: (R, Seq<Seq<char>>),
    pub docs_site_url: SiteParts,
    pub docs_search_api_url: SiteParts,
}

impl<R> View for ServerConfig<R> {
    type V = Config<R>;

    open spec fn view(&self) -> Config<R> {
        Config {
            docs_repo_path: self.docs_repo_path@,
            docs_site_url: self.docs_site_url@,
            docs_search_api_url: self.docs_search_api_url@,
        }
    }
}

/// The configuration, given the place of the repository and what the URL parser made of the two
/// URLs. The first of the three that is wrong is reported.
pub open spec fn configured<R>(
    docs_repo_path: Result<(R, Seq<Seq<char>>), Seq<char>>,
    docs_site_url: Result<SiteParts, Seq<char>>,
    docs_search_api_url: Result<SiteParts, Seq<char>>,
) -> Result<Config<R>, Seq<char>> {
    match (docs_repo_path, docs_site_url, docs_search_api_url) {
        (Err(e), _, _) => Err(e),
        (_, Err(e), _) => Err("invalid SURREALDB_DOCS_SITE_URL: "@ + e),
        (_, _, Err(e)) => Err("invalid SURREALDB_DOCS_SEARCH_API_URL: "@ + e),
        (Ok(docs_repo_path), Ok(docs_site_url), Ok(docs_search_api_url)) => Ok(
            Config { docs_repo_path, docs_site_url, docs_search_api_url },
        ),
    }
}

/// The configuration, given the place of the repository and what the URL parser made of the two
/// URLs.
pub fn accept_config<R>(
    docs_repo_path: Result<Directory<R>, String>,
    docs_site_url: Result<SiteUrl, String>,
    docs_search_api_url: Result<SiteUrl, String>,
) -> (r: Result<ServerConfig<R>, String>)
    ensures
        text::viewed(r) == configured(
            text::viewed(docs_repo_path),
            text::viewed(docs_site_url),
            text::viewed(docs_search_api_url),
        ),
        r matches Ok(c) ==> {
            &&& docs_site_url == Ok::<SiteUrl, String>(c.docs_site_url)
            &&& docs_search_api_url == Ok::<SiteUrl, String>(c.docs_search_api_url)
        },
{
    let docs_repo_path = match docs_repo_path {
        Ok(path) => path,
        Err(e) => {
            return Err(e);
        },
    };
    let docs_site_url = match docs_site_url {
        Ok(url) => url,
        Err(e) => {
            return Err(text::concat("invalid SURREALDB_DOCS_SITE_URL: ", &e));
        },
    };
    let docs_search_api_url = match docs_search_api_url {
        Ok(url) => url,
        Err(e) => {
            return Err(text::concat("invalid SURREALDB_DOCS_SEARCH_API_URL: ", &e));
        },
    };
    Ok(ServerConfig { docs_repo_path, docs_site_url, docs_search_api_url })
}

/// The configuration that the environment gives.
pub open spec fn config_from<R>(target_os: Seq<char>, env: ServerEnv<R>) -> Result<
    Config<R>,
    Seq<char>,
> {
    configured(
        location::repo_path(env.docs_repo_path, target_os, env.cache),
        doc_url::site_from(
            environment::text_or(env.docs_site_url, doc_url::DEFAULT_DOCS_SITE_URL@),
        ),
        doc_url::site_from(
            environment::text_or(env.docs_search_api_url, doc_url::DEFAULT_DOCS_SEARCH_API_URL@),
        ),
    )
}

/// The configuration that the environment gives. Each of its URLs is the one that the text which
/// was given for it parses to.
pub fn configure<R>(target_os: &str, env: ServerEnv<R>) -> (r: Result<ServerConfig<R>, String>)
    ensures
        text::viewed(r) == config_from(target_os@, env),
        r matches Ok(c) ==> {
            &&& doc_url::is_parsed(c.docs_site_url@)
            &&& doc_url::is_settled(c.docs_site_url@.url)
            &&& doc_url::is_parsed(c.docs_search_api_url@)
            &&& doc_url::is_settled(c.docs_search_api_url@.url)
        },
{
    let site = environment::env_text(env.docs_site_url, doc_url::DEFAULT_DOCS_SITE_URL);
    let api = environment::env_text(env.docs_search_api_url, doc_url::DEFAULT_DOCS_SEARCH_API_URL);
    let path = location::docs_repo_path_from_env(env.docs_repo_path, target_os, env.cache);
    accept_config(path, SiteUrl::parse(&site), SiteUrl::parse(&api))
}

// ---------------------------------------------------------------------------------------------
// Laws
// ---------------------------------------------------------------------------------------------

/// The site and the index are the ones that the environment names, as they are written there, or
/// those of the documentation. What is wrong first is reported: the place of the repository, the
/// site, the index.
pub proof fn law_overrides_are_taken_as_they_are<R>(
    target_os: Seq<char>,
    env: ServerEnv<R>,
    site: Seq<char>,
    api: Seq<char>,
)
    requires
        match env.docs_site_url {
            EnvText::Text(t) => site == t@,
            _ => site == "https://surrealdb.com"@,
        },
        match env.docs_search_api_url {
            EnvText::Text(t) => api == t@,
            _ => api == "https://surrealdb.com/api/docs/search"@,
        },
    ensures
        match (
            location::repo_path(env.docs_repo_path, target_os, env.cache),
            doc_url::url_parse(site),
            doc_url::url_parse(api),
        ) {
            (Ok(dir), Ok(site_url), Ok(api_url)) => {
                &&& config_from(target_os, env) matches Ok(c)
                &&& c.docs_repo_path == dir
                &&& c.docs_site_url.given == site
                &&& c.docs_site_url.url == site_url
                &&& c.docs_search_api_url.given == api
                &&& c.docs_search_api_url.url == api_url
            },
            (Err(e), _, _) => config_from(target_os, env) == Err::<Config<R>, Seq<char>>(e),
            (Ok(_), Err(e), _) => config_from(target_os, env) == Err::<Config<R>, Seq<char>>(
                "invalid SURREALDB_DOCS_SITE_URL: "@ + e,
            ),
            (Ok(_), Ok(_), Err(e)) => config_from(target_os, env) == Err::<Config<R>, Seq<char>>(
                "invalid SURREALDB_DOCS_SEARCH_API_URL: "@ + e,
            ),
        },
{
}

/// A configuration is viewed by its fields.
pub proof fn law_configurations_are_viewed_as_they_are<R>(config: ServerConfig<R>)
    ensures
        config@.docs_repo_path == config.docs_repo_path@,
        config@.docs_site_url == config.docs_site_url@,
        config@.docs_search_api_url == config.docs_search_api_url@,
{
}

} // verus!
