//! Where the local copy of the documentation repository lies.
use vstd::prelude::*;

use crate::environment;
use crate::environment::EnvPath;
use crate::text;

verus! {

broadcast use vstd::string::group_string_axioms;

/// The directory of this program below the directory of all caches.
pub const DEFAULT_APP_DIR_NAME: &'static str = "surrealdb-docs-mcp";

/// The directory of the repository below the directory of this program.
pub const DEFAULT_DOCS_REPO_DIR_NAME: &'static str = "docs.surrealdb.com";

/// A directory: a path that the environment gave, and the names to be joined in turn behind it.
#[derive(Debug, PartialEq, Eq)]
pub struct Directory<R> {
    pub root: R,
    pub parts: Vec<String>,
}

impl<R> View for Directory<R> {
    type V = (R, Seq<Seq<char>>);

    open spec fn view(&self) -> (R, Seq<Seq<char>>) {
        (self.root, text::texts(self.parts@))
    }
}

/// What the environment says about directories.
#[derive(Debug, PartialEq, Eq)]
pub struct CacheEnv<R> {
    pub home: Option<EnvPath<R>>,
    pub user_profile: Option<EnvPath<R>>,
    pub xdg_cache_home: Option<EnvPath<R>>,
    pub local_app_data: Option<EnvPath<R>>,
}

/// The home directory, without which there is no place for caches.
pub open spec fn home_required<R>(home_dir: Option<EnvPath<R>>) -> Result<EnvPath<R>, Seq<char>> {
    match home_dir {
        Some(home) => Ok(home),
        None => Err("HOME is not set and SURREALDB_DOCS_REPO_PATH was not provided"@),
    }
}

/// The home directory, without which there is no place for caches.
pub fn required_home_dir<R>(home_dir: Option<EnvPath<R>>) -> (r: Result<EnvPath<R>, String>)
    ensures
        text::viewed_as_is(r) == home_required(home_dir),
{
    match home_dir {
        Some(home) => Ok(home),
        None => Err("HOME is not set and SURREALDB_DOCS_REPO_PATH was not provided".to_owned()),
    }
}

/// The directory of all caches. Outside of Windows `XDG_CACHE_HOME` names it, if it is absolute;
/// without it the directory is `Library/Caches` in the home directory on macOS and `.cache`
/// elsewhere. On Windows `LOCALAPPDATA` names it.
pub open spec fn cache_home_for<R>(
    target_os: Seq<char>,
    home_dir: Option<EnvPath<R>>,
    xdg_cache_home: Option<EnvPath<R>>,
    local_app_data: Option<EnvPath<R>>,
) -> Result<(R, Seq<Seq<char>>), Seq<char>> {
    if target_os == "windows"@ {
        match local_app_data {
            Some(dir) => Ok((dir.path, Seq::empty())),
            None => Err("LOCALAPPDATA is not set and SURREALDB_DOCS_REPO_PATH was not provided"@),
        }
    } else {
        match xdg_cache_home {
            Some(dir) => if dir.is_absolute {
                Ok((dir.path, Seq::empty()))
            } else {
                Err("XDG_CACHE_HOME must be an absolute path"@)
            },
            None => match home_required(home_dir) {
                Ok(home) => Ok(
                    (
                        home.path,
                        if target_os == "macos"@ {
                            seq!["Library"@, "Caches"@]
                        } else {
                            seq![".cache"@]
                        },
                    ),
                ),
                Err(e) => Err(e),
            },
        }
    }
}

/// The directory of all caches.
pub fn default_cache_home_for<R>(
    target_os: &str,
    home_dir: Option<EnvPath<R>>,
    xdg_cache_home: Option<EnvPath<R>>,
    local_app_data: Option<EnvPath<R>>,
) -> (r: Result<Directory<R>, String>)
    ensures
        text::viewed(r) == cache_home_for(
            target_os@,
            home_dir,
            xdg_cache_home,
            local_app_data,
        ),
{
    let windows = text::same_text(target_os, "windows");
    if !windows {
        if let Some(dir) = xdg_cache_home {
            if !dir.is_absolute {
                return Err("XDG_CACHE_HOME must be an absolute path".to_owned());
            }
            let parts: Vec<String> = Vec::new();
            assert(text::texts(parts@) == Seq::<Seq<char>>::empty());
            return Ok(Directory { root: dir.path, parts });
        }
    }
    if windows {
        match local_app_data {
            Some(dir) => {
                let parts: Vec<String> = Vec::new();
                assert(text::texts(parts@) == Seq::<Seq<char>>::empty());
                Ok(Directory { root: dir.path, parts })
            },
            None => Err(
                "LOCALAPPDATA is not set and SURREALDB_DOCS_REPO_PATH was not provided".to_owned(),
            ),
        }
    } else {
        let home = match required_home_dir(home_dir) {
            Ok(home) => home,
            Err(e) => {
                return Err(e);
            },
        };
        if text::same_text(target_os, "macos") {
            let parts = vec!["Library".to_owned(), "Caches".to_owned()];
            assert(text::texts(parts@) == seq!["Library"@, "Caches"@]);
            Ok(Directory { root: home.path, parts })
        } else {
            let parts = vec![".cache".to_owned()];
            assert(text::texts(parts@) == seq![".cache"@]);
            Ok(Directory { root: home.path, parts })
        }
    }
}

/// The home directory that the environment names: `HOME`, or `USERPROFILE` where it is not set.
pub open spec fn home_of<R>(env: CacheEnv<R>) -> Option<EnvPath<R>> {
    match environment::path_if_set(env.home) {
        Some(home) => Some(home),
        None => environment::path_if_set(env.user_profile),
    }
}

/// The directory of all caches that the environment names. Variables that are set to nothing do
/// not count.
pub open spec fn cache_home<R>(target_os: Seq<char>, env: CacheEnv<R>) -> Result<
    (R, Seq<Seq<char>>),
    Seq<char>,
> {
    cache_home_for(
        target_os,
        home_of(env),
        environment::path_if_set(env.xdg_cache_home),
        environment::path_if_set(env.local_app_data),
    )
}

/// The directory of all caches that the environment names.
pub fn default_cache_home<R>(target_os: &str, env: CacheEnv<R>) -> (r: Result<Directory<R>, String>)
    ensures
        text::viewed(r) == cache_home(target_os@, env),
{
    let home_dir = match environment::env_path(env.home) {
        Some(home) => Some(home),
        None => environment::env_path(env.user_profile),
    };
    let xdg_cache_home = environment::env_path(env.xdg_cache_home);
    let local_app_data = environment::env_path(env.local_app_data);
    default_cache_home_for(target_os, home_dir, xdg_cache_home, local_app_data)
}

/// The directory of the repository below the directory of all caches.
pub open spec fn repo_below<R>(cache: (R, Seq<Seq<char>>)) -> (R, Seq<Seq<char>>) {
    (cache.0, cache.1.push(DEFAULT_APP_DIR_NAME@).push(DEFAULT_DOCS_REPO_DIR_NAME@))
}

/// Where the repository lies unless its directory is configured.
pub open spec fn default_repo_path<R>(target_os: Seq<char>, env: CacheEnv<R>) -> Result<
    (R, Seq<Seq<char>>),
    Seq<char>,
> {
    match cache_home(target_os, env) {
        Ok(cache) => Ok(repo_below(cache)),
        Err(e) => Err(e),
    }
}

/// Where the repository lies unless its directory is configured.
pub fn default_docs_repo_path<R>(target_os: &str, env: CacheEnv<R>) -> (r: Result<
    Directory<R>,
    String,
>)
    ensures
        text::viewed(r) == default_repo_path(target_os@, env),
{
    match default_cache_home(target_os, env) {
        Ok(cache) => {
            let mut dir = cache;
            let ghost before = dir.parts@;
            dir.parts.push(DEFAULT_APP_DIR_NAME.to_owned());
            dir.parts.push(DEFAULT_DOCS_REPO_DIR_NAME.to_owned());
            assert(dir@ == repo_below((dir.root, text::texts(before))));
            Ok(dir)
        },
        Err(e) => Err(e),
    }
}

/// Where the repository lies: where it is configured to, else in the default place. A directory
/// that is configured to nothing is refused.
pub open spec fn repo_path<R>(
    configured: Option<EnvPath<R>>,
    target_os: Seq<char>,
    env: CacheEnv<R>,
) -> Result<(R, Seq<Seq<char>>), Seq<char>> {
    match configured {
        Some(p) => if p.is_empty {
            Err("SURREALDB_DOCS_REPO_PATH must not be empty"@)
        } else {
            Ok((p.path, Seq::empty()))
        },
        None => default_repo_path(target_os, env),
    }
}

/// Where the repository lies.
pub fn docs_repo_path_from_env<R>(
    configured: Option<EnvPath<R>>,
    target_os: &str,
    env: CacheEnv<R>,
) -> (r: Result<Directory<R>, String>)
    ensures
        text::viewed(r) == repo_path(configured, target_os@, env),
{
    match configured {
        Some(p) => {
            if p.is_empty {
                return Err("SURREALDB_DOCS_REPO_PATH must not be empty".to_owned());
            }
            let parts: Vec<String> = Vec::new();
            assert(text::texts(parts@) == Seq::<Seq<char>>::empty());
            Ok(Directory { root: p.path, parts })
        },
        None => default_docs_repo_path(target_os, env),
    }
}

// ---------------------------------------------------------------------------------------------
// Laws
// ---------------------------------------------------------------------------------------------

/// A configured directory overrides the default entirely: nothing else of the environment counts.
pub proof fn law_configured_directory_overrides<R>(
    p: EnvPath<R>,
    os1: Seq<char>,
    env1: CacheEnv<R>,
    os2: Seq<char>,
    env2: CacheEnv<R>,
)
    ensures
        repo_path(Some(p), os1, env1) == repo_path(Some(p), os2, env2),
        !p.is_empty ==> repo_path(Some(p), os1, env1) == Ok::<(R, Seq<Seq<char>>), Seq<char>>(
            (p.path, Seq::empty()),
        ),
{
}

/// Outside of Windows `XDG_CACHE_HOME` decides where it is set: an absolute one is the directory
/// of all caches, a relative one is refused.
pub proof fn law_xdg_cache_home_decides<R>(target_os: Seq<char>, env: CacheEnv<R>)
    requires
        target_os != "windows"@,
        environment::path_if_set(env.xdg_cache_home) is Some,
    ensures
        default_repo_path(target_os, env) == if env.xdg_cache_home->0.is_absolute {
            Ok::<(R, Seq<Seq<char>>), Seq<char>>(
                (
                    env.xdg_cache_home->0.path,
                    seq![DEFAULT_APP_DIR_NAME@, DEFAULT_DOCS_REPO_DIR_NAME@],
                ),
            )
        } else {
            Err("XDG_CACHE_HOME must be an absolute path"@)
        },
{
    assert(Seq::<Seq<char>>::empty().push(DEFAULT_APP_DIR_NAME@).push(DEFAULT_DOCS_REPO_DIR_NAME@)
        == seq![DEFAULT_APP_DIR_NAME@, DEFAULT_DOCS_REPO_DIR_NAME@]);
}

/// On Windows only `LOCALAPPDATA` counts.
pub proof fn law_only_local_app_data_counts_on_windows<R>(env1: CacheEnv<R>, env2: CacheEnv<R>)
    requires
        env1.local_app_data == env2.local_app_data,
    ensures
        default_repo_path("windows"@, env1) == default_repo_path("windows"@, env2),
{
}

/// Every system but Windows and macOS follows the rules of Linux.
pub proof fn law_other_systems_follow_linux<R>(target_os: Seq<char>, env: CacheEnv<R>)
    requires
        target_os != "windows"@,
        target_os != "macos"@,
    ensures
        default_repo_path(target_os, env) == default_repo_path("linux"@, env),
{
    reveal_strlit("windows");
    reveal_strlit("macos");
    reveal_strlit("linux");
    assert("linux"@[0] == 'l' && "windows"@[0] == 'w' && "macos"@[0] == 'm');
}

/// A default place ends in the directory of this program and that of the repository.
pub proof fn law_default_place_ends_in_its_own_directories<R>(
    target_os: Seq<char>,
    env: CacheEnv<R>,
)
    ensures
        default_repo_path(target_os, env) matches Ok(dir) ==> {
            &&& dir.1.len() >= 2
            &&& dir.1[dir.1.len() - 2] == DEFAULT_APP_DIR_NAME@
            &&& dir.1.last() == DEFAULT_DOCS_REPO_DIR_NAME@
        },
{
}

/// A variable that is set to nothing counts as one that is not set.
pub proof fn law_empty_variables_do_not_count<R>(
    target_os: Seq<char>,
    env: CacheEnv<R>,
    empty: EnvPath<R>,
)
    requires
        empty.is_empty,
    ensures
        cache_home(target_os, CacheEnv { home: Some(empty), ..env }) == cache_home(
            target_os,
            CacheEnv { home: None, ..env },
        ),
        cache_home(target_os, CacheEnv { user_profile: Some(empty), ..env }) == cache_home(
            target_os,
            CacheEnv { user_profile: None, ..env },
        ),
        cache_home(target_os, CacheEnv { xdg_cache_home: Some(empty), ..env }) == cache_home(
            target_os,
            CacheEnv { xdg_cache_home: None, ..env },
        ),
        cache_home(target_os, CacheEnv { local_app_data: Some(empty), ..env }) == cache_home(
            target_os,
            CacheEnv { local_app_data: None, ..env },
        ),
{
}

/// The directory is set: the variable holds something.
pub open spec fn is_set<R>(value: Option<EnvPath<R>>) -> bool {
    value is Some && !value->0.is_empty
}

/// Outside of Windows, and without `XDG_CACHE_HOME`, the repository lies in the home directory: in
/// `Library/Caches` on macOS and in `.cache` elsewhere. `HOME` names the home directory, and
/// `USERPROFILE` where `HOME` is not set; without both there is no place.
pub proof fn law_default_place_is_in_the_home_directory<R>(target_os: Seq<char>, env: CacheEnv<R>)
    requires
        target_os != "windows"@,
        !is_set(env.xdg_cache_home),
    ensures
        ({
            let below = if target_os == "macos"@ {
                seq!["Library"@, "Caches"@, "surrealdb-docs-mcp"@, "docs.surrealdb.com"@]
            } else {
                seq![".cache"@, "surrealdb-docs-mcp"@, "docs.surrealdb.com"@]
            };
            let place = repo_path(None, target_os, env);
            if is_set(env.home) {
                place == Ok::<(R, Seq<Seq<char>>), Seq<char>>((env.home->0.path, below))
            } else if is_set(env.user_profile) {
                place == Ok::<(R, Seq<Seq<char>>), Seq<char>>((env.user_profile->0.path, below))
            } else {
                place == Err::<(R, Seq<Seq<char>>), Seq<char>>(
                    "HOME is not set and SURREALDB_DOCS_REPO_PATH was not provided"@,
                )
            }
        }),
{
    assert(seq!["Library"@, "Caches"@].push(DEFAULT_APP_DIR_NAME@).push(DEFAULT_DOCS_REPO_DIR_NAME@)
        == seq!["Library"@, "Caches"@, "surrealdb-docs-mcp"@, "docs.surrealdb.com"@]);
    assert(seq![".cache"@].push(DEFAULT_APP_DIR_NAME@).push(DEFAULT_DOCS_REPO_DIR_NAME@) == seq![
        ".cache"@,
        "surrealdb-docs-mcp"@,
        "docs.surrealdb.com"@,
    ]);
}

/// On Windows the repository lies in the directory that `LOCALAPPDATA` names. Elsewhere it lies in
/// the one that `XDG_CACHE_HOME` names, where that is set; a relative one is refused.
pub proof fn law_default_place_is_in_the_named_directory<R>(
    target_os: Seq<char>,
    env: CacheEnv<R>,
)
    ensures
        ({
            let below = seq!["surrealdb-docs-mcp"@, "docs.surrealdb.com"@];
            let place = repo_path(None, target_os, env);
            &&& target_os == "windows"@ && is_set(env.local_app_data) ==> place == Ok::<
                (R, Seq<Seq<char>>),
                Seq<char>,
            >((env.local_app_data->0.path, below))
            &&& target_os == "windows"@ && !is_set(env.local_app_data) ==> place == Err::<
                (R, Seq<Seq<char>>),
                Seq<char>,
            >("LOCALAPPDATA is not set and SURREALDB_DOCS_REPO_PATH was not provided"@)
            &&& target_os != "windows"@ && is_set(env.xdg_cache_home) ==> place
                == if env.xdg_cache_home->0.is_absolute {
                Ok::<(R, Seq<Seq<char>>), Seq<char>>((env.xdg_cache_home->0.path, below))
            } else {
                Err("XDG_CACHE_HOME must be an absolute path"@)
            }
        }),
{
    assert(Seq::<Seq<char>>::empty().push(DEFAULT_APP_DIR_NAME@).push(DEFAULT_DOCS_REPO_DIR_NAME@)
        == seq!["surrealdb-docs-mcp"@, "docs.surrealdb.com"@]);
}

/// The directory of all caches is the one that is named, or the usual one in the home directory.
pub proof fn law_cache_home_follows_the_system<R>(
    target_os: Seq<char>,
    home: Option<EnvPath<R>>,
    xdg: Option<EnvPath<R>>,
    local: Option<EnvPath<R>>,
)
    ensures
        ({
            let place = cache_home_for(target_os, home, xdg, local);
            let none = Seq::<Seq<char>>::empty();
            &&& target_os == "windows"@ && local is Some ==> place == Ok::<
                (R, Seq<Seq<char>>),
                Seq<char>,
            >((local->0.path, none))
            &&& target_os == "windows"@ && local is None ==> place == Err::<
                (R, Seq<Seq<char>>),
                Seq<char>,
            >("LOCALAPPDATA is not set and SURREALDB_DOCS_REPO_PATH was not provided"@)
            &&& target_os != "windows"@ && xdg is Some && xdg->0.is_absolute ==> place == Ok::<
                (R, Seq<Seq<char>>),
                Seq<char>,
            >((xdg->0.path, none))
            &&& target_os != "windows"@ && xdg is Some && !xdg->0.is_absolute ==> place == Err::<
                (R, Seq<Seq<char>>),
                Seq<char>,
            >("XDG_CACHE_HOME must be an absolute path"@)
            &&& target_os != "windows"@ && xdg is None && home is None ==> place == Err::<
                (R, Seq<Seq<char>>),
                Seq<char>,
            >("HOME is not set and SURREALDB_DOCS_REPO_PATH was not provided"@)
            &&& target_os == "macos"@ && target_os != "windows"@ && xdg is None && home is Some
                ==> place == Ok::<(R, Seq<Seq<char>>), Seq<char>>(
                (home->0.path, seq!["Library"@, "Caches"@]),
            )
            &&& target_os != "macos"@ && target_os != "windows"@ && xdg is None && home is Some
                ==> place == Ok::<(R, Seq<Seq<char>>), Seq<char>>((home->0.path, seq![".cache"@]))
        }),
{
}

/// A configured directory is taken as it is, and one that is configured to nothing is refused.
pub proof fn law_configured_directory_is_taken<R>(
    p: EnvPath<R>,
    target_os: Seq<char>,
    env: CacheEnv<R>,
)
    ensures
        repo_path(Some(p), target_os, env) == if p.is_empty {
            Err::<(R, Seq<Seq<char>>), Seq<char>>("SURREALDB_DOCS_REPO_PATH must not be empty"@)
        } else {
            Ok((p.path, Seq::<Seq<char>>::empty()))
        },
{
}

/// A directory is viewed by its root and the names behind it, in their order.
pub proof fn law_directories_are_viewed_as_they_are<R>(dir: Directory<R>)
    ensures
        dir@.0 == dir.root,
        dir@.1.len() == dir.parts@.len(),
        forall|i: int| 0 <= i < dir.parts@.len() ==> #[trigger] dir@.1[i] == dir.parts@[i]@,
{
}

} // verus!
