use std::path::{Path, PathBuf};
use std::time::{Duration, SystemTime};

use surrealdb_docs_mcp::config::{accept_config, configure, ServerEnv};
use surrealdb_docs_mcp::environment::{
    accept_seconds, env_duration_secs, env_path, env_text, EnvPath, EnvText,
};
use surrealdb_docs_mcp::location::{
    default_cache_home, default_cache_home_for, default_docs_repo_path, docs_repo_path_from_env,
    required_home_dir, CacheEnv, Directory, DEFAULT_APP_DIR_NAME, DEFAULT_DOCS_REPO_DIR_NAME,
};
use surrealdb_docs_mcp::refresh::{
    advance_setup, docs_repo_refresh_max_age, git_args, report_git, setup_warning,
    should_skip_docs_repo_refresh, FetchHead, GitArg, GitOutcome, SetupContext, SetupEvent,
    SetupOutcome, SetupStep, DEFAULT_DOCS_REPO_REFRESH_MAX_AGE_SECS,
    DOCS_REPO_SETUP_TIMEOUT_SECS,
};

fn nanos(time: SystemTime) -> i128 {
    time.duration_since(SystemTime::UNIX_EPOCH).unwrap().as_nanos() as i128
}

fn fetch_head_age(modified_at: SystemTime, now: SystemTime) -> Duration {
    let age = surrealdb_docs_mcp::refresh::fetch_head_age(nanos(modified_at), nanos(now));
    Duration::from_nanos(age as u64)
}

fn env_dir(path: &Path) -> EnvPath<PathBuf> {
    EnvPath {
        path: path.to_path_buf(),
        is_empty: path.as_os_str().is_empty(),
        is_absolute: path.is_absolute(),
    }
}

fn joined(dir: Directory<PathBuf>) -> PathBuf {
    dir.parts.iter().fold(dir.root, |path, part| path.join(part))
}

fn default_docs_repo_path_for_test(
    target_os: &str,
    home_dir: Option<&Path>,
    xdg_cache_home: Option<&Path>,
    local_app_data: Option<&Path>,
) -> Result<PathBuf, String> {
    Ok(joined(default_cache_home_for(
        target_os,
        home_dir.map(env_dir),
        xdg_cache_home.map(env_dir),
        local_app_data.map(env_dir),
    )?)
    .join(DEFAULT_APP_DIR_NAME)
    .join(DEFAULT_DOCS_REPO_DIR_NAME))
}

fn no_env() -> CacheEnv<PathBuf> {
    CacheEnv { home: None, user_profile: None, xdg_cache_home: None, local_app_data: None }
}

fn dir(path: &str) -> Option<EnvPath<PathBuf>> {
    Some(env_dir(Path::new(path)))
}

#[test]
fn fetch_head_is_fresh_within_default_refresh_window() {
    let now = SystemTime::UNIX_EPOCH + Duration::from_secs(100_000);
    let modified_at = now - Duration::from_secs(DEFAULT_DOCS_REPO_REFRESH_MAX_AGE_SECS - 1);

    assert!(
        fetch_head_age(modified_at, now)
            < Duration::from_secs(DEFAULT_DOCS_REPO_REFRESH_MAX_AGE_SECS)
    );
}

#[test]
fn fetch_head_is_stale_after_default_refresh_window() {
    let now = SystemTime::UNIX_EPOCH + Duration::from_secs(100_000);
    let modified_at = now - Duration::from_secs(DEFAULT_DOCS_REPO_REFRESH_MAX_AGE_SECS + 1);

    assert!(
        fetch_head_age(modified_at, now)
            > Duration::from_secs(DEFAULT_DOCS_REPO_REFRESH_MAX_AGE_SECS)
    );
}

#[test]
fn fetch_head_age_clamps_future_timestamps() {
    let now = SystemTime::UNIX_EPOCH + Duration::from_secs(100_000);
    let modified_at = now + Duration::from_secs(60);

    assert_eq!(fetch_head_age(modified_at, now), Duration::ZERO);
}

#[test]
fn fetch_head_age_is_the_difference_of_the_times() {
    let age = surrealdb_docs_mcp::refresh::fetch_head_age;
    assert_eq!(age(3, 10), 7);
    assert_eq!(age(-3, 10), 13);
    assert_eq!(age(-10, -3), 7);
    assert_eq!(age(5, 5), 0);
    assert_eq!(age(i128::MIN, i128::MAX), u128::MAX);
}

#[test]
fn linux_prefers_xdg_cache_home() {
    let path = default_docs_repo_path_for_test(
        "linux",
        Some(Path::new("/home/user")),
        Some(Path::new("/tmp/xdg")),
        None,
    )
    .unwrap();

    assert_eq!(
        path,
        PathBuf::from("/tmp/xdg/surrealdb-docs-mcp/docs.surrealdb.com")
    );
}

#[test]
fn linux_defaults_to_dot_cache() {
    let path =
        default_docs_repo_path_for_test("linux", Some(Path::new("/home/user")), None, None)
            .unwrap();

    assert_eq!(
        path,
        PathBuf::from("/home/user/.cache/surrealdb-docs-mcp/docs.surrealdb.com")
    );
}

#[test]
fn macos_defaults_to_library_caches() {
    let path =
        default_docs_repo_path_for_test("macos", Some(Path::new("/Users/user")), None, None)
            .unwrap();

    assert_eq!(
        path,
        PathBuf::from("/Users/user/Library/Caches/surrealdb-docs-mcp/docs.surrealdb.com")
    );
}

#[test]
fn windows_defaults_to_local_app_data() {
    let path = default_docs_repo_path_for_test(
        "windows",
        Some(Path::new("/Users/user")),
        Some(Path::new("/ignored")),
        Some(Path::new("/AppData/Local")),
    )
    .unwrap();

    assert_eq!(
        path,
        PathBuf::from("/AppData/Local/surrealdb-docs-mcp/docs.surrealdb.com")
    );
}

#[test]
fn wsl_uses_linux_xdg_cache_rules() {
    let path = default_docs_repo_path_for_test(
        "linux",
        Some(Path::new("/home/user")),
        Some(Path::new("/mnt/c/Users/user/.cache")),
        None,
    )
    .unwrap();

    assert_eq!(
        path,
        PathBuf::from("/mnt/c/Users/user/.cache/surrealdb-docs-mcp/docs.surrealdb.com")
    );
}

#[test]
fn relative_xdg_cache_home_is_rejected() {
    let error = default_docs_repo_path_for_test(
        "linux",
        Some(Path::new("/home/user")),
        Some(Path::new("relative")),
        None,
    )
    .unwrap_err();

    assert_eq!(error, "XDG_CACHE_HOME must be an absolute path");
}

#[test]
fn missing_directories_are_errors() {
    let home = "HOME is not set and SURREALDB_DOCS_REPO_PATH was not provided";
    assert_eq!(default_docs_repo_path_for_test("linux", None, None, None).unwrap_err(), home);
    assert_eq!(default_docs_repo_path_for_test("macos", None, None, None).unwrap_err(), home);
    assert_eq!(
        default_docs_repo_path_for_test("windows", Some(Path::new("/h")), None, None).unwrap_err(),
        "LOCALAPPDATA is not set and SURREALDB_DOCS_REPO_PATH was not provided"
    );
    assert_eq!(required_home_dir::<PathBuf>(None).unwrap_err(), home);
    assert_eq!(required_home_dir(dir("/h")).unwrap().path, PathBuf::from("/h"));
}

#[test]
fn empty_variables_do_not_count() {
    assert_eq!(env_path(dir("")), None);
    assert_eq!(env_path(dir("/x")), dir("/x"));
    assert_eq!(env_path::<PathBuf>(None), None);
    let env = CacheEnv {
        home: dir(""),
        user_profile: dir("/profile"),
        xdg_cache_home: dir(""),
        local_app_data: dir(""),
    };
    assert_eq!(
        joined(default_cache_home("linux", env).unwrap()),
        PathBuf::from("/profile/.cache")
    );
    let env = CacheEnv { home: dir("/home/user"), user_profile: dir("/profile"), ..no_env() };
    assert_eq!(
        joined(default_docs_repo_path("freebsd", env).unwrap()),
        PathBuf::from("/home/user/.cache/surrealdb-docs-mcp/docs.surrealdb.com")
    );
}

#[test]
fn configured_directory_overrides_the_default() {
    let env = CacheEnv { home: dir("/home/user"), ..no_env() };
    assert_eq!(
        joined(docs_repo_path_from_env(dir("docs"), "linux", env).unwrap()),
        PathBuf::from("docs")
    );
    let env = CacheEnv { home: dir("/home/user"), ..no_env() };
    assert_eq!(
        docs_repo_path_from_env(dir(""), "linux", env).unwrap_err(),
        "SURREALDB_DOCS_REPO_PATH must not be empty"
    );
    let env = CacheEnv { xdg_cache_home: dir("/c"), ..no_env() };
    assert_eq!(
        joined(docs_repo_path_from_env(None, "macos", env).unwrap()),
        PathBuf::from("/c/surrealdb-docs-mcp/docs.surrealdb.com")
    );
}

#[test]
fn refresh_max_age_defaults_to_six_hours() {
    assert_eq!(
        Duration::from_secs(docs_repo_refresh_max_age(&EnvText::NotPresent).unwrap()),
        Duration::from_secs(DEFAULT_DOCS_REPO_REFRESH_MAX_AGE_SECS)
    );
    assert_eq!(DEFAULT_DOCS_REPO_REFRESH_MAX_AGE_SECS, 21600);
}

#[test]
fn refresh_max_age_honors_env_override() {
    assert_eq!(
        Duration::from_secs(docs_repo_refresh_max_age(&EnvText::Text("60".to_string())).unwrap()),
        Duration::from_secs(60)
    );
}

#[test]
fn seconds_are_read_from_a_variable() {
    let read = |s: &str| env_duration_secs("KEY", &EnvText::Text(s.to_string()));
    assert_eq!(read(" +007\n"), Ok(Some(7)));
    assert_eq!(read("18446744073709551615"), Ok(Some(u64::MAX)));
    assert_eq!(
        read("18446744073709551616"),
        Err("invalid KEY: number too large to fit in target type".to_string())
    );
    assert_eq!(read("-1"), Err("invalid KEY: invalid digit found in string".to_string()));
    assert_eq!(read("+"), Err("invalid KEY: invalid digit found in string".to_string()));
    assert_eq!(read("1 2"), Err("invalid KEY: invalid digit found in string".to_string()));
    assert_eq!(read(" "), Err("invalid KEY: cannot parse integer from empty string".to_string()));
    assert_eq!(env_duration_secs("KEY", &EnvText::NotPresent), Ok(None));
    assert_eq!(
        env_duration_secs("KEY", &EnvText::NotUnicode),
        Err("KEY must be valid unicode".to_string())
    );
    assert_eq!(accept_seconds("KEY", Err("no".to_string())), Err("invalid KEY: no".to_string()));
    assert_eq!(accept_seconds("KEY", Ok(5)), Ok(Some(5)));
}

#[test]
fn texts_fall_back_to_a_default() {
    assert_eq!(env_text(EnvText::NotPresent, "d"), "d");
    assert_eq!(env_text(EnvText::NotUnicode, "d"), "d");
    assert_eq!(env_text(EnvText::Text(String::new()), "d"), "");
}

#[test]
fn refresh_is_skipped_while_the_last_fetch_is_young() {
    let second: i128 = 1_000_000_000;
    let skip = |head: FetchHead, now: i128, secs: u64| {
        should_skip_docs_repo_refresh("/r/.git/FETCH_HEAD", &head, now, secs)
    };
    assert_eq!(skip(FetchHead::NotFound, 0, 60), Ok(false));
    assert_eq!(skip(FetchHead::ModifiedAt(0), 60 * second, 60), Ok(true));
    assert_eq!(skip(FetchHead::ModifiedAt(0), 60 * second + 1, 60), Ok(false));
    assert_eq!(skip(FetchHead::ModifiedAt(5), 0, 0), Ok(true));
    assert_eq!(
        skip(FetchHead::Unreadable("denied".to_string()), 0, 60),
        Err("failed to read /r/.git/FETCH_HEAD metadata: denied".to_string())
    );
    assert_eq!(
        skip(FetchHead::NoModifiedTime("unsupported".to_string()), 0, 60),
        Err("failed to read /r/.git/FETCH_HEAD modified time: unsupported".to_string())
    );
}

fn context() -> SetupContext {
    SetupContext {
        max_age: EnvText::NotPresent,
        git_url: EnvText::NotPresent,
        repo_root: "/c/repo".to_string(),
        parent: "/c".to_string(),
        fetch_head_path: "/c/repo/.git/FETCH_HEAD".to_string(),
    }
}

fn git(outcome: GitOutcome) -> SetupEvent {
    SetupEvent::GitRan(outcome)
}

#[test]
fn missing_copy_is_cloned() {
    let ctx = context();
    let step = advance_setup(
        &ctx,
        SetupStep::Inspect,
        SetupEvent::Inspected { exists: false, has_parent: true },
    );
    assert_eq!(step, SetupStep::CreateParent);
    let step = advance_setup(&ctx, step, SetupEvent::ParentCreated(None));
    assert_eq!(step, SetupStep::Clone);
    let step = advance_setup(&ctx, step, git(GitOutcome::Succeeded));
    assert_eq!(step, SetupStep::SparseCheckout);
    let step = advance_setup(&ctx, step, git(GitOutcome::Succeeded));
    assert_eq!(step, SetupStep::Done);
    let step = advance_setup(
        &ctx,
        SetupStep::Inspect,
        SetupEvent::Inspected { exists: false, has_parent: false },
    );
    assert_eq!(step, SetupStep::Clone);
}

#[test]
fn existing_copy_is_pulled_when_it_is_old() {
    let ctx = context();
    let seen = || SetupEvent::Inspected { exists: true, has_parent: true };
    let step = advance_setup(&ctx, SetupStep::Inspect, seen());
    assert_eq!(step, SetupStep::ReadFetchHead(21600));
    let young = SetupEvent::FetchHeadRead { fetch_head: FetchHead::ModifiedAt(0), now: 1 };
    assert_eq!(advance_setup(&ctx, step, young), SetupStep::Done);
    let missing = SetupEvent::FetchHeadRead { fetch_head: FetchHead::NotFound, now: 1 };
    let step = advance_setup(&ctx, SetupStep::ReadFetchHead(21600), missing);
    assert_eq!(step, SetupStep::Pull);
    assert_eq!(advance_setup(&ctx, step, git(GitOutcome::Succeeded)), SetupStep::Done);
    let ctx = SetupContext { max_age: EnvText::Text("soon".to_string()), ..context() };
    assert_eq!(
        advance_setup(&ctx, SetupStep::Inspect, seen()),
        SetupStep::Failed(
            "invalid SURREALDB_DOCS_REPO_REFRESH_MAX_AGE_SECS: invalid digit found in string"
                .to_string()
        )
    );
}

#[test]
fn trouble_ends_the_setup() {
    let ctx = context();
    let failed = |step: SetupStep, event: SetupEvent| match advance_setup(&ctx, step, event) {
        SetupStep::Failed(error) => error,
        other => panic!("{other:?} is no failure"),
    };
    let stderr = || git(GitOutcome::Failed(b"\nfatal: \xff no\n".to_vec()));
    let not_run = || git(GitOutcome::NotRun("not found".to_string()));
    assert_eq!(failed(SetupStep::Clone, stderr()), "git clone failed: fatal: \u{fffd} no");
    assert_eq!(failed(SetupStep::Clone, not_run()), "failed to run git clone: not found");
    assert_eq!(
        failed(SetupStep::SparseCheckout, stderr()),
        "git sparse-checkout failed: fatal: \u{fffd} no"
    );
    assert_eq!(
        failed(SetupStep::SparseCheckout, not_run()),
        "failed to run git sparse-checkout: not found"
    );
    assert_eq!(
        failed(SetupStep::Pull, stderr()),
        "git pull failed in /c/repo: fatal: \u{fffd} no"
    );
    assert_eq!(
        failed(SetupStep::Pull, not_run()),
        "failed to run git pull in /c/repo: not found"
    );
    assert_eq!(
        failed(SetupStep::CreateParent, SetupEvent::ParentCreated(Some("denied".to_string()))),
        "failed to create /c: denied"
    );
    let head = FetchHead::Unreadable("denied".to_string());
    assert_eq!(
        failed(
            SetupStep::ReadFetchHead(1),
            SetupEvent::FetchHeadRead { fetch_head: head, now: 0 }
        ),
        "failed to read /c/repo/.git/FETCH_HEAD metadata: denied"
    );
}

#[test]
fn events_that_do_not_fit_change_nothing() {
    let ctx = context();
    let end = advance_setup(&ctx, SetupStep::Done, git(GitOutcome::Succeeded));
    assert_eq!(end, SetupStep::Done);
    let step = advance_setup(&ctx, SetupStep::Inspect, git(GitOutcome::Succeeded));
    assert_eq!(step, SetupStep::Inspect);
}

#[test]
fn git_is_reported_in_its_own_words() {
    let failed = GitOutcome::Failed(vec![]);
    assert_eq!(report_git(&failed, "a: ", "b: ", " c \n").as_deref(), Some("b: c"));
    let not_run = GitOutcome::NotRun("d".to_string());
    assert_eq!(report_git(&not_run, "a: ", "b: ", "").as_deref(), Some("a: d"));
    assert_eq!(report_git(&GitOutcome::Succeeded, "a: ", "b: ", "c"), None);
}

fn shown(args: Vec<GitArg>) -> Vec<String> {
    args.into_iter()
        .map(|arg| match arg {
            GitArg::Text(text) => text,
            GitArg::RepoRoot => "<root>".to_string(),
        })
        .collect()
}

#[test]
fn git_gets_its_arguments() {
    let ctx = context();
    assert_eq!(
        shown(git_args(&ctx, &SetupStep::Clone)),
        [
            "clone",
            "--depth",
            "1",
            "--filter=blob:none",
            "--sparse",
            "https://github.com/surrealdb/docs.surrealdb.com.git",
            "<root>",
        ]
    );
    assert_eq!(
        shown(git_args(&ctx, &SetupStep::SparseCheckout)),
        ["-C", "<root>", "sparse-checkout", "set", "src/content"]
    );
    assert_eq!(
        shown(git_args(&ctx, &SetupStep::Pull)),
        ["-C", "<root>", "pull", "--ff-only", "--depth", "1"]
    );
    assert!(git_args(&ctx, &SetupStep::Done).is_empty());
    let ctx = SetupContext { git_url: EnvText::Text("file:///x".to_string()), ..context() };
    assert_eq!(shown(git_args(&ctx, &SetupStep::Clone))[5], "file:///x");
}

#[test]
fn outcomes_are_reported_as_warnings() {
    assert_eq!(setup_warning(&SetupOutcome::Done), None);
    assert_eq!(
        setup_warning(&SetupOutcome::TimedOut).unwrap(),
        format!("warning: docs repo setup timed out after {DOCS_REPO_SETUP_TIMEOUT_SECS}s")
    );
    assert_eq!(
        setup_warning(&SetupOutcome::Panicked("p".to_string())).unwrap(),
        "warning: docs repo setup task panicked: p"
    );
    assert_eq!(setup_warning(&SetupOutcome::Failed("f".to_string())).unwrap(), "warning: f");
}

fn server_env() -> ServerEnv<PathBuf> {
    ServerEnv {
        docs_site_url: EnvText::NotPresent,
        docs_search_api_url: EnvText::NotPresent,
        docs_repo_path: dir("/repo"),
        cache: no_env(),
    }
}

#[test]
fn server_is_configured_by_defaults_and_overrides() {
    let config = configure("linux", server_env()).unwrap();
    assert_eq!(config.docs_site_url.url.text, "https://surrealdb.com/");
    assert_eq!(config.docs_search_api_url.url.text, "https://surrealdb.com/api/docs/search");
    assert_eq!(joined(config.docs_repo_path), PathBuf::from("/repo"));
    let env = ServerEnv {
        docs_site_url: EnvText::Text("http://localhost:4321".to_string()),
        ..server_env()
    };
    let site = configure("linux", env).unwrap().docs_site_url;
    assert_eq!(site.given, "http://localhost:4321");
    assert_eq!(site.url.host.as_deref(), Some("localhost"));
}

#[test]
fn server_reports_the_first_error() {
    let bad = || EnvText::Text("nonsense".to_string());
    let env = ServerEnv {
        docs_site_url: bad(),
        docs_search_api_url: bad(),
        docs_repo_path: dir(""),
        cache: no_env(),
    };
    assert_eq!(
        configure("linux", env).unwrap_err(),
        "SURREALDB_DOCS_REPO_PATH must not be empty"
    );
    let env = ServerEnv { docs_site_url: bad(), docs_search_api_url: bad(), ..server_env() };
    assert_eq!(
        configure("linux", env).unwrap_err(),
        "invalid SURREALDB_DOCS_SITE_URL: relative URL without a base"
    );
    let env = ServerEnv { docs_search_api_url: bad(), ..server_env() };
    assert_eq!(
        configure("linux", env).unwrap_err(),
        "invalid SURREALDB_DOCS_SEARCH_API_URL: relative URL without a base"
    );
    assert_eq!(
        accept_config::<PathBuf>(Err("p".into()), Err("s".into()), Err("a".into())).unwrap_err(),
        "p"
    );
}
