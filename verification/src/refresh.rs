//! Keeping the local copy of the documentation repository fresh: when it is cloned, when it is
//! pulled, when it is left alone, and what goes wrong on the way.
use vstd::prelude::*;

use crate::environment;
use crate::environment::EnvText;
use crate::text;

verus! {

broadcast use vstd::string::group_string_axioms;

/// The repository where none is configured.
pub const DEFAULT_DOCS_REPO_GIT_URL: &'static str =
    "https://github.com/surrealdb/docs.surrealdb.com.git";

/// How old the last fetch may be, in seconds, where nothing is configured: six hours.
pub const DEFAULT_DOCS_REPO_REFRESH_MAX_AGE_SECS: u64 = 6 * 60 * 60;

/// How long setting up the repository may take. A clone needs more time than a pull.
pub const DOCS_REPO_SETUP_TIMEOUT_SECS: u64 = 120;

/// The nanoseconds of a second.
pub const NANOS_PER_SEC: u128 = 1_000_000_000;

// ---------------------------------------------------------------------------------------------
// The age of the last fetch
// ---------------------------------------------------------------------------------------------

/// How old the last fetch may be, in seconds, given the variable that configures it.
pub open spec fn refresh_max_age(value: EnvText) -> Result<u64, Seq<char>> {
    match environment::duration_secs("SURREALDB_DOCS_REPO_REFRESH_MAX_AGE_SECS"@, value) {
        Ok(Some(secs)) => Ok(secs),
        Ok(None) => Ok(DEFAULT_DOCS_REPO_REFRESH_MAX_AGE_SECS),
        Err(e) => Err(e),
    }
}

/// How old the last fetch may be, in seconds, given the variable that configures it.
pub fn docs_repo_refresh_max_age(value: &EnvText) -> (r: Result<u64, String>)
    ensures
        text::viewed_as_is(r) == refresh_max_age(*value),
{
    match environment::env_duration_secs("SURREALDB_DOCS_REPO_REFRESH_MAX_AGE_SECS", value) {
        Ok(secs) => Ok(secs.unwrap_or(DEFAULT_DOCS_REPO_REFRESH_MAX_AGE_SECS)),
        Err(e) => Err(e),
    }
}

/// How long ago something was, in nanoseconds; nothing for a time that has yet to come.
pub open spec fn age(modified_at: i128, now: i128) -> int {
    if modified_at <= now {
        now - modified_at
    } else {
        0
    }
}

/// How long ago the last fetch was. Times are nanoseconds since the Unix epoch.
pub fn fetch_head_age(modified_at: i128, now: i128) -> (r: u128)
    ensures
        r == age(modified_at, now),
{
    if modified_at >= now {
        0
    } else if modified_at >= 0 || now < 0 {
        (now - modified_at) as u128
    } else {
        // The epoch lies between the two times.
        now as u128 + (-(modified_at + 1)) as u128 + 1
    }
}

/// What is known of the last fetch.
#[derive(Debug, PartialEq, Eq)]
pub enum FetchHead {
    /// There was none.
    NotFound,
    /// The record of it cannot be read, for this reason.
    Unreadable(String),
    /// The time of it cannot be read, for this reason.
    NoModifiedTime(String),
    /// It was at this time, in nanoseconds since the Unix epoch.
    ModifiedAt(i128),
}

/// Whether the copy is fresh enough to be left alone: the last fetch is not older than allowed.
pub open spec fn skips_refresh(
    fetch_head_path: Seq<char>,
    fetch_head: FetchHead,
    now: i128,
    refresh_max_age_secs: u64,
) -> Result<bool, Seq<char>> {
    match fetch_head {
        FetchHead::NotFound => Ok(false),
        FetchHead::Unreadable(error) => Err(
            "failed to read "@ + fetch_head_path + " metadata: "@ + error@,
        ),
        FetchHead::NoModifiedTime(error) => Err(
            "failed to read "@ + fetch_head_path + " modified time: "@ + error@,
        ),
        FetchHead::ModifiedAt(modified_at) => Ok(
            age(modified_at, now) <= refresh_max_age_secs * NANOS_PER_SEC,
        ),
    }
}

/// Joins four strings.
fn concat4(a: &str, b: &str, c: &str, d: &str) -> (r: String)
    ensures
        r@ == a@ + b@ + c@ + d@,
{
    text::concat(&text::concat(&text::concat(a, b), c), d)
}

/// Tells whether the copy is fresh enough to be left alone. `fetch_head_path` is how the record of
/// the last fetch is called in an error.
pub fn should_skip_docs_repo_refresh(
    fetch_head_path: &str,
    fetch_head: &FetchHead,
    now: i128,
    refresh_max_age_secs: u64,
) -> (r: Result<bool, String>)
    ensures
        text::viewed_as_is(r) == skips_refresh(
            fetch_head_path@,
            *fetch_head,
            now,
            refresh_max_age_secs,
        ),
{
    match fetch_head {
        FetchHead::NotFound => Ok(false),
        FetchHead::Unreadable(error) => Err(
            concat4("failed to read ", fetch_head_path, " metadata: ", error),
        ),
        FetchHead::NoModifiedTime(error) => Err(
            concat4("failed to read ", fetch_head_path, " modified time: ", error),
        ),
        FetchHead::ModifiedAt(modified_at) => {
            let max_age: u128 = refresh_max_age_secs as u128 * NANOS_PER_SEC;
            Ok(fetch_head_age(*modified_at, now) <= max_age)
        },
    }
}

// ---------------------------------------------------------------------------------------------
// What git says
// ---------------------------------------------------------------------------------------------

/// How a call of git ended.
#[derive(Debug, PartialEq, Eq)]
pub enum GitOutcome {
    /// Git could not be run, for this reason.
    NotRun(String),
    /// Git failed and wrote this to its standard error.
    Failed(Vec<u8>),
    /// Git succeeded.
    Succeeded,
}

/// The text that `String::from_utf8_lossy` reads in some bytes.
pub uninterp spec fn lossy_text(bytes: Seq<u8>) -> Seq<char>;

/// Calls `String::from_utf8_lossy`. It claims that the text depends on the bytes alone, and that
/// bytes which are the UTF-8 encoding of a text are read as that text. Where the replacement
/// character stands in the text of other bytes is not stated.
#[verifier::external_body]
fn read_lossily(bytes: &Vec<u8>) -> (r: String)
    ensures
        r@ == lossy_text(bytes@),
        vstd::utf8::valid_utf8(bytes@) ==> r@ == vstd::utf8::decode_utf8(bytes@),
{
    String::from_utf8_lossy(bytes).into_owned()
}

/// How an outcome of git is reported: nothing for a success, else the words for a call that could
/// not be made and the reason, or those for a failure and what was read of git's own words, white
/// space around them aside.
pub open spec fn git_report(
    outcome: GitOutcome,
    not_run: Seq<char>,
    failed: Seq<char>,
    stderr: Seq<char>,
) -> Option<Seq<char>> {
    match outcome {
        GitOutcome::NotRun(error) => Some(not_run + error@),
        GitOutcome::Failed(_) => Some(failed + text::trim(stderr)),
        GitOutcome::Succeeded => None,
    }
}

/// How an outcome of git is reported.
pub open spec fn git_error(outcome: GitOutcome, not_run: Seq<char>, failed: Seq<char>) -> Option<
    Seq<char>,
> {
    git_report(
        outcome,
        not_run,
        failed,
        match outcome {
            GitOutcome::Failed(bytes) => lossy_text(bytes@),
            _ => Seq::empty(),
        },
    )
}

/// How an outcome of git is reported, given what was read of git's own words.
pub fn report_git(outcome: &GitOutcome, not_run: &str, failed: &str, stderr: &str) -> (r: Option<
    String,
>)
    ensures
        text::view_of(r) == git_report(*outcome, not_run@, failed@, stderr@),
{
    match outcome {
        GitOutcome::NotRun(error) => Some(text::concat(not_run, error)),
        GitOutcome::Failed(_) => Some(text::concat(failed, text::trimmed_text(stderr))),
        GitOutcome::Succeeded => None,
    }
}

/// How an outcome of git is reported.
fn report_git_outcome(outcome: &GitOutcome, not_run: &str, failed: &str) -> (r: Option<String>)
    ensures
        text::view_of(r) == git_error(*outcome, not_run@, failed@),
{
    let stderr = match outcome {
        GitOutcome::Failed(bytes) => read_lossily(bytes),
        _ => String::new(),
    };
    report_git(outcome, not_run, failed, &stderr)
}

// ---------------------------------------------------------------------------------------------
// Setting up the copy
// ---------------------------------------------------------------------------------------------

/// What setting up depends on besides what happens on the way: the variables that configure it,
/// and how the paths are called in an error.
#[derive(Debug, PartialEq, Eq)]
pub struct SetupContext {
    pub max_age: EnvText,
    pub git_url: EnvText,
    pub repo_root: String,
    pub parent: String,
    pub fetch_head_path: String,
}

/// What is to be done next.
#[derive(Debug, PartialEq, Eq)]
pub enum SetupStep {
    /// Look whether the copy exists and whether its directory has a parent.
    Inspect,
    /// Create the parent of the directory of the copy.
    CreateParent,
    /// Clone the repository.
    Clone,
    /// Restrict the copy to the documentation.
    SparseCheckout,
    /// Look when the last fetch was; it may be this many seconds old.
    ReadFetchHead(u64),
    /// Pull.
    Pull,
    /// Nothing: the copy is set up.
    Done,
    /// Nothing: setting up failed, for this reason.
    Failed(String),
}

/// What came of a step.
#[derive(Debug, PartialEq, Eq)]
pub enum SetupEvent {
    /// What the look at the copy showed.
    Inspected { exists: bool, has_parent: bool },
    /// The parent was created, or it was not, for this reason.
    ParentCreated(Option<String>),
    /// What is known of the last fetch, and the time now.
    FetchHeadRead { fetch_head: FetchHead, now: i128 },
    /// How the call of git ended.
    GitRan(GitOutcome),
}

/// The event is one that the step can bring.
pub open spec fn answers(step: SetupStep, event: SetupEvent) -> bool {
    match step {
        SetupStep::Inspect => event is Inspected,
        SetupStep::CreateParent => event is ParentCreated,
        SetupStep::Clone => event is GitRan,
        SetupStep::SparseCheckout => event is GitRan,
        SetupStep::ReadFetchHead(_) => event is FetchHeadRead,
        SetupStep::Pull => event is GitRan,
        SetupStep::Done => false,
        SetupStep::Failed(_) => false,
    }
}

/// What is to be done next, by its content.
#[verifier::ext_equal]
pub enum Next {
    Inspect,
    CreateParent,
    Clone,
    SparseCheckout,
    ReadFetchHead(u64),
    Pull,
    Done,
    Failed(Seq<char>),
}

impl View for SetupStep {
    type V = Next;

    open spec fn view(&self) -> Next {
        match self {
            SetupStep::Inspect => Next::Inspect,
            SetupStep::CreateParent => Next::CreateParent,
            SetupStep::Clone => Next::Clone,
            SetupStep::SparseCheckout => Next::SparseCheckout,
            SetupStep::ReadFetchHead(secs) => Next::ReadFetchHead(*secs),
            SetupStep::Pull => Next::Pull,
            SetupStep::Done => Next::Done,
            SetupStep::Failed(e) => Next::Failed(e@),
        }
    }
}

/// What follows a call of git: the next step, or the end with an error.
pub open spec fn after_git(error: Option<Seq<char>>, next: Next) -> Next {
    match error {
        Some(e) => Next::Failed(e),
        None => next,
    }
}

/// What is to be done after a step that brought an event.
///
/// A copy that does not exist is cloned, into a parent that is created first, and restricted to
/// the documentation. One that exists is left alone if the last fetch is young enough, and pulled
/// if it is not. Whatever goes wrong ends the setup.
pub open spec fn next_step(ctx: SetupContext, step: Next, event: SetupEvent) -> Next {
    match (step, event) {
        (Next::Inspect, SetupEvent::Inspected { exists, has_parent }) => if exists {
            match refresh_max_age(ctx.max_age) {
                Ok(secs) => Next::ReadFetchHead(secs),
                Err(e) => Next::Failed(e),
            }
        } else if has_parent {
            Next::CreateParent
        } else {
            Next::Clone
        },
        (Next::CreateParent, SetupEvent::ParentCreated(error)) => match error {
            Some(e) => Next::Failed("failed to create "@ + ctx.parent@ + ": "@ + e@),
            None => Next::Clone,
        },
        (Next::Clone, SetupEvent::GitRan(outcome)) => after_git(
            git_error(outcome, "failed to run git clone: "@, "git clone failed: "@),
            Next::SparseCheckout,
        ),
        (Next::SparseCheckout, SetupEvent::GitRan(outcome)) => after_git(
            git_error(
                outcome,
                "failed to run git sparse-checkout: "@,
                "git sparse-checkout failed: "@,
            ),
            Next::Done,
        ),
        (
            Next::ReadFetchHead(secs),
            SetupEvent::FetchHeadRead { fetch_head, now },
        ) => match skips_refresh(ctx.fetch_head_path@, fetch_head, now, secs) {
            Ok(skip) => if skip {
                Next::Done
            } else {
                Next::Pull
            },
            Err(e) => Next::Failed(e),
        },
        (Next::Pull, SetupEvent::GitRan(outcome)) => after_git(
            git_error(
                outcome,
                "failed to run git pull in "@ + ctx.repo_root@ + ": "@,
                "git pull failed in "@ + ctx.repo_root@ + ": "@,
            ),
            Next::Done,
        ),
        _ => step,
    }
}

/// Turns what git reported into the next step.
fn step_after_git(error: Option<String>, next: SetupStep) -> (r: SetupStep)
    ensures
        r@ == after_git(text::view_of(error), next@),
{
    match error {
        Some(e) => SetupStep::Failed(e),
        None => next,
    }
}

/// What is to be done after a step that brought an event. An event that the step cannot bring
/// changes nothing.
pub fn advance_setup(ctx: &SetupContext, step: SetupStep, event: SetupEvent) -> (r: SetupStep)
    ensures
        r@ == next_step(*ctx, step@, event),
        !answers(step, event) ==> r == step,
{
    match (step, event) {
        (SetupStep::Inspect, SetupEvent::Inspected { exists, has_parent }) => {
            if exists {
                match docs_repo_refresh_max_age(&ctx.max_age) {
                    Ok(secs) => SetupStep::ReadFetchHead(secs),
                    Err(e) => SetupStep::Failed(e),
                }
            } else if has_parent {
                SetupStep::CreateParent
            } else {
                SetupStep::Clone
            }
        },
        (SetupStep::CreateParent, SetupEvent::ParentCreated(error)) => match error {
            Some(e) => SetupStep::Failed(concat4("failed to create ", &ctx.parent, ": ", &e)),
            None => SetupStep::Clone,
        },
        (SetupStep::Clone, SetupEvent::GitRan(outcome)) => step_after_git(
            report_git_outcome(&outcome, "failed to run git clone: ", "git clone failed: "),
            SetupStep::SparseCheckout,
        ),
        (SetupStep::SparseCheckout, SetupEvent::GitRan(outcome)) => step_after_git(
            report_git_outcome(
                &outcome,
                "failed to run git sparse-checkout: ",
                "git sparse-checkout failed: ",
            ),
            SetupStep::Done,
        ),
        (SetupStep::ReadFetchHead(secs), SetupEvent::FetchHeadRead { fetch_head, now }) => {
            match should_skip_docs_repo_refresh(&ctx.fetch_head_path, &fetch_head, now, secs) {
                Ok(skip) => if skip {
                    SetupStep::Done
                } else {
                    SetupStep::Pull
                },
                Err(e) => SetupStep::Failed(e),
            }
        },
        (SetupStep::Pull, SetupEvent::GitRan(outcome)) => step_after_git(
            report_git_outcome(
                &outcome,
                &text::concat(&text::concat("failed to run git pull in ", &ctx.repo_root), ": "),
                &text::concat(&text::concat("git pull failed in ", &ctx.repo_root), ": "),
            ),
            SetupStep::Done,
        ),
        (step, _) => step,
    }
}

/// An argument of git: a text, or the directory of the copy.
#[derive(Debug, PartialEq, Eq)]
pub enum GitArg {
    Text(String),
    RepoRoot,
}

/// An argument of git, by its content.
#[verifier::ext_equal]
pub enum Arg {
    Text(Seq<char>),
    RepoRoot,
}

impl View for GitArg {
    type V = Arg;

    open spec fn view(&self) -> Arg {
        match self {
            GitArg::Text(t) => Arg::Text(t@),
            GitArg::RepoRoot => Arg::RepoRoot,
        }
    }
}

/// The views of some arguments.
pub open spec fn args_view(args: Seq<GitArg>) -> Seq<Arg> {
    args.map_values(|a: GitArg| a@)
}

/// The arguments with which a step calls git; none for a step that does not. A clone is shallow
/// and sparse and leaves out file contents, and a pull is shallow and only moves forward.
pub open spec fn args_of(ctx: SetupContext, step: Next) -> Seq<Arg> {
    match step {
        Next::Clone => seq![
            Arg::Text("clone"@),
            Arg::Text("--depth"@),
            Arg::Text("1"@),
            Arg::Text("--filter=blob:none"@),
            Arg::Text("--sparse"@),
            Arg::Text(environment::text_or(ctx.git_url, DEFAULT_DOCS_REPO_GIT_URL@)),
            Arg::RepoRoot,
        ],
        Next::SparseCheckout => seq![
            Arg::Text("-C"@),
            Arg::RepoRoot,
            Arg::Text("sparse-checkout"@),
            Arg::Text("set"@),
            Arg::Text("src/content"@),
        ],
        Next::Pull => seq![
            Arg::Text("-C"@),
            Arg::RepoRoot,
            Arg::Text("pull"@),
            Arg::Text("--ff-only"@),
            Arg::Text("--depth"@),
            Arg::Text("1"@),
        ],
        _ => Seq::empty(),
    }
}

/// An argument with this text.
fn arg(t: &str) -> (r: GitArg)
    ensures
        r@ == Arg::Text(t@),
{
    GitArg::Text(t.to_owned())
}

/// The arguments with which a step calls git.
pub fn git_args(ctx: &SetupContext, step: &SetupStep) -> (r: Vec<GitArg>)
    ensures
        args_view(r@) == args_of(*ctx, step@),
{
    match step {
        SetupStep::Clone => {
            let url = match &ctx.git_url {
                EnvText::Text(t) => arg(t),
                _ => arg(DEFAULT_DOCS_REPO_GIT_URL),
            };
            let r = vec![
                arg("clone"),
                arg("--depth"),
                arg("1"),
                arg("--filter=blob:none"),
                arg("--sparse"),
                url,
                GitArg::RepoRoot,
            ];
            assert(args_view(r@) == args_of(*ctx, step@));
            r
        },
        SetupStep::SparseCheckout => {
            let r = vec![
                arg("-C"),
                GitArg::RepoRoot,
                arg("sparse-checkout"),
                arg("set"),
                arg("src/content"),
            ];
            assert(args_view(r@) == args_of(*ctx, step@));
            r
        },
        SetupStep::Pull => {
            let r = vec![
                arg("-C"),
                GitArg::RepoRoot,
                arg("pull"),
                arg("--ff-only"),
                arg("--depth"),
                arg("1"),
            ];
            assert(args_view(r@) == args_of(*ctx, step@));
            r
        },
        _ => {
            let r: Vec<GitArg> = Vec::new();
            assert(args_view(r@) == args_of(*ctx, step@));
            r
        },
    }
}

/// How setting up ended, as the server sees it from outside.
#[derive(Debug, PartialEq, Eq)]
pub enum SetupOutcome {
    TimedOut,
    Panicked(String),
    Failed(String),
    Done,
}

/// What the server says about the outcome: nothing where all went well, else a warning. It goes
/// on with the copy that is there.
pub open spec fn warning(outcome: SetupOutcome) -> Option<Seq<char>> {
    match outcome {
        SetupOutcome::TimedOut => Some("warning: docs repo setup timed out after 120s"@),
        SetupOutcome::Panicked(e) => Some("warning: docs repo setup task panicked: "@ + e@),
        SetupOutcome::Failed(e) => Some("warning: "@ + e@),
        SetupOutcome::Done => None,
    }
}

/// What the server says about the outcome.
pub fn setup_warning(outcome: &SetupOutcome) -> (r: Option<String>)
    ensures
        text::view_of(r) == warning(*outcome),
{
    match outcome {
        SetupOutcome::TimedOut => Some(
            "warning: docs repo setup timed out after 120s".to_owned(),
        ),
        SetupOutcome::Panicked(e) => Some(
            text::concat("warning: docs repo setup task panicked: ", e),
        ),
        SetupOutcome::Failed(e) => Some(text::concat("warning: ", e)),
        SetupOutcome::Done => None,
    }
}

// ---------------------------------------------------------------------------------------------
// Laws
// ---------------------------------------------------------------------------------------------

/// A last fetch that lies in the future is no time ago, and so is young enough for any limit.
pub proof fn law_future_fetch_is_fresh(path: Seq<char>, modified_at: i128, now: i128, secs: u64)
    requires
        modified_at >= now,
    ensures
        age(modified_at, now) == 0,
        skips_refresh(path, FetchHead::ModifiedAt(modified_at), now, secs) == Ok::<bool, Seq<char>>(
            true,
        ),
{
}

/// A copy that is fresh stays fresh under a wider limit and at any earlier time.
pub proof fn law_freshness_is_monotonic(
    path: Seq<char>,
    modified_at: i128,
    now: i128,
    earlier: i128,
    secs: u64,
    wider: u64,
)
    requires
        earlier <= now,
        secs <= wider,
        skips_refresh(path, FetchHead::ModifiedAt(modified_at), now, secs) == Ok::<bool, Seq<char>>(
            true,
        ),
    ensures
        skips_refresh(path, FetchHead::ModifiedAt(modified_at), earlier, wider) == Ok::<
            bool,
            Seq<char>,
        >(true),
{
}

/// A copy whose last fetch is exactly as old as allowed is fresh; a nanosecond later it is not.
pub proof fn law_limit_is_inclusive(path: Seq<char>, modified_at: i128, now: i128, secs: u64)
    requires
        modified_at <= now,
    ensures
        now - modified_at == secs * NANOS_PER_SEC ==> skips_refresh(
            path,
            FetchHead::ModifiedAt(modified_at),
            now,
            secs,
        ) == Ok::<bool, Seq<char>>(true),
        now - modified_at == secs * NANOS_PER_SEC + 1 ==> skips_refresh(
            path,
            FetchHead::ModifiedAt(modified_at),
            now,
            secs,
        ) == Ok::<bool, Seq<char>>(false),
{
}

/// Without a configured limit the last fetch may be six hours old.
pub proof fn law_limit_defaults_to_six_hours(value: EnvText)
    requires
        value is NotPresent,
    ensures
        refresh_max_age(value) == Ok::<u64, Seq<char>>(21600),
{
}

/// How many steps may still follow.
pub open spec fn steps_left(step: Next) -> nat {
    match step {
        Next::Inspect => 4,
        Next::CreateParent => 3,
        Next::Clone => 2,
        Next::SparseCheckout => 1,
        Next::ReadFetchHead(_) => 2,
        Next::Pull => 1,
        Next::Done => 0,
        Next::Failed(_) => 0,
    }
}

/// Setting up comes to an end: every event that a step can bring leaves fewer steps, and only the
/// two ends leave none.
pub proof fn law_setup_ends(ctx: SetupContext, step: SetupStep, event: SetupEvent)
    requires
        answers(step, event),
    ensures
        steps_left(next_step(ctx, step@, event)) < steps_left(step@),
        steps_left(step@) == 0 <==> step is Done || step is Failed,
{
}

/// Where some events lead.
pub open spec fn run(ctx: SetupContext, step: Next, events: Seq<SetupEvent>) -> Next
    decreases events.len(),
{
    if events.len() == 0 {
        step
    } else {
        run(ctx, next_step(ctx, step, events[0]), events.skip(1))
    }
}

/// The step clones.
pub open spec fn is_cloning(step: Next) -> bool {
    step is CreateParent || step is Clone || step is SparseCheckout
}

/// The step refreshes.
pub open spec fn is_refreshing(step: Next) -> bool {
    step is ReadFetchHead || step is Pull
}

/// A copy that exists is never cloned, and one that does not is never pulled, whatever happens.
pub proof fn law_existing_copies_are_not_cloned(
    ctx: SetupContext,
    exists_now: bool,
    has_parent: bool,
    events: Seq<SetupEvent>,
)
    ensures
        ({
            let seen = SetupEvent::Inspected { exists: exists_now, has_parent };
            let step = run(ctx, next_step(ctx, Next::Inspect, seen), events);
            if exists_now {
                is_refreshing(step) || step is Done || step is Failed
            } else {
                is_cloning(step) || step is Done || step is Failed
            }
        }),
{
    let seen = SetupEvent::Inspected { exists: exists_now, has_parent };
    lemma_paths_do_not_meet(ctx, next_step(ctx, Next::Inspect, seen), events);
}

proof fn lemma_paths_do_not_meet(ctx: SetupContext, step: Next, events: Seq<SetupEvent>)
    requires
        !(step is Inspect),
    ensures
        !is_cloning(step) ==> !is_cloning(run(ctx, step, events)),
        !is_refreshing(step) ==> !is_refreshing(run(ctx, step, events)),
        !(run(ctx, step, events) is Inspect),
    decreases events.len(),
{
    if events.len() > 0 {
        lemma_paths_do_not_meet(ctx, next_step(ctx, step, events[0]), events.skip(1));
    }
}

/// A copy whose last fetch is young enough is left alone: no call of git follows. An old one, and
/// one that was never fetched, is pulled.
pub proof fn law_fresh_copies_are_left_alone(
    ctx: SetupContext,
    secs: u64,
    fetch_head: FetchHead,
    now: i128,
)
    ensures
        ({
            let step = next_step(
                ctx,
                Next::ReadFetchHead(secs),
                SetupEvent::FetchHeadRead { fetch_head, now },
            );
            &&& fetch_head is NotFound ==> step is Pull
            &&& fetch_head matches FetchHead::ModifiedAt(t) ==> step == if age(t, now) <= secs
                * NANOS_PER_SEC {
                Next::Done
            } else {
                Next::Pull
            }
            &&& args_of(ctx, Next::Done) == Seq::<Arg>::empty()
        }),
{
}

/// A call of git that does not succeed ends the setup.
pub proof fn law_git_failures_end_the_setup(
    ctx: SetupContext,
    step: SetupStep,
    outcome: GitOutcome,
)
    requires
        answers(step, SetupEvent::GitRan(outcome)),
    ensures
        !(outcome is Succeeded) <==> next_step(ctx, step@, SetupEvent::GitRan(outcome)) is Failed,
{
}

/// A step calls git where, and only where, an outcome of git is what it can bring.
pub proof fn law_git_is_called_where_it_is_awaited(
    ctx: SetupContext,
    step: SetupStep,
    outcome: GitOutcome,
)
    ensures
        args_of(ctx, step@).len() > 0 <==> answers(step, SetupEvent::GitRan(outcome)),
{
}

/// The server is silent about a setup that went well, and warns of every other.
pub proof fn law_only_trouble_is_reported(outcome: SetupOutcome)
    ensures
        warning(outcome) is None <==> outcome is Done,
{
}

/// A configured limit is honoured as it stands, however long it is: a copy that exists is checked
/// against it. Without one the limit is six hours, and a limit that cannot be read is an error.
pub proof fn law_configured_limits_are_honoured(
    ctx: SetupContext,
    has_parent: bool,
    before: Seq<char>,
    number: Seq<char>,
    behind: Seq<char>,
)
    requires
        text::is_blank(before),
        text::is_blank(behind),
        text::has_bare_ends(number),
    ensures
        ({
            let seen = SetupEvent::Inspected { exists: true, has_parent };
            let step = next_step(ctx, Next::Inspect, seen);
            let key = "SURREALDB_DOCS_REPO_REFRESH_MAX_AGE_SECS"@;
            match ctx.max_age {
                EnvText::Text(t) => t@ == before + number + behind ==> match environment::number_in(
                    number,
                ) {
                    Some(n) => {
                        &&& refresh_max_age(ctx.max_age) == Ok::<u64, Seq<char>>(n)
                        &&& step == Next::ReadFetchHead(n)
                    },
                    None => {
                        let e = "invalid "@ + key + ": "@ + environment::number_error(number);
                        &&& refresh_max_age(ctx.max_age) == Err::<u64, Seq<char>>(e)
                        &&& step == Next::Failed(e)
                    },
                },
                EnvText::NotPresent => {
                    &&& refresh_max_age(ctx.max_age) == Ok::<u64, Seq<char>>(21600)
                    &&& step == Next::ReadFetchHead(21600)
                },
                EnvText::NotUnicode => {
                    &&& refresh_max_age(ctx.max_age) == Err::<u64, Seq<char>>(
                        key + " must be valid unicode"@,
                    )
                    &&& step == Next::Failed(key + " must be valid unicode"@)
                },
            }
        }),
{
    environment::law_numbers_are_taken_as_they_stand(
        "SURREALDB_DOCS_REPO_REFRESH_MAX_AGE_SECS"@,
        ctx.max_age,
        before,
        number,
        behind,
    );
}

/// The last fetch was as long ago as the time now is past it, and no time ago where it is not.
pub proof fn law_age_is_the_time_that_passed(modified_at: i128, now: i128)
    ensures
        modified_at <= now ==> modified_at + age(modified_at, now) == now,
        modified_at > now ==> age(modified_at, now) == 0,
{
}

/// A copy is left alone if and only if the last fetch and the limit together reach the time now.
/// Without a last fetch it is not, and what cannot be read of it is reported.
pub proof fn law_copies_are_fresh_within_the_limit(
    path: Seq<char>,
    fetch_head: FetchHead,
    now: i128,
    secs: u64,
)
    ensures
        match fetch_head {
            FetchHead::ModifiedAt(t) => skips_refresh(path, fetch_head, now, secs) == Ok::<
                bool,
                Seq<char>,
            >(now <= t + secs * 1_000_000_000),
            FetchHead::NotFound => skips_refresh(path, fetch_head, now, secs) == Ok::<
                bool,
                Seq<char>,
            >(false),
            FetchHead::Unreadable(e) => skips_refresh(path, fetch_head, now, secs) == Err::<
                bool,
                Seq<char>,
            >("failed to read "@ + path + " metadata: "@ + e@),
            FetchHead::NoModifiedTime(e) => skips_refresh(path, fetch_head, now, secs) == Err::<
                bool,
                Seq<char>,
            >("failed to read "@ + path + " modified time: "@ + e@),
        },
{
}

/// Whether a copy that exists is pulled depends on the configured limit and on the time of the last
/// fetch alone: it is left alone where they reach the time now, and pulled where they do not.
pub proof fn law_old_copies_are_pulled(
    ctx: SetupContext,
    has_parent: bool,
    modified_at: i128,
    now: i128,
    before: Seq<char>,
    number: Seq<char>,
    behind: Seq<char>,
    secs: u64,
)
    requires
        text::is_blank(before),
        text::is_blank(behind),
        text::has_bare_ends(number),
        match ctx.max_age {
            EnvText::Text(t) => t@ == before + number + behind && environment::number_in(number)
                == Some(secs),
            EnvText::NotPresent => secs == 21600,
            EnvText::NotUnicode => false,
        },
    ensures
        ({
            let fetch_head = FetchHead::ModifiedAt(modified_at);
            let events = seq![
                SetupEvent::Inspected { exists: true, has_parent },
                SetupEvent::FetchHeadRead { fetch_head, now },
            ];
            run(ctx, Next::Inspect, events) == if now <= modified_at + secs * 1_000_000_000 {
                Next::Done
            } else {
                Next::Pull
            }
        }),
{
    let fetch_head = FetchHead::ModifiedAt(modified_at);
    let seen = SetupEvent::Inspected { exists: true, has_parent };
    let read = SetupEvent::FetchHeadRead { fetch_head, now };
    let events = seq![seen, read];
    law_configured_limits_are_honoured(ctx, has_parent, before, number, behind);
    assert(events.skip(1) == seq![read]);
    assert(seq![read].skip(1) == Seq::<SetupEvent>::empty());
    reveal_with_fuel(run, 3);
}

/// A copy that does not exist is set up by creating its parent, if it has one, by a clone, and by
/// restricting it to the documentation, in this order and if each of them succeeds.
pub proof fn law_missing_copies_are_cloned(ctx: SetupContext, has_parent: bool)
    ensures
        ({
            let seen = SetupEvent::Inspected { exists: false, has_parent };
            next_step(ctx, Next::Inspect, seen) == if has_parent {
                Next::CreateParent
            } else {
                Next::Clone
            }
        }),
        next_step(ctx, Next::CreateParent, SetupEvent::ParentCreated(None)) == Next::Clone,
        next_step(ctx, Next::Clone, SetupEvent::GitRan(GitOutcome::Succeeded))
            == Next::SparseCheckout,
        next_step(ctx, Next::SparseCheckout, SetupEvent::GitRan(GitOutcome::Succeeded))
            == Next::Done,
        next_step(ctx, Next::Pull, SetupEvent::GitRan(GitOutcome::Succeeded)) == Next::Done,
{
}

/// What goes wrong is reported in the words of the system or of git, white space around git's words
/// aside, behind what was tried.
pub proof fn law_failures_name_what_was_tried(
    ctx: SetupContext,
    error: String,
    bytes: Vec<u8>,
    before: Seq<char>,
    words: Seq<char>,
    behind: Seq<char>,
)
    requires
        text::is_blank(before),
        text::is_blank(behind),
        text::has_bare_ends(words),
        lossy_text(bytes@) == before + words + behind,
    ensures
        next_step(ctx, Next::CreateParent, SetupEvent::ParentCreated(Some(error))) == Next::Failed(
            "failed to create "@ + ctx.parent@ + ": "@ + error@,
        ),
        next_step(ctx, Next::Clone, SetupEvent::GitRan(GitOutcome::NotRun(error))) == Next::Failed(
            "failed to run git clone: "@ + error@,
        ),
        next_step(ctx, Next::Clone, SetupEvent::GitRan(GitOutcome::Failed(bytes))) == Next::Failed(
            "git clone failed: "@ + words,
        ),
        next_step(ctx, Next::SparseCheckout, SetupEvent::GitRan(GitOutcome::NotRun(error)))
            == Next::Failed("failed to run git sparse-checkout: "@ + error@),
        next_step(ctx, Next::SparseCheckout, SetupEvent::GitRan(GitOutcome::Failed(bytes)))
            == Next::Failed("git sparse-checkout failed: "@ + words),
        next_step(ctx, Next::Pull, SetupEvent::GitRan(GitOutcome::NotRun(error))) == Next::Failed(
            "failed to run git pull in "@ + ctx.repo_root@ + ": "@ + error@,
        ),
        next_step(ctx, Next::Pull, SetupEvent::GitRan(GitOutcome::Failed(bytes))) == Next::Failed(
            "git pull failed in "@ + ctx.repo_root@ + ": "@ + words,
        ),
{
    text::law_trim_removes_what_is_around(before, words, behind);
}

/// What was read of git's own words is reported behind the words for a failure, white space around
/// it aside; the reason why git could not be run, behind the words for that; a success, not at all.
pub proof fn law_git_is_quoted(
    outcome: GitOutcome,
    not_run: Seq<char>,
    failed: Seq<char>,
    before: Seq<char>,
    words: Seq<char>,
    behind: Seq<char>,
)
    requires
        text::is_blank(before),
        text::is_blank(behind),
        text::has_bare_ends(words),
    ensures
        git_report(outcome, not_run, failed, before + words + behind) == match outcome {
            GitOutcome::NotRun(error) => Some(not_run + error@),
            GitOutcome::Failed(_) => Some(failed + words),
            GitOutcome::Succeeded => None,
        },
{
    text::law_trim_removes_what_is_around(before, words, behind);
}

/// The repository that is cloned is the configured one, or that of the documentation. The clone is
/// shallow and sparse and goes to the directory of the copy, the copy is restricted to the sources
/// of the documentation, and a pull only moves forward, within the copy.
pub proof fn law_git_is_told_what_to_do(ctx: SetupContext)
    ensures
        ({
            let url = match ctx.git_url {
                EnvText::Text(t) => t@,
                _ => "https://github.com/surrealdb/docs.surrealdb.com.git"@,
            };
            args_of(ctx, Next::Clone) == seq![
                Arg::Text("clone"@),
                Arg::Text("--depth"@),
                Arg::Text("1"@),
                Arg::Text("--filter=blob:none"@),
                Arg::Text("--sparse"@),
                Arg::Text(url),
                Arg::RepoRoot,
            ]
        }),
        args_of(ctx, Next::SparseCheckout) == seq![
            Arg::Text("-C"@),
            Arg::RepoRoot,
            Arg::Text("sparse-checkout"@),
            Arg::Text("set"@),
            Arg::Text("src/content"@),
        ],
        args_of(ctx, Next::Pull) == seq![
            Arg::Text("-C"@),
            Arg::RepoRoot,
            Arg::Text("pull"@),
            Arg::Text("--ff-only"@),
            Arg::Text("--depth"@),
            Arg::Text("1"@),
        ],
{
}

/// A warning repeats the error that it is about, whole.
pub proof fn law_warnings_repeat_the_error(outcome: SetupOutcome)
    ensures
        warning(outcome) == match outcome {
            SetupOutcome::TimedOut => Some("warning: docs repo setup timed out after 120s"@),
            SetupOutcome::Panicked(e) => Some("warning: docs repo setup task panicked: "@ + e@),
            SetupOutcome::Failed(e) => Some("warning: "@ + e@),
            SetupOutcome::Done => None,
        },
{
}

/// Arguments are viewed by their texts, in their order, and steps by what they hold.
pub proof fn law_steps_are_viewed_as_they_are(step: SetupStep, args: Seq<GitArg>)
    ensures
        args_view(args).len() == args.len(),
        forall|i: int|
            0 <= i < args.len() ==> match args[i] {
                GitArg::Text(t) => #[trigger] args_view(args)[i] == Arg::Text(t@),
                GitArg::RepoRoot => args_view(args)[i] == Arg::RepoRoot,
            },
        step matches SetupStep::ReadFetchHead(secs) ==> step@ == Next::ReadFetchHead(secs),
        step matches SetupStep::Failed(e) ==> step@ == Next::Failed(e@),
        step is Inspect <==> step@ is Inspect,
        step is CreateParent <==> step@ is CreateParent,
        step is Clone <==> step@ is Clone,
        step is SparseCheckout <==> step@ is SparseCheckout,
        step is Pull <==> step@ is Pull,
        step is Done <==> step@ is Done,
{
}

/// Setting up may take two minutes.
pub proof fn law_setup_may_take_two_minutes()
    ensures
        DOCS_REPO_SETUP_TIMEOUT_SECS == 120,
{
}

/// An event that a step does not wait for changes nothing, and an end is an end.
pub proof fn law_other_events_change_nothing(ctx: SetupContext, step: Next, event: SetupEvent)
    requires
        match step {
            Next::Inspect => !(event is Inspected),
            Next::CreateParent => !(event is ParentCreated),
            Next::ReadFetchHead(_) => !(event is FetchHeadRead),
            Next::Clone => !(event is GitRan),
            Next::SparseCheckout => !(event is GitRan),
            Next::Pull => !(event is GitRan),
            Next::Done => true,
            Next::Failed(_) => true,
        },
    ensures
        next_step(ctx, step, event) == step,
{
}

/// What cannot be read of the last fetch ends the setup with an error, and a copy that was never
/// fetched is pulled, whatever the limit is.
pub proof fn law_unknown_fetches_are_not_fresh(
    ctx: SetupContext,
    secs: u64,
    now: i128,
    error: String,
)
    ensures
        next_step(
            ctx,
            Next::ReadFetchHead(secs),
            SetupEvent::FetchHeadRead { fetch_head: FetchHead::NotFound, now },
        ) == Next::Pull,
        next_step(
            ctx,
            Next::ReadFetchHead(secs),
            SetupEvent::FetchHeadRead { fetch_head: FetchHead::Unreadable(error), now },
        ) == Next::Failed(
            "failed to read "@ + ctx.fetch_head_path@ + " metadata: "@ + error@,
        ),
        next_step(
            ctx,
            Next::ReadFetchHead(secs),
            SetupEvent::FetchHeadRead { fetch_head: FetchHead::NoModifiedTime(error), now },
        ) == Next::Failed(
            "failed to read "@ + ctx.fetch_head_path@ + " modified time: "@ + error@,
        ),
{
}

} // verus!
