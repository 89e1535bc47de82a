//! Which commits a command compares.
use vstd::prelude::*;

verus! {

/// How the commits to compare are chosen.
#[derive(Debug, PartialEq, Eq)]
pub enum DiffStrategy {
    /// Explicit SHAs.
    Explicit { base: String, head: String },
    /// Compare the worktree against a base branch.
    WorktreeVsBranch { branch: String },
    /// Compare local changes: `HEAD~` against `HEAD`, or `HEAD` against itself if it has no
    /// parent.
    LocalChanges,
    /// No comparing, run all.
    All,
}

impl Default for DiffStrategy {
    fn default() -> (r: Self)
        ensures
            r == DiffStrategy::LocalChanges,
    {
        DiffStrategy::LocalChanges
    }
}

impl Clone for DiffStrategy {
    fn clone(&self) -> (r: Self)
        ensures
            r == *self,
    {
        match self {
            DiffStrategy::Explicit { base, head } => DiffStrategy::Explicit {
                base: base.clone(),
                head: head.clone(),
            },
            DiffStrategy::WorktreeVsBranch { branch } => DiffStrategy::WorktreeVsBranch {
                branch: branch.clone(),
            },
            DiffStrategy::LocalChanges => DiffStrategy::LocalChanges,
            DiffStrategy::All => DiffStrategy::All,
        }
    }
}

/// The revision that is compared.
pub open spec fn head_revision(strategy: DiffStrategy) -> Seq<char> {
    match strategy {
        DiffStrategy::Explicit { base, head } => head@,
        _ => "HEAD"@,
    }
}

/// The revision that it is compared against.
pub open spec fn base_revision(strategy: DiffStrategy) -> Seq<char> {
    match strategy {
        DiffStrategy::Explicit { base, head } => base@,
        DiffStrategy::WorktreeVsBranch { branch } => branch@,
        _ => "HEAD~"@,
    }
}

/// The head stands in for a base that cannot be found.
pub open spec fn base_is_optional(strategy: DiffStrategy) -> bool {
    strategy is LocalChanges || strategy is All
}

/// The base and the head, given what the head revision and the base revision were resolved to.
pub open spec fn chosen_commits<E>(
    strategy: DiffStrategy,
    head: Result<String, E>,
    base: Result<String, E>,
) -> Result<(String, String), E> {
    match (head, base) {
        (Err(error), _) => Err(error),
        (Ok(h), Ok(b)) => Ok((b, h)),
        (Ok(h), Err(error)) => if base_is_optional(strategy) {
            Ok((h, h))
        } else {
            Err(error)
        },
    }
}

/// How a strategy is written.
pub open spec fn strategy_text(strategy: DiffStrategy) -> Seq<char> {
    match strategy {
        DiffStrategy::All => "all"@,
        DiffStrategy::LocalChanges => "local-changes"@,
        DiffStrategy::WorktreeVsBranch { branch } => "branch:"@ + branch@,
        DiffStrategy::Explicit { base, head } => base@ + ".."@ + head@,
    }
}

impl DiffStrategy {
    /// The revision to compare.
    pub fn head_revision(&self) -> (r: String)
        ensures
            r@ == head_revision(*self),
    {
        match self {
            DiffStrategy::Explicit { head, .. } => head.clone(),
            _ => "HEAD".to_owned(),
        }
    }

    /// The revision to compare it against.
    pub fn base_revision(&self) -> (r: String)
        ensures
            r@ == base_revision(*self),
    {
        match self {
            DiffStrategy::Explicit { base, .. } => base.clone(),
            DiffStrategy::WorktreeVsBranch { branch } => branch.clone(),
            _ => "HEAD~".to_owned(),
        }
    }

    /// The ids of the base and of the head, given what the head revision and the base revision
    /// were resolved to.
    pub fn git_commits<E>(&self, head: Result<String, E>, base: Result<String, E>) -> (r: Result<
        (String, String),
        E,
    >)
        ensures
            r == chosen_commits(*self, head, base),
    {
        let head_id = match head {
            Ok(id) => id,
            Err(error) => {
                return Err(error);
            },
        };
        match self {
            DiffStrategy::LocalChanges | DiffStrategy::All => {
                let base_id = match base {
                    Ok(id) => id,
                    Err(_) => head_id.clone(),
                };
                Ok((base_id, head_id))
            },
            _ => match base {
                Ok(base_id) => Ok((base_id, head_id)),
                Err(error) => Err(error),
            },
        }
    }

    /// The strategy as it is written.
    pub fn to_string(&self) -> (r: String)
        ensures
            r@ == strategy_text(*self),
    {
        match self {
            DiffStrategy::All => "all".to_owned(),
            DiffStrategy::LocalChanges => "local-changes".to_owned(),
            DiffStrategy::WorktreeVsBranch { branch } => "branch:".to_owned().concat(
                branch.as_str(),
            ),
            DiffStrategy::Explicit { base, head } => base.clone().concat("..").concat(
                head.as_str(),
            ),
        }
    }
}

/// What a command is told of the commits to compare. A Prow job sets the two SHAs in its
/// environment.
#[derive(Debug)]
pub struct DiffOptions {
    pub head_sha: Option<String>,
    pub base_sha: Option<String>,
    pub compare_branch: Option<String>,
    pub strategy: Option<DiffStrategy>,
}

impl Default for DiffOptions {
    fn default() -> (r: Self)
        ensures
            r.head_sha is None,
            r.base_sha is None,
            r.compare_branch is None,
            r.strategy is None,
    {
        DiffOptions { head_sha: None, base_sha: None, compare_branch: None, strategy: None }
    }
}

impl Clone for DiffOptions {
    fn clone(&self) -> (r: Self)
        ensures
            r == *self,
    {
        DiffOptions {
            head_sha: self.head_sha.clone(),
            base_sha: self.base_sha.clone(),
            compare_branch: self.compare_branch.clone(),
            strategy: match &self.strategy {
                Some(strategy) => Some(strategy.clone()),
                None => None,
            },
        }
    }
}

/// The strategy that the options ask for: the one that is named; else both SHAs; else, without
/// any SHA, the branch; else the local changes.
pub open spec fn chosen_strategy(options: DiffOptions) -> DiffStrategy {
    match options.strategy {
        Some(strategy) => strategy,
        None => match (options.base_sha, options.head_sha, options.compare_branch) {
            (Some(base), Some(head), _) => DiffStrategy::Explicit { base, head },
            (None, None, Some(branch)) => DiffStrategy::WorktreeVsBranch { branch },
            _ => DiffStrategy::LocalChanges,
        },
    }
}

impl DiffOptions {
    /// The strategy that the options ask for.
    pub fn strategy(&self) -> (r: DiffStrategy)
        ensures
            r == chosen_strategy(*self),
    {
        if let Some(strategy) = &self.strategy {
            return strategy.clone();
        }
        match (&self.base_sha, &self.head_sha, &self.compare_branch) {
            (Some(base), Some(head), _) => DiffStrategy::Explicit {
                base: base.clone(),
                head: head.clone(),
            },
            (None, None, Some(branch)) => DiffStrategy::WorktreeVsBranch {
                branch: branch.clone(),
            },
            _ => DiffStrategy::LocalChanges,
        }
    }
}

/// One SHA alone is ignored: the strategy is then as if neither SHA nor branch were given.
pub proof fn lone_sha_is_ignored(options: DiffOptions)
    requires
        options.strategy is None,
        (options.base_sha is Some) != (options.head_sha is Some),
    ensures
        chosen_strategy(options) == DiffStrategy::LocalChanges,
{
}

/// Where the head is found, local changes and a full run are always compared, with the head
/// itself if it has no parent.
pub proof fn found_head_suffices<E>(
    strategy: DiffStrategy,
    head: String,
    base: Result<String, E>,
)
    requires
        base_is_optional(strategy),
    ensures
        match chosen_commits(strategy, Ok(head), base) {
            Ok((b, h)) => h == head && b == match base {
                Ok(found) => found,
                Err(_) => head,
            },
            Err(_) => false,
        },
{
}

/// With explicit SHAs, what is compared is what was given: the head SHA is the head, the base SHA
/// the base, whatever is checked out.
pub proof fn explicit_shas_are_compared(base: String, head: String)
    ensures
        head_revision(DiffStrategy::Explicit { base, head }) == head@,
        base_revision(DiffStrategy::Explicit { base, head }) == base@,
{
}

/// Without explicit SHAs the head is what is checked out; the base is the branch where one is
/// named, and the parent of what is checked out otherwise.
pub proof fn checked_out_is_compared(strategy: DiffStrategy)
    requires
        !(strategy is Explicit),
    ensures
        head_revision(strategy) == "HEAD"@,
        strategy matches DiffStrategy::WorktreeVsBranch { branch } ==> base_revision(strategy)
            == branch@,
        !(strategy is WorktreeVsBranch) ==> base_revision(strategy) == "HEAD~"@,
{
}

/// Where both revisions were found, they are the commits, base first, whatever the strategy.
pub proof fn found_commits_are_compared<E>(strategy: DiffStrategy, head: String, base: String)
    ensures
        chosen_commits(strategy, Ok::<String, E>(head), Ok::<String, E>(base)) == Ok::<
            (String, String),
            E,
        >((base, head)),
{
}

/// A head that was not found ends it, with its own error, whatever became of the base.
pub proof fn missing_head_is_an_error<E>(
    strategy: DiffStrategy,
    error: E,
    base: Result<String, E>,
)
    ensures
        chosen_commits(strategy, Err::<String, E>(error), base) == Err::<(String, String), E>(
            error,
        ),
{
}

/// A base that was named and not found ends it, with its own error; one that was not named is
/// made up for by the head.
pub proof fn missing_base_is_an_error_if_it_was_named<E>(
    strategy: DiffStrategy,
    head: String,
    error: E,
)
    ensures
        chosen_commits(strategy, Ok::<String, E>(head), Err::<String, E>(error)) == if strategy
            is Explicit || strategy is WorktreeVsBranch {
            Err::<(String, String), E>(error)
        } else {
            Ok::<(String, String), E>((head, head))
        },
{
}

/// A strategy that is named is used, whatever else is given.
pub proof fn named_strategy_is_used(options: DiffOptions, strategy: DiffStrategy)
    requires
        options.strategy == Some(strategy),
    ensures
        chosen_strategy(options) == strategy,
{
}

/// Two SHAs are used, whatever branch is given, unless a strategy is named.
pub proof fn two_shas_are_used(options: DiffOptions, base: String, head: String)
    requires
        options.strategy is None,
        options.base_sha == Some(base),
        options.head_sha == Some(head),
    ensures
        chosen_strategy(options) == (DiffStrategy::Explicit { base, head }),
        head_revision(chosen_strategy(options)) == head@,
        base_revision(chosen_strategy(options)) == base@,
{
}

/// Without SHAs a branch is used, and without a branch the local changes, unless a strategy is
/// named.
pub proof fn branch_is_used_without_shas(options: DiffOptions)
    requires
        options.strategy is None,
        options.base_sha is None,
        options.head_sha is None,
    ensures
        match options.compare_branch {
            Some(branch) => chosen_strategy(options) == (DiffStrategy::WorktreeVsBranch {
                branch,
            }) && base_revision(chosen_strategy(options)) == branch@,
            None => chosen_strategy(options) == DiffStrategy::LocalChanges,
        },
{
}

/// A written strategy shows all that it compares: the base, two dots and the head, or the branch.
pub proof fn written_strategy_shows_its_revisions(strategy: DiffStrategy)
    ensures
        match strategy {
            DiffStrategy::Explicit { base, head } => strategy_text(strategy).take(
                base@.len() as int,
            ) == base@ && strategy_text(strategy).skip((base@.len() + 2) as int) == head@ && strategy_text(
                strategy,
            ).len() == base@.len() + 2 + head@.len() && strategy_text(strategy)[base@.len() as int]
                == '.' && strategy_text(strategy)[(base@.len() + 1) as int] == '.',
            DiffStrategy::WorktreeVsBranch { branch } => strategy_text(strategy) == "branch:"@
                + branch@,
            DiffStrategy::LocalChanges => strategy_text(strategy) == "local-changes"@,
            DiffStrategy::All => strategy_text(strategy) == "all"@,
        },
{
    reveal_strlit("..");
    assert(".."@.len() == 2 && ".."@[0] == '.' && ".."@[1] == '.');
    if let DiffStrategy::Explicit { base, head } = strategy {
        assert(strategy_text(strategy).take(base@.len() as int) =~= base@);
        assert(strategy_text(strategy).skip((base@.len() + 2) as int) =~= head@);
    }
}

/// Without a strategy, a SHA and a branch, the local changes are compared; so a strategy that is
/// not asked for is never chosen.
pub proof fn nothing_given_means_local_changes(options: DiffOptions)
    requires
        options.strategy is None,
        options.base_sha is None || options.head_sha is None,
        options.base_sha is Some || options.head_sha is Some || options.compare_branch is None,
    ensures
        chosen_strategy(options) == DiffStrategy::LocalChanges,
{
}

} // verus!
