//! What the commands of a sync do and do not touch, and where its places lie.
use vstd::prelude::*;

use super::request;
use super::request::{ArgView, CommandView, Place, Root};
use super::SyncReposResult;
use crate::text;
use crate::text_laws;

verus! {

/// Every application of a sync is staged, in its order, under `apps/`: the path of the `i`th is
/// the `i`th that is staged.
pub proof fn every_app_is_staged(
    apps: Seq<Seq<char>>,
    infra_synced: bool,
    config_synced: bool,
    i: int,
)
    requires
        0 <= i < apps.len(),
    ensures
        request::staged_paths(apps, infra_synced, config_synced).len() > i,
        request::staged_paths(apps, infra_synced, config_synced)[i] == "apps/"@ + apps[i],
        request::stage(
            request::staged_paths(apps, infra_synced, config_synced),
        ).args.contains(ArgView::Text("apps/"@ + apps[i])),
{
    let paths = request::staged_paths(apps, infra_synced, config_synced);
    let args = request::stage(paths).args;
    assert(args[i + 1] == ArgView::Text(paths[i]));
}

/// What is staged besides the applications: the infrastructure and the configuration exactly if
/// they were synced, then the manifest and the lock file; and nothing else.
pub proof fn the_rest_that_is_staged(
    apps: Seq<Seq<char>>,
    infra_synced: bool,
    config_synced: bool,
)
    ensures
        ({
            let rest = request::staged_paths(apps, infra_synced, config_synced).skip(
                apps.len() as int,
            );
            &&& infra_synced && config_synced ==> rest == seq![
                "infra/"@,
                ".cargo/config.toml"@,
                "Cargo.toml"@,
                "Cargo.lock"@,
            ]
            &&& infra_synced && !config_synced ==> rest == seq![
                "infra/"@,
                "Cargo.toml"@,
                "Cargo.lock"@,
            ]
            &&& !infra_synced && config_synced ==> rest == seq![
                ".cargo/config.toml"@,
                "Cargo.toml"@,
                "Cargo.lock"@,
            ]
            &&& !infra_synced && !config_synced ==> rest == seq!["Cargo.toml"@, "Cargo.lock"@]
        }),
{
    let rest = request::staged_paths(apps, infra_synced, config_synced).skip(apps.len() as int);
    if infra_synced && config_synced {
        assert(rest =~= seq!["infra/"@, ".cargo/config.toml"@, "Cargo.toml"@, "Cargo.lock"@]);
    } else if infra_synced {
        assert(rest =~= seq!["infra/"@, "Cargo.toml"@, "Cargo.lock"@]);
    } else if config_synced {
        assert(rest =~= seq![".cargo/config.toml"@, "Cargo.toml"@, "Cargo.lock"@]);
    } else {
        assert(rest =~= seq!["Cargo.toml"@, "Cargo.lock"@]);
    }
}

/// Paths are staged one by one and in order, as they are, in the target.
pub proof fn paths_are_staged_one_by_one(paths: Seq<Seq<char>>, i: int)
    ensures
        request::stage(paths).program == "git"@,
        request::stage(paths).dir == Place::Target,
        request::stage(paths).args.len() == paths.len() + 1,
        request::stage(paths).args[0] == ArgView::Text("add"@),
        0 <= i < paths.len() ==> request::stage(paths).args[i + 1] == ArgView::Text(paths[i]),
{
}

/// An application is copied from its own directory to its own, contents to contents, with what
/// left the source removed and with build outputs left out, and with a dry run passed on.
pub proof fn app_is_copied_to_its_own_directory(app: String, dry_run: bool)
    ensures
        ({
            let command = request::app_copy(app, dry_run);
            let n = command.args.len();
            &&& command.program == "rsync"@
            &&& command.dir == Place::Source
            &&& n == if dry_run {
                8nat
            } else {
                7nat
            }
            &&& command.args[0] == ArgView::Text("-a"@)
            &&& command.args[1] == ArgView::Text("--delete"@)
            &&& command.args[2] == ArgView::Text("--exclude=dist"@)
            &&& command.args[3] == ArgView::Text("--exclude=target"@)
            &&& command.args[4] == ArgView::Text("--exclude=node_modules"@)
            &&& dry_run ==> command.args[5] == ArgView::Text("--dry-run"@)
            &&& command.args[n - 2] == ArgView::Dir(Place::SourceApp(app))
            &&& command.args[n - 1] == ArgView::Dir(Place::TargetApp(app))
            &&& command.purpose == "rsync for app '"@ + app@ + "'"@
        }),
{
}

/// The infrastructure and the configuration are copied from the source to the target, with a dry
/// run passed on; the state and the variables of the infrastructure are left out.
pub proof fn shared_parts_are_copied_in_place(dry_run: bool)
    ensures
        ({
            let infra = request::infra_copy(dry_run);
            let n = infra.args.len();
            &&& infra.program == "rsync"@
            &&& infra.dir == Place::Source
            &&& n == if dry_run {
                8nat
            } else {
                7nat
            }
            &&& infra.args[0] == ArgView::Text("-a"@)
            &&& infra.args[1] == ArgView::Text("--delete"@)
            &&& infra.args[2] == ArgView::Text("--exclude=.terraform"@)
            &&& infra.args[3] == ArgView::Text("--exclude=*.tfstate*"@)
            &&& infra.args[4] == ArgView::Text("--exclude=terraform.tfvars"@)
            &&& dry_run ==> infra.args[5] == ArgView::Text("--dry-run"@)
            &&& infra.args[n - 2] == ArgView::Dir(Place::SourceInfra)
            &&& infra.args[n - 1] == ArgView::Dir(Place::TargetInfra)
        }),
        ({
            let config = request::config_copy(dry_run);
            let n = config.args.len();
            &&& config.program == "rsync"@
            &&& config.dir == Place::Source
            &&& n == if dry_run {
                4nat
            } else {
                3nat
            }
            &&& config.args[0] == ArgView::Text("-a"@)
            &&& dry_run ==> config.args[1] == ArgView::Text("--dry-run"@)
            &&& config.args[n - 2] == ArgView::File(Place::SourceConfig)
            &&& config.args[n - 1] == ArgView::File(Place::TargetConfig)
        }),
{
}

/// The words of a command, in the target.
pub open spec fn says(command: CommandView, program: Seq<char>, words: Seq<Seq<char>>) -> bool {
    &&& command.program == program
    &&& command.dir == Place::Target
    &&& command.args.len() == words.len()
    &&& forall|i: int|
        0 <= i < words.len() ==> #[trigger] command.args[i] == ArgView::Text(words[i])
}

/// The branch that is started is the branch that is pushed; the pull request is for the base that
/// is given.
pub proof fn branch_and_base_are_passed_on(branch: Seq<char>, base: Seq<char>)
    ensures
        says(request::checkout(branch), "git"@, seq!["checkout"@, "-b"@, branch]),
        says(
            request::commit(),
            "git"@,
            seq!["commit"@, "-m"@, "chore: sync fdk_apps"@],
        ),
        says(request::push(branch), "git"@, seq!["push"@, "-u"@, "origin"@, branch]),
        says(
            request::open_pr(base),
            "gh"@,
            seq![
                "pr"@,
                "create"@,
                "--base"@,
                base,
                "--title"@,
                "chore: sync fdk_apps"@,
                "--body"@,
                "Automated sync from fdk_apps workspace"@,
            ],
        ),
        says(request::relock(), "cargo"@, seq!["generate-lockfile"@]),
{
}

/// Where each place lies.
pub proof fn places_lie_where_they_should(place: Place, walked: Seq<Seq<char>>)
    ensures
        match place {
            Place::Source => request::root_of(place) == Root::Source && request::path_of(
                place,
                walked,
            ).len() == 0,
            Place::SourceApp(app) => request::root_of(place) == Root::Source && request::path_of(
                place,
                walked,
            ) == seq![app@],
            Place::SourceInfra => request::root_of(place) == Root::Source && request::path_of(
                place,
                walked,
            ) == seq!["infra"@],
            Place::SourceConfig => request::root_of(place) == Root::Source && request::path_of(
                place,
                walked,
            ) == seq![".cargo"@, "config.toml"@],
            Place::SourceManifest => request::root_of(place) == Root::Source && request::path_of(
                place,
                walked,
            ) == seq!["Cargo.toml"@],
            Place::Target => request::root_of(place) == Root::Target && request::path_of(
                place,
                walked,
            ).len() == 0,
            Place::TargetApp(app) => request::root_of(place) == Root::Target && request::path_of(
                place,
                walked,
            ) == seq!["apps"@, app@],
            Place::TargetAppManifest(app) => request::root_of(place) == Root::Target
                && request::path_of(place, walked) == seq!["apps"@, app@, "Cargo.toml"@],
            Place::TargetAppFile(app, _) => request::root_of(place) == Root::Target
                && request::path_of(place, walked) == seq!["apps"@, app@] + walked,
            Place::TargetInfra => request::root_of(place) == Root::Target && request::path_of(
                place,
                walked,
            ) == seq!["infra"@],
            Place::TargetConfigDir => request::root_of(place) == Root::Target && request::path_of(
                place,
                walked,
            ) == seq![".cargo"@],
            Place::TargetConfig => request::root_of(place) == Root::Target && request::path_of(
                place,
                walked,
            ) == seq![".cargo"@, "config.toml"@],
            Place::TargetManifest => request::root_of(place) == Root::Target && request::path_of(
                place,
                walked,
            ) == seq!["Cargo.toml"@],
            Place::TargetLock => request::root_of(place) == Root::Target && request::path_of(
                place,
                walked,
            ) == seq!["Cargo.lock"@],
        },
{
}

/// The report has a line for each application and for each transformed file, in order, and ends
/// with the pull request, if there is one.
pub proof fn report_has_a_line_per_app_and_file(
    result: SyncReposResult,
    apps: (Seq<Seq<char>>, Seq<char>, Seq<Seq<char>>),
    files: (Seq<Seq<char>>, Seq<char>, Seq<Seq<char>>),
)
    requires
        text::views(result.synced_apps@) == apps.0 + seq![apps.1] + apps.2,
        text::views(result.transformed_files@) == files.0 + seq![files.1] + files.2,
    ensures
        result.report() == "Synced "@ + text::decimal(result.synced_apps@.len()) + " app(s):\n"@
            + (text::wrapped(apps.0, "  - "@, "\n"@) + "  - "@ + apps.1 + "\n"@ + text::wrapped(
            apps.2,
            "  - "@,
            "\n"@,
        )) + ("\nTransformed files:\n"@ + (text::wrapped(files.0, "  - "@, "\n"@) + "  - "@
            + files.1 + "\n"@ + text::wrapped(files.2, "  - "@, "\n"@))) + (
        match result.pr_url {
            Some(url) => "\nPR: "@ + url@ + "\n"@,
            None => Seq::empty(),
        }),
{
    text_laws::wrapped_item_by_item(apps.0, apps.1, apps.2, "  - "@, "\n"@);
    text_laws::wrapped_item_by_item(files.0, files.1, files.2, "  - "@, "\n"@);
    assert(text::views(result.transformed_files@).len() == result.transformed_files@.len());
}

/// The summary counts the applications, and names the pull request if there is one.
pub proof fn summary_counts_the_apps(result: SyncReposResult)
    ensures
        result.pr_url is None ==> result.summary() == "Synced "@ + text::decimal(
            result.synced_apps@.len(),
        ) + " app(s)"@,
        result.pr_url matches Some(url) ==> result.summary() == "Synced "@ + text::decimal(
            result.synced_apps@.len(),
        ) + " app(s)"@ + (" — PR: "@ + url@),
{
    assert("Synced "@ + text::decimal(result.synced_apps@.len()) + " app(s)"@
        + Seq::<char>::empty() =~= "Synced "@ + text::decimal(result.synced_apps@.len())
        + " app(s)"@);
}

/// Where there is no application, or no transformed file, the report has no line of that kind; and
/// without a pull request it does not speak of one.
pub proof fn report_without_apps_or_files(result: SyncReposResult)
    ensures
        ({
            let head = "Synced "@ + text::decimal(result.synced_apps@.len()) + " app(s):\n"@;
            let apps = text::wrapped(text::views(result.synced_apps@), "  - "@, "\n"@);
            let files = "\nTransformed files:\n"@ + text::wrapped(
                text::views(result.transformed_files@),
                "  - "@,
                "\n"@,
            );
            let end = match result.pr_url {
                Some(url) => "\nPR: "@ + url@ + "\n"@,
                None => Seq::empty(),
            };
            &&& result.synced_apps@.len() == 0 && result.transformed_files@.len() == 0
                ==> result.report() == head + end
            &&& result.synced_apps@.len() == 0 && result.transformed_files@.len() > 0
                ==> result.report() == head + files + end
            &&& result.synced_apps@.len() > 0 && result.transformed_files@.len() == 0
                ==> result.report() == head + apps + end
        }),
{
    let head = "Synced "@ + text::decimal(result.synced_apps@.len()) + " app(s):\n"@;
    let apps = text::wrapped(text::views(result.synced_apps@), "  - "@, "\n"@);
    if result.synced_apps@.len() == 0 {
        assert(head + apps =~= head);
    }
    assert(head + apps + Seq::<char>::empty() =~= head + apps);
}

} // verus!
