//! What the steps that make repositories and workspaces do for each crate, file and version.
use vstd::prelude::*;

use crate::utils::test::StepView;
use crate::text;

verus! {

/// The step runs a program with these arguments in that directory.
pub open spec fn runs(
    step: StepView,
    program: Seq<char>,
    args: Seq<Seq<char>>,
    dir: Seq<Seq<char>>,
) -> bool {
    match step {
        StepView::Run(command) => command.program == program && command.args == args
            && command.dir == dir,
        _ => false,
    }
}

/// The step runs `git` in the base, as the test user, and has to succeed.
pub open spec fn runs_git(step: StepView, args: Seq<Seq<char>>) -> bool {
    &&& runs(step, "git"@, args, Seq::empty())
    &&& step->Run_0.failed is Some
    &&& step->Run_0.env == seq![
        ("GIT_AUTHOR_NAME"@, "Test User"@),
        ("GIT_AUTHOR_EMAIL"@, "test@example.com"@),
        ("GIT_COMMITTER_NAME"@, "Test User"@),
        ("GIT_COMMITTER_EMAIL"@, "test@example.com"@),
    ]
}

/// Staging and committing pass on the path and the message that are given, and a commit may be
/// empty.
pub proof fn git_is_given_the_path_and_the_message(path: Seq<char>, message: Seq<char>)
    ensures
        runs_git(crate::utils::test::file_staging(path), seq!["add"@, path]),
        runs_git(crate::utils::test::full_staging(), seq!["add"@, "-A"@]),
        runs_git(
            crate::utils::test::commit_step(message),
            seq!["commit"@, "-m"@, message, "--allow-empty"@],
        ),
        crate::utils::test::repo_steps().len() == 2,
        runs_git(crate::utils::test::repo_steps()[0], seq!["init"@]),
        runs_git(crate::utils::test::repo_steps()[1], seq!["config"@, "commit.gpgsign"@, "false"@]),
{
}

/// A file gets the content that is given, once the directory that it stands in is there.
pub proof fn file_gets_its_content(path: Seq<char>, content: Seq<char>)
    ensures
        crate::utils::test::file_steps(path, content).len() == 2,
        crate::utils::test::file_steps(path, content)[0] == StepView::MakeParent(seq![path]),
        crate::utils::test::file_steps(path, content)[1] == StepView::Write(seq![path], content),
{
}

/// A crate is made as a library of its own name, for the registry, in its own directory, and its
/// outcome does not matter.
pub proof fn crate_is_made_in_its_directory(name: Seq<char>, dir: Seq<Seq<char>>)
    ensures
        runs(
            crate::utils::test::crate_step(name, dir),
            "cargo"@,
            seq!["init"@, "--lib"@, "--name"@, name, "--registry"@, "fake-registry"@],
            dir,
        ),
        crate::utils::test::crate_step(name, dir)->Run_0.failed is None,
{
}

/// Every crate of a workspace gets a directory under `crates/`, and is made in it under the name
/// of the workspace and its own; in order, and nothing else is done.
pub proof fn every_crate_is_made(workspace: Seq<char>, crates: Seq<Seq<char>>, i: int)
    requires
        0 <= i < crates.len(),
    ensures
        ({
            let steps = crate::utils::test::sub_crate_steps(workspace, crates);
            let dir = seq![workspace, "crates"@, crates[i]];
            &&& steps.len() == 2 * crates.len()
            &&& steps[2 * i] == StepView::MakeDirs(dir)
            &&& runs(
                steps[2 * i + 1],
                "cargo"@,
                seq![
                    "init"@,
                    "--lib"@,
                    "--name"@,
                    workspace + "__"@ + crates[i],
                    "--registry"@,
                    "fake-registry"@,
                ],
                dir,
            )
        }),
    decreases crates.len(),
{
    let rest = crates.drop_last();
    if rest.len() == 0 {
        assert(crate::utils::test::sub_crate_steps(workspace, rest).len() == 0);
    } else if i < rest.len() {
        every_crate_is_made(workspace, rest, i);
    } else {
        every_crate_is_made(workspace, rest, 0);
    }
}

/// A workspace is its root crate and the configuration, then what is added to its manifest: that
/// it is published, exactly if it is; its other registries, exactly if it has any; its members,
/// exactly if it has any, followed by them.
pub proof fn workspace_is_made_step_by_step(
    workspace: Seq<char>,
    crates: Seq<Seq<char>>,
    registries: Seq<Seq<char>>,
    publish: bool,
)
    ensures
        ({
            let steps = crate::utils::test::workspace_steps(workspace, crates, registries, publish);
            let manifest = seq![workspace, "Cargo.toml"@];
            let published: int = if publish {
                5
            } else {
                4
            };
            let named = if registries.len() > 0 {
                published + 1
            } else {
                published
            };
            &&& steps[0] == StepView::MakeDirs(seq![workspace])
            &&& runs(
                steps[1],
                "cargo"@,
                seq!["init"@, "--lib"@, "--name"@, workspace, "--registry"@, "fake-registry"@],
                seq![workspace],
            )
            &&& steps[2] == StepView::MakeDirs(seq![".cargo"@])
            &&& steps[3] == StepView::Write(
                seq![".cargo"@, "config.toml"@],
                "[registries."@ + "fake-registry"@
                    + "]\nindex = \"ssh://git@ssh.shipyard.rs/"@ + "fake-registry"@
                    + "/crate-index.git\"\n"@,
            )
            &&& publish ==> steps[4] == StepView::Append(
                manifest,
                "\n[package.metadata.fslabs.publish.cargo]\npublish = true\n\n"@,
            )
            &&& registries.len() > 0 ==> steps[published] == StepView::Append(
                manifest,
                "alternate_registries=[\""@ + text::joined(registries, "\", \""@) + "\"]\n"@,
            )
            &&& crates.len() > 0 ==> steps[named] == StepView::Append(
                manifest,
                "\n[workspace]\nmembers = [\"crates/*\"]\nresolver = \"2\"\n"@,
            )
            &&& crates.len() > 0 ==> steps.skip(named + 1) == crate::utils::test::sub_crate_steps(
                workspace,
                crates,
            )
            &&& crates.len() == 0 ==> steps.len() == named
        }),
{
    let steps = crate::utils::test::workspace_steps(workspace, crates, registries, publish);
    let published: int = if publish {
        5
    } else {
        4
    };
    let named = if registries.len() > 0 {
        published + 1
    } else {
        published
    };
    if crates.len() > 0 {
        assert(steps.skip(named + 1) =~= crate::utils::test::sub_crate_steps(workspace, crates));
    }
}

/// A dependency is added by the path and the name that are given, in the directory of the crate
/// that gets it.
pub proof fn dependency_is_added_by_path(
    path: Seq<char>,
    name: Seq<char>,
    dir: Seq<Seq<char>>,
    not_started: Seq<char>,
)
    ensures
        runs(
            crate::utils::test::dependency_step(path, name, dir, not_started),
            "cargo"@,
            seq![
                "add"@,
                "--offline"@,
                "--registry"@,
                "fake-registry"@,
                "--path"@,
                path,
                name,
            ],
            dir,
        ),
        crate::utils::test::dependency_step(path, name, dir, not_started)->Run_0.not_started == not_started,
        crate::utils::test::dependency_step(path, name, dir, not_started)->Run_0.failed is None,
{
}

/// Every version of the index has the checksum that is given, and only the last is yanked; the
/// index is committed once it is written.
pub proof fn every_version_has_the_checksum(checksum: Seq<char>)
    ensures
        ({
            let steps = crate::utils::test::index_steps(checksum);
            let line = |version: Seq<char>, yanked: Seq<char>|
                "{\"name\":\"crate-test\",\"vers\":\""@ + version
                    + "\",\"deps\":[],\"features\":{},\"cksum\":\""@ + checksum
                    + "\",\"yanked\":"@ + yanked + ",\"links\":null}\n"@;
            &&& steps.len() == 7
            &&& steps.take(2) == crate::utils::test::repo_steps()
            &&& steps[2] == StepView::Write(
                seq!["config.json"@],
                "{\"dl\":\"https://example.com\"}"@,
            )
            &&& steps[3] == StepView::MakeDirs(seq!["cr/at"@])
            &&& steps[4] == StepView::Write(
                seq!["cr/at"@, "crate-test"@],
                line("0.1.0"@, "false"@) + line("0.2.0"@, "false"@) + line("0.2.2"@, "false"@)
                    + line("0.2.3"@, "true"@),
            )
            &&& runs_git(steps[5], seq!["add"@, "-A"@])
            &&& runs_git(
                steps[6],
                seq!["commit"@, "-m"@, "Initial commit"@, "--allow-empty"@],
            )
        }),
{
    assert(crate::utils::test::index_steps(checksum).take(2) =~= crate::utils::test::repo_steps());
}

/// The other registry of the lone crate is one more step, which adds it to the manifest of that
/// crate; everything else is done as without it.
pub proof fn other_registry_is_one_more_step()
    ensures
        ({
            let with = crate::utils::test::complex_steps(true);
            let without = crate::utils::test::complex_steps(false);
            exists|i: int|
                0 <= i < with.len() && #[trigger] with[i] == StepView::Append(
                    seq!["crates_g"@, "Cargo.toml"@],
                    "alternate_registries=[\""@ + "some_other_registries"@ + "\"]\n"@,
                ) && with.take(i) + with.skip(i + 1) == without
        }),
{
    let with = crate::utils::test::complex_steps(true);
    let without = crate::utils::test::complex_steps(false);
    let alternates = seq!["some_other_registries"@];
    let head = crate::utils::test::repo_steps() + crate::utils::test::workspace_steps(
        "workspace_a"@,
        seq!["crates_a"@, "crates_b"@, "crates_c"@],
        Seq::empty(),
        false,
    ) + crate::utils::test::workspace_steps(
        "workspace_d"@,
        seq!["crates_e"@, "crates_f"@],
        Seq::empty(),
        false,
    );
    let i = head.len() as int + 5;
    workspace_is_made_step_by_step("crates_g"@, Seq::empty(), alternates, true);
    workspace_is_made_step_by_step("crates_g"@, Seq::empty(), Seq::empty(), true);
    let some = crate::utils::test::workspace_steps("crates_g"@, Seq::empty(), alternates, true);
    let none = crate::utils::test::workspace_steps("crates_g"@, Seq::empty(), Seq::empty(), true);
    assert(text::joined(alternates, "\", \""@) == "some_other_registries"@);
    assert(with[i] == some[5]);
    assert(with.take(i) + with.skip(i + 1) =~= without);
}

} // verus!
