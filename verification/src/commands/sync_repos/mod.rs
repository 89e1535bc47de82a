//! Syncing an application workspace into a downstream repository.
use vstd::prelude::*;

use crate::text;

pub mod discover;
pub mod error;
pub mod laws;
pub mod manifest;
pub mod manifest_laws;
pub mod relative_laws;
pub mod relative_paths;
pub mod request;
pub mod request_laws;
pub mod run;
pub mod run_laws;
pub mod run_order;
pub mod run_staging;
pub mod run_steps;
pub mod toml;

pub use manifest::{ensure_fsl_registry, strip_path_from_deps, transform_root_cargo_toml};
pub use relative_paths::adjust_relative_paths;
pub use run::sync_repos;

verus! {

/// What to sync, from where and to where.
#[derive(Debug)]
pub struct Options {
    /// Path to the source workspace.
    pub source: std::path::PathBuf,
    /// Path to the downstream repository.
    pub target: std::path::PathBuf,
    /// The applications to sync; if empty, all that the source has.
    pub apps: Vec<String>,
    /// Say what would be done, and change nothing.
    pub dry_run: bool,
    /// Open a pull request afterwards.
    pub create_pr: bool,
    /// The branch of the pull request.
    pub branch_name: Option<String>,
    /// The branch that the pull request is for.
    pub base_branch: String,
}

/// What a sync did.
#[derive(Debug, Clone, PartialEq, Eq)]
pub struct SyncReposResult {
    pub synced_apps: Vec<String>,
    pub transformed_files: Vec<String>,
    pub dry_run: bool,
    pub pr_url: Option<String>,
}

impl SyncReposResult {
    /// The one-line summary.
    pub open spec fn summary(self) -> Seq<char> {
        "Synced "@ + text::decimal(self.synced_apps@.len()) + " app(s)"@ + match self.pr_url {
            Some(url) => " — PR: "@ + url@,
            None => Seq::empty(),
        }
    }

    /// The report, one line per application and per file.
    pub open spec fn report(self) -> Seq<char> {
        "Synced "@ + text::decimal(self.synced_apps@.len()) + " app(s):\n"@ + text::wrapped(
            text::views(self.synced_apps@),
            "  - "@,
            "\n"@,
        ) + (if self.transformed_files@.len() == 0 {
            Seq::empty()
        } else {
            "\nTransformed files:\n"@ + text::wrapped(
                text::views(self.transformed_files@),
                "  - "@,
                "\n"@,
            )
        }) + match self.pr_url {
            Some(url) => "\nPR: "@ + url@ + "\n"@,
            None => Seq::empty(),
        }
    }

    /// The one-line summary.
    pub fn to_string(&self) -> (r: String)
        ensures
            r@ == self.summary(),
    {
        let mut out = "Synced ".to_owned();
        out.append(text::decimal_text(self.synced_apps.len() as u64).as_str());
        out.append(" app(s)");
        if let Some(url) = &self.pr_url {
            out.append(" — PR: ");
            out.append(url.as_str());
        }
        proof {
            let head = "Synced "@ + text::decimal(self.synced_apps@.len()) + " app(s)"@;
            match &self.pr_url {
                Some(url) => assert(out@ =~= head + (" — PR: "@ + url@)),
                None => assert(out@ =~= head + Seq::<char>::empty()),
            }
        }
        out
    }

    /// The report, one line per application and per file.
    pub fn pretty_print(&self) -> (r: String)
        ensures
            r@ == self.report(),
    {
        let mut out = "Synced ".to_owned();
        out.append(text::decimal_text(self.synced_apps.len() as u64).as_str());
        out.append(" app(s):\n");
        out.append(text::wrap_texts(self.synced_apps.as_slice(), "  - ", "\n").as_str());
        let ghost one = out@;
        if self.transformed_files.len() > 0 {
            out.append("\nTransformed files:\n");
            out.append(text::wrap_texts(self.transformed_files.as_slice(), "  - ", "\n").as_str());
            assert(out@ =~= one + ("\nTransformed files:\n"@ + text::wrapped(
                text::views(self.transformed_files@),
                "  - "@,
                "\n"@,
            )));
        } else {
            assert(out@ =~= one + Seq::<char>::empty());
        }
        let ghost two = out@;
        if let Some(url) = &self.pr_url {
            out.append("\nPR: ");
            out.append(url.as_str());
            out.append("\n");
            assert(out@ =~= two + ("\nPR: "@ + url@ + "\n"@));
        } else {
            assert(out@ =~= two + Seq::<char>::empty());
        }
        out
    }
}

} // verus!
