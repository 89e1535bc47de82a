# fslabscli

Release and repository maintenance: syncing an application workspace into a
downstream repository, making draft releases, choosing the commits to compare,
and settings for publishing to S3.

`src/` is the library, written in Verus. It decides: which steps a command takes
and in which order, what each file is to hold, which commands are run, what is
reported. Each decision has a contract over plain sequences and trees, and the
properties that span several functions stand as proof functions beside them.

- `commands/sync_repos/` edits manifests (`manifest.rs`, on the documents of
  `toml_edit` as `toml.rs` describes them) and Rust sources (`relative_paths.rs`,
  with `regex`), and runs a sync step by step (`run.rs`, asking for the actions of
  `request.rs`). What holds of the edits is in `laws.rs`; what holds of a whole
  sync is in `run_laws.rs`, `run_order.rs` and `run_staging.rs`.
- `commands/draft_release/` and `commands/release_utils.rs` find or create a draft
  release and upload artifacts to it.
- `commands/check_workspace/s3.rs` resolves the destinations of an S3 upload.
- `cli_args.rs` chooses the commits to compare.
- `utils/test.rs` describes repositories and workspaces to test with.
- `text.rs` holds what the others need of text.

`app/` is the program around it: arguments, files, other programs, GitHub. A sync,
a search for a release, an upload and a draft release each ask for one action at a
time; the program performs it and hands the outcome back.

`tests/` runs the library from outside.
