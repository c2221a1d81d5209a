//! Where a plan comes from: the input that a path names, and what a dry run
//! reports for it.
use vstd::prelude::*;

use crate::parser::{
    changes_view, parse_show_plan_output, spec_show_plan_changes, ResourceChange, ShowPlan,
    TerraformInput,
};
use crate::paths::{
    path_extension, path_parent, platform_neutral_path, std_path_extension, std_path_parent,
};
use crate::text::{contains_seq, owned, text_eq, views_of};

verus! {

/// What a dry run reports for an input; `directory` is the directory that
/// `terraform show` would run in for a saved plan file.
pub open spec fn spec_render_dry_run(input: TerraformInput, directory: Seq<char>) -> Seq<char> {
    match input {
        TerraformInput::StdinJson(_) => "Dry run: would read JSON Terraform plan data from stdin. No Terraform command would be executed.\n"@,
        TerraformInput::Directory(d) => "Dry run: would execute `terraform plan -json -input=false -no-color` in '"@ + d@ + "'.\n"@,
        TerraformInput::JsonPlanFile(p) => "Dry run: would read JSON Terraform plan file '"@ + p@ + "'. No Terraform command would be executed.\n"@,
        TerraformInput::BinaryPlanFile(p) => "Dry run: would execute `terraform show -json "@ + p@ + "` in '"@ + directory + "'.\n"@,
        TerraformInput::Compare { .. } => Seq::empty(),
    }
}

/// The directory that `terraform show` runs in for a saved plan file: the
/// file's parent path, or `.` when it has none.
pub open spec fn show_directory(parent: Option<Seq<char>>) -> Seq<char> {
    match parent {
        Some(d) => d,
        None => "."@,
    }
}

/// The directory that `terraform show` runs in for a saved plan file: its
/// parent path, or `.` when it has none. The parent is `std::path`'s:
/// [`std_path_parent`] on a path text that every platform reads alike.
pub fn terraform_show_directory(plan_file: &str) -> (res: String)
    ensures
        plan_file@.len() == 0 ==> res@ == "."@,
        platform_neutral_path(plan_file@) ==> res@ == show_directory(std_path_parent(plan_file@)),
{
    match path_parent(plan_file) {
        Some(parent) => parent,
        None => owned("."),
    }
}

/// The arguments of `terraform` for a live plan.
pub open spec fn spec_plan_args() -> Seq<Seq<char>> {
    seq!["plan"@, "-json"@, "-input=false"@, "-no-color"@]
}

/// The arguments of `terraform` that convert a saved plan file to JSON.
pub open spec fn spec_show_args(plan_file: Seq<char>) -> Seq<Seq<char>> {
    seq!["show"@, "-json"@, plan_file]
}

/// The arguments of `terraform` that check that it can run.
pub open spec fn spec_version_args() -> Seq<Seq<char>> {
    seq!["version"@]
}

/// The arguments of `terraform` for a live plan (see [`spec_plan_args`]).
pub fn terraform_plan_args() -> (res: Vec<String>)
    ensures
        views_of(res@) == spec_plan_args(),
{
    let mut res: Vec<String> = Vec::new();
    res.push(owned("plan"));
    res.push(owned("-json"));
    res.push(owned("-input=false"));
    res.push(owned("-no-color"));
    assert(views_of(res@) =~= spec_plan_args());
    res
}

/// The arguments of `terraform` for a saved plan file (see [`spec_show_args`]).
pub fn terraform_show_args(plan_file: &str) -> (res: Vec<String>)
    ensures
        views_of(res@) == spec_show_args(plan_file@),
{
    let mut res: Vec<String> = Vec::new();
    res.push(owned("show"));
    res.push(owned("-json"));
    res.push(owned(plan_file));
    assert(views_of(res@) =~= spec_show_args(plan_file@));
    res
}

/// The arguments of `terraform` that check that it can run (see
/// [`spec_version_args`]).
pub fn terraform_version_args() -> (res: Vec<String>)
    ensures
        views_of(res@) == spec_version_args(),
{
    let mut res: Vec<String> = Vec::new();
    res.push(owned("version"));
    assert(views_of(res@) =~= spec_version_args());
    res
}

/// The path that output names for an input: none for plan data read from
/// stdin, the directory or plan file otherwise, and the new plan of a
/// comparison.
pub open spec fn spec_display_path(input: TerraformInput) -> Seq<char> {
    match input {
        TerraformInput::StdinJson(_) => Seq::empty(),
        TerraformInput::Directory(p) => p@,
        TerraformInput::JsonPlanFile(p) => p@,
        TerraformInput::BinaryPlanFile(p) => p@,
        TerraformInput::Compare { new, .. } => new@,
    }
}

/// The path that output names for an input (see [`spec_display_path`]).
pub fn display_path(input: &TerraformInput) -> (res: &str)
    ensures
        res@ == spec_display_path(*input),
{
    match input {
        TerraformInput::StdinJson(_) => {
            proof {
                reveal_strlit("");
            }
            ""
        },
        TerraformInput::Directory(path) => path.as_str(),
        TerraformInput::JsonPlanFile(path) => path.as_str(),
        TerraformInput::BinaryPlanFile(path) => path.as_str(),
        TerraformInput::Compare { new, .. } => new.as_str(),
    }
}

/// What a dry run reports (see [`spec_render_dry_run`]). A saved plan file's
/// directory is its parent path (`.` when it has none), which `std::path`
/// computes: on a path text that every platform reads alike, that parent is
/// [`std_path_parent`].
pub fn render_dry_run(input: &TerraformInput) -> (res: String)
    requires
        !(input is Compare),
    ensures
        !(input is BinaryPlanFile) ==> res@ == spec_render_dry_run(*input, "."@),
        input matches TerraformInput::BinaryPlanFile(p) ==> exists|directory: Seq<char>|
            res@ == spec_render_dry_run(*input, directory) && (p@.len() == 0 ==> directory
                == "."@),
        input matches TerraformInput::BinaryPlanFile(p) ==> (platform_neutral_path(p@) ==> res@
            == spec_render_dry_run(*input, show_directory(std_path_parent(p@)))),
{
    match input {
        TerraformInput::BinaryPlanFile(plan_file) => {
            let directory = terraform_show_directory(plan_file.as_str());
            let res = render_dry_run_in(input, directory.as_str());
            assert(res@ == spec_render_dry_run(*input, directory@));
            res
        },
        _ => render_dry_run_in(input, "."),
    }
}

/// What a dry run reports when a saved plan file's directory is `directory`
/// (see [`spec_render_dry_run`]).
pub fn render_dry_run_in(input: &TerraformInput, directory: &str) -> (res: String)
    ensures
        res@ == spec_render_dry_run(*input, directory@),
{
    let mut out = String::new();
    match input {
        TerraformInput::StdinJson(_) => {
            out.append(
                "Dry run: would read JSON Terraform plan data from stdin. No Terraform command would be executed.\n",
            );
        },
        TerraformInput::Directory(directory) => {
            out.append("Dry run: would execute `terraform plan -json -input=false -no-color` in '");
            out.append(directory.as_str());
            out.append("'.\n");
        },
        TerraformInput::JsonPlanFile(plan_file) => {
            out.append("Dry run: would read JSON Terraform plan file '");
            out.append(plan_file.as_str());
            out.append("'. No Terraform command would be executed.\n");
        },
        TerraformInput::BinaryPlanFile(plan_file) => {
            out.append("Dry run: would execute `terraform show -json ");
            out.append(plan_file.as_str());
            out.append("` in '");
            out.append(directory);
            out.append("'.\n");
        },
        TerraformInput::Compare { .. } => {},
    }
    proof {
        assert(Seq::<char>::empty() + "Dry run: would read JSON Terraform plan data from stdin. No Terraform command would be executed.\n"@
            == "Dry run: would read JSON Terraform plan data from stdin. No Terraform command would be executed.\n"@);
        assert(Seq::<char>::empty() + "Dry run: would execute `terraform plan -json -input=false -no-color` in '"@
            == "Dry run: would execute `terraform plan -json -input=false -no-color` in '"@);
        assert(Seq::<char>::empty() + "Dry run: would read JSON Terraform plan file '"@
            == "Dry run: would read JSON Terraform plan file '"@);
        assert(Seq::<char>::empty() + "Dry run: would execute `terraform show -json "@
            == "Dry run: would execute `terraform show -json "@);
    }
    out
}

/// Whether a path names a saved `.tfplan` file: its extension is `tfplan`.
///
/// The extension is `std::path`'s: a path whose text holds no `.` has none,
/// and a `tfplan` extension occurs in the text right after a `.`; on a text
/// that every platform reads alike it is [`std_path_extension`].
pub fn is_tfplan_file(path: &str) -> (res: bool)
    ensures
        res ==> contains_seq(path@, ".tfplan"@),
        !path@.contains('.') ==> !res,
        platform_neutral_path(path@) ==> res == (std_path_extension(path@) == Some("tfplan"@)),
{
    match path_extension(path) {
        Some(extension) => {
            let r = text_eq(extension.as_str(), "tfplan");
            proof {
                if r {
                    assert(seq!['.'] + extension@ == ".tfplan"@) by {
                        reveal_strlit(".tfplan");
                        reveal_strlit("tfplan");
                        assert(seq!['.'] + extension@ =~= ".tfplan"@);
                    }
                }
            }
            r
        },
        None => false,
    }
}

/// What the file system says of a path: whether it exists, its absolute form,
/// and whether that names a file or a directory.
#[derive(Debug)]
pub struct PathProbe {
    pub exists: bool,
    pub absolute: String,
    pub is_file: bool,
    pub is_dir: bool,
}

/// The error for a `--plan-file` path that does not exist.
pub open spec fn plan_file_missing_message(path: Seq<char>) -> Seq<char> {
    "Error: plan file not found at \""@ + path + "\"\nHint: check the path and ensure the file exists, or run `terraform plan -json > plan.json` in your project directory."@
}

/// The error for a `--plan-file` path that is not a file.
pub open spec fn plan_file_not_file_message(path: Seq<char>) -> Seq<char> {
    "Error: --plan-file path is not a file: \""@ + path + "\"\nHint: pass a JSON/NDJSON plan file or a saved .tfplan file."@
}

/// What a `--plan-file` path resolves to: an error when it does not exist
/// or is not a file; otherwise its absolute path, as a saved plan when that has
/// the `tfplan` extension and as a JSON plan file when not. Whether it has that
/// extension is `std::path`'s ([`std_path_extension`] on a text that every
/// platform reads alike); a saved plan's path always holds `.tfplan`, and a path
/// without a `.` is a JSON plan file.
pub open spec fn plan_file_input_agrees(
    path: Seq<char>,
    probe: PathProbe,
    res: Result<TerraformInput, String>,
) -> bool {
    &&& !probe.exists ==> (res matches Err(e) && e@ == plan_file_missing_message(path))
    &&& probe.exists && !probe.is_file ==> (res matches Err(e) && e@
        == plan_file_not_file_message(path))
    &&& probe.exists && probe.is_file ==> (res matches Ok(input) && match input {
        TerraformInput::BinaryPlanFile(p) => p@ == probe.absolute@ && contains_seq(
            p@,
            ".tfplan"@,
        ),
        TerraformInput::JsonPlanFile(p) => p@ == probe.absolute@,
        _ => false,
    })
    &&& probe.exists && probe.is_file && !probe.absolute@.contains('.') ==> (res matches Ok(
        input,
    ) && input is JsonPlanFile)
    &&& probe.exists && probe.is_file && platform_neutral_path(probe.absolute@) ==> (res matches Ok(
        input,
    ) && (input is BinaryPlanFile <==> std_path_extension(probe.absolute@) == Some("tfplan"@)))
}

/// The input that a `--plan-file` path names (see [`plan_file_input_agrees`]).
pub fn resolve_plan_file_input(path: &str, probe: &PathProbe) -> (res: Result<TerraformInput, String>)
    ensures
        plan_file_input_agrees(path@, *probe, res),
{
    if !probe.exists {
        let mut message = String::new();
        message.append("Error: plan file not found at \"");
        message.append(path);
        message.append(
            "\"\nHint: check the path and ensure the file exists, or run `terraform plan -json > plan.json` in your project directory.",
        );
        proof {
            assert(Seq::<char>::empty() + "Error: plan file not found at \""@
                == "Error: plan file not found at \""@);
        }
        return Err(message);
    }
    if !probe.is_file {
        let mut message = String::new();
        message.append("Error: --plan-file path is not a file: \"");
        message.append(path);
        message.append("\"\nHint: pass a JSON/NDJSON plan file or a saved .tfplan file.");
        proof {
            assert(Seq::<char>::empty() + "Error: --plan-file path is not a file: \""@
                == "Error: --plan-file path is not a file: \""@);
        }
        return Err(message);
    }
    let absolute = probe.absolute.clone();
    if is_tfplan_file(absolute.as_str()) {
        Ok(TerraformInput::BinaryPlanFile(absolute))
    } else {
        Ok(TerraformInput::JsonPlanFile(absolute))
    }
}

/// The error for a positional path that does not exist.
pub open spec fn path_missing_message(path: Seq<char>) -> Seq<char> {
    "Path does not exist: "@ + path
}

/// The error for a positional path that is neither a directory nor a saved plan.
pub open spec fn path_unusable_message(path: Seq<char>) -> Seq<char> {
    "Path is not a directory or .tfplan file: "@ + path
}

/// What the positional path resolves to: an error when it does not exist;
/// its absolute path as a live-plan directory when that is a directory, or as a
/// saved plan when that is a file with the `tfplan` extension; an error
/// otherwise. Whether it has that extension is `std::path`'s
/// ([`std_path_extension`] on a text that every platform reads alike); a saved
/// plan's path always holds `.tfplan`, and a path without a `.` is never one.
pub open spec fn positional_input_agrees(
    path: Seq<char>,
    probe: PathProbe,
    res: Result<TerraformInput, String>,
) -> bool {
    &&& !probe.exists ==> (res matches Err(e) && e@ == path_missing_message(path))
    &&& probe.exists && probe.is_dir ==> (res matches Ok(input) && (input matches TerraformInput::Directory(
        d,
    ) && d@ == probe.absolute@))
    &&& probe.exists && !probe.is_dir && !probe.is_file ==> (res matches Err(e) && e@
        == path_unusable_message(path))
    &&& probe.exists && !probe.is_dir && probe.is_file ==> match res {
        Ok(input) => (input matches TerraformInput::BinaryPlanFile(p) && p@ == probe.absolute@
            && contains_seq(p@, ".tfplan"@)),
        Err(e) => e@ == path_unusable_message(path),
    }
    &&& probe.exists && !probe.is_dir && !probe.absolute@.contains('.') ==> (res matches Err(e)
        && e@ == path_unusable_message(path))
    &&& probe.exists && !probe.is_dir && probe.is_file && platform_neutral_path(probe.absolute@)
        ==> (res is Ok <==> std_path_extension(probe.absolute@) == Some("tfplan"@))
}

/// The input that the positional path names (see [`positional_input_agrees`]).
pub fn resolve_positional_input(path: &str, probe: &PathProbe) -> (res: Result<TerraformInput, String>)
    ensures
        positional_input_agrees(path@, *probe, res),
{
    if !probe.exists {
        let mut message = String::new();
        message.append("Path does not exist: ");
        message.append(path);
        proof {
            assert(Seq::<char>::empty() + "Path does not exist: "@ == "Path does not exist: "@);
        }
        return Err(message);
    }
    if probe.is_dir {
        return Ok(TerraformInput::Directory(probe.absolute.clone()));
    }
    if probe.is_file && is_tfplan_file(probe.absolute.as_str()) {
        return Ok(TerraformInput::BinaryPlanFile(probe.absolute.clone()));
    }
    let mut message = String::new();
    message.append("Path is not a directory or .tfplan file: ");
    message.append(path);
    proof {
        assert(Seq::<char>::empty() + "Path is not a directory or .tfplan file: "@
            == "Path is not a directory or .tfplan file: "@);
    }
    Err(message)
}

/// The input of a run. Two `--compare` plan files come first (an error if one
/// of them does not exist); then plan data piped on stdin (`stdin_contents`,
/// when it is not blank); then the `--plan-file` path; then the positional path.
/// Each probe describes the path it goes with.
pub fn resolve_input(
    plan_file: &Option<String>,
    directory: &str,
    compare: &Option<Vec<String>>,
    stdin_contents: Option<String>,
    plan_file_probe: &PathProbe,
    directory_probe: &PathProbe,
    compare_probes: &Vec<PathProbe>,
) -> (res: Result<TerraformInput, String>)
    requires
        compare matches Some(paths) ==> paths.len() == 2 && compare_probes.len() == 2,
    ensures
        compare matches Some(paths) ==> (!compare_probes[0].exists ==> (res matches Err(e) && e@
            == path_missing_message(paths[0]@))) && (compare_probes[0].exists
            && !compare_probes[1].exists ==> (res matches Err(e) && e@ == path_missing_message(
            paths[1]@))) && (compare_probes[0].exists && compare_probes[1].exists ==> (res matches Ok(
            input) && (input matches TerraformInput::Compare { old, new } && old@
            == compare_probes[0].absolute@ && new@ == compare_probes[1].absolute@))),
        compare is None && stdin_contents is Some ==> (res matches Ok(input) && (input matches TerraformInput::StdinJson(
            contents) && contents@ == stdin_contents->0@)),
        compare is None && stdin_contents is None && plan_file is Some ==> plan_file_input_agrees(
            plan_file->0@,
            *plan_file_probe,
            res,
        ),
        compare is None && stdin_contents is None && plan_file is None ==> positional_input_agrees(
            directory@,
            *directory_probe,
            res,
        ),
{
    if let Some(paths) = compare {
        if !compare_probes[0].exists {
            let mut message = String::new();
            message.append("Path does not exist: ");
            message.append(paths[0].as_str());
            proof {
                assert(Seq::<char>::empty() + "Path does not exist: "@ == "Path does not exist: "@);
            }
            return Err(message);
        }
        if !compare_probes[1].exists {
            let mut message = String::new();
            message.append("Path does not exist: ");
            message.append(paths[1].as_str());
            proof {
                assert(Seq::<char>::empty() + "Path does not exist: "@ == "Path does not exist: "@);
            }
            return Err(message);
        }
        return Ok(
            TerraformInput::Compare {
                old: compare_probes[0].absolute.clone(),
                new: compare_probes[1].absolute.clone(),
            },
        );
    }
    if let Some(contents) = stdin_contents {
        return Ok(TerraformInput::StdinJson(contents));
    }
    if let Some(path) = plan_file {
        return resolve_plan_file_input(path.as_str(), plan_file_probe);
    }
    resolve_positional_input(directory, directory_probe)
}

/// The error when the `terraform` executable cannot be started.
pub open spec fn terraform_missing_message(error: Seq<char>) -> Seq<char> {
    "Error: 'terraform' not found in PATH or failed to execute: "@ + error
}

/// The error when `terraform version` exits with a failure status.
pub open spec fn terraform_version_failed_message(status: Seq<char>) -> Seq<char> {
    "Error: 'terraform version' failed with status "@ + status + "."@
}

/// Whether `terraform` is usable, given how `terraform version` went: `launch`
/// is `Err` with the error's text when it could not be started, and otherwise
/// whether it exited successfully and its exit status as text.
pub fn terraform_version_check(launch: Result<(bool, String), String>) -> (res: Result<(), String>)
    ensures
        launch matches Err(e) ==> (res matches Err(m) && m@ == terraform_missing_message(e@)),
        launch matches Ok((success, status)) ==> (if success {
            res is Ok
        } else {
            res matches Err(m) && m@ == terraform_version_failed_message(status@)
        }),
{
    match launch {
        Err(error) => {
            let mut message = String::new();
            message.append("Error: 'terraform' not found in PATH or failed to execute: ");
            message.append(error.as_str());
            proof {
                assert(Seq::<char>::empty() + "Error: 'terraform' not found in PATH or failed to execute: "@
                    == "Error: 'terraform' not found in PATH or failed to execute: "@);
            }
            Err(message)
        },
        Ok((success, status)) => {
            if success {
                Ok(())
            } else {
                let mut message = String::new();
                message.append("Error: 'terraform version' failed with status ");
                message.append(status.as_str());
                message.append(".");
                proof {
                    assert(Seq::<char>::empty() + "Error: 'terraform version' failed with status "@
                        == "Error: 'terraform version' failed with status "@);
                }
                Err(message)
            }
        },
    }
}

/// The error when `terraform plan` fails in a directory.
pub open spec fn plan_failed_message(directory: Seq<char>, stderr: Seq<char>) -> Seq<char> {
    "Terraform plan failed in '"@ + directory + "':\n"@ + stderr
}

/// The outcome of `terraform plan` in `directory`, given whether it exited
/// successfully, what it wrote to stderr, and the changes read from its
/// output: those changes on success, and otherwise an error that quotes stderr.
pub fn terraform_plan_result(
    directory: &str,
    success: bool,
    stderr: &str,
    changes: Vec<ResourceChange>,
) -> (res: Result<Vec<ResourceChange>, String>)
    ensures
        success ==> res == Ok::<Vec<ResourceChange>, String>(changes),
        !success ==> (res matches Err(m) && m@ == plan_failed_message(directory@, stderr@)),
{
    if success {
        Ok(changes)
    } else {
        let mut message = String::new();
        message.append("Terraform plan failed in '");
        message.append(directory);
        message.append("':\n");
        message.append(stderr);
        proof {
            assert(Seq::<char>::empty() + "Terraform plan failed in '"@
                == "Terraform plan failed in '"@);
        }
        Err(message)
    }
}

/// The error when `terraform show` fails for a saved plan file.
pub open spec fn show_failed_message(plan_file: Seq<char>, stderr: Seq<char>) -> Seq<char> {
    "Terraform show failed for '"@ + plan_file + "':\n"@ + stderr
}

/// The error when the output of `terraform show -json` does not decode.
pub open spec fn show_undecodable_message(plan_file: Seq<char>, error: Seq<char>) -> Seq<char> {
    "Failed to parse terraform show JSON for '"@ + plan_file + "': "@ + error
}

/// The outcome of `terraform show -json` for a saved plan file, given whether
/// it exited successfully, what it wrote to stderr, and its output decoded as a
/// `terraform show -json` document (`Err` with the decoder's message when it
/// does not decode): an error that quotes stderr on failure; otherwise the
/// document's changes, or an error that quotes the decoder's message.
pub fn terraform_show_result(
    plan_file: &str,
    success: bool,
    stderr: &str,
    document: Result<ShowPlan, String>,
) -> (res: Result<Vec<ResourceChange>, String>)
    ensures
        !success ==> (res matches Err(m) && m@ == show_failed_message(plan_file@, stderr@)),
        success ==> match document {
            Ok(plan) => (res matches Ok(changes) && changes_view(changes@) == spec_show_plan_changes(
                plan,
            )),
            Err(e) => (res matches Err(m) && m@ == show_undecodable_message(plan_file@, e@)),
        },
{
    if !success {
        let mut message = String::new();
        message.append("Terraform show failed for '");
        message.append(plan_file);
        message.append("':\n");
        message.append(stderr);
        proof {
            assert(Seq::<char>::empty() + "Terraform show failed for '"@
                == "Terraform show failed for '"@);
        }
        return Err(message);
    }
    match document {
        Ok(plan) => Ok(parse_show_plan_output(plan)),
        Err(error) => {
            let mut message = String::new();
            message.append("Failed to parse terraform show JSON for '");
            message.append(plan_file);
            message.append("': ");
            message.append(error.as_str());
            proof {
                assert(Seq::<char>::empty() + "Failed to parse terraform show JSON for '"@
                    == "Failed to parse terraform show JSON for '"@);
            }
            Err(message)
        },
    }
}

} // verus!
