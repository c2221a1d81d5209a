//! Command-line options, configuration-file defaults and the settings that
//! result from both.
use vstd::prelude::*;

use crate::parser::Format;
use crate::paths::{
    path_is_absolute, path_join, path_parent, platform_neutral_path, starts_with_root,
    std_path_parent,
};
use crate::terraform::PathProbe;
use crate::text::{opt_text, owned, text_eq, views_of};

verus! {

/// The name of the configuration file that is looked for.
pub const CONFIG_FILE_NAME: &'static str = ".terraform-plan-parser.toml";

/// Keys by which resource changes can be sorted.
#[derive(Clone, Copy, Debug, PartialEq, Eq, Structural)]
pub enum SortBy {
    Type,
    Name,
    Action,
}

/// Shells for which a completion script can be generated.
#[derive(Clone, Copy, Debug, PartialEq, Eq, Structural)]
pub enum CompletionShell {
    Bash,
    Elvish,
    Fish,
    PowerShell,
    Zsh,
}

/// The command-line options. Paths are held as their text.
#[derive(Debug)]
pub struct Cli {
    /// Terraform project directory or saved `.tfplan` file to inspect.
    pub directory: String,
    /// A pre-generated plan file to read instead of running `terraform plan`.
    pub plan_file: Option<String>,
    /// A configuration file to read defaults from.
    pub config: Option<String>,
    /// A file to write the rendered output to instead of stdout.
    pub output_file: Option<String>,
    pub format: Option<Format>,
    pub no_emoji: bool,
    pub dry_run: bool,
    pub verbose: bool,
    pub quiet: bool,
    pub no_header: bool,
    pub include_type: Vec<String>,
    pub exclude_type: Vec<String>,
    pub include_action: Vec<String>,
    pub only_delete: bool,
    pub only_create: bool,
    pub only_update: bool,
    pub only_replace: bool,
    pub exclude_action: Vec<String>,
    pub fail_on: Vec<String>,
    pub github_summary: bool,
    pub sort_by: Option<SortBy>,
    pub completions: Option<CompletionShell>,
    /// Two plan files to compare, old then new.
    pub compare: Option<Vec<String>>,
}

/// Defaults read from the configuration file; every key is optional.
#[derive(Debug)]
pub struct ConfigFile {
    pub plan_file: Option<String>,
    pub format: Option<Format>,
    pub no_emoji: Option<bool>,
    pub dry_run: Option<bool>,
    pub verbose: Option<bool>,
    pub quiet: Option<bool>,
    pub no_header: Option<bool>,
    pub include_type: Vec<String>,
    pub exclude_type: Vec<String>,
    pub include_action: Vec<String>,
    pub only_delete: Option<bool>,
    pub only_create: Option<bool>,
    pub only_update: Option<bool>,
    pub only_replace: Option<bool>,
    pub exclude_action: Vec<String>,
    pub fail_on: Vec<String>,
    pub github_summary: Option<bool>,
    pub sort_by: Option<SortBy>,
    pub output_file: Option<String>,
}

impl Default for ConfigFile {
    fn default() -> (res: Self)
        ensures
            res.plan_file is None,
            res.format is None,
            res.no_emoji is None,
            res.dry_run is None,
            res.verbose is None,
            res.quiet is None,
            res.no_header is None,
            res.include_type@.len() == 0,
            res.exclude_type@.len() == 0,
            res.include_action@.len() == 0,
            res.only_delete is None,
            res.only_create is None,
            res.only_update is None,
            res.only_replace is None,
            res.exclude_action@.len() == 0,
            res.fail_on@.len() == 0,
            res.github_summary is None,
            res.sort_by is None,
            res.output_file is None,
    {
        ConfigFile {
            plan_file: None,
            format: None,
            no_emoji: None,
            dry_run: None,
            verbose: None,
            quiet: None,
            no_header: None,
            include_type: Vec::new(),
            exclude_type: Vec::new(),
            include_action: Vec::new(),
            only_delete: None,
            only_create: None,
            only_update: None,
            only_replace: None,
            exclude_action: Vec::new(),
            fail_on: Vec::new(),
            github_summary: None,
            sort_by: None,
            output_file: None,
        }
    }
}

/// The effective settings of one run.
#[derive(Debug)]
pub struct AppSettings {
    pub plan_file: Option<String>,
    pub format: Format,
    pub no_emoji: bool,
    pub dry_run: bool,
    pub verbose: bool,
    pub quiet: bool,
    pub no_header: bool,
    pub include_type: Vec<String>,
    pub exclude_type: Vec<String>,
    pub include_action: Vec<String>,
    pub exclude_action: Vec<String>,
    pub fail_on: Vec<String>,
    pub github_summary: bool,
    pub sort_by: Option<SortBy>,
    pub output_file: Option<String>,
}

/// The paths in their order, each kept only where it first occurs.
pub open spec fn spec_dedup(paths: Seq<Seq<char>>) -> Seq<Seq<char>>
    decreases paths.len(),
{
    if paths.len() == 0 {
        Seq::empty()
    } else {
        let before = spec_dedup(paths.drop_last());
        if before.contains(paths.last()) {
            before
        } else {
            before.push(paths.last())
        }
    }
}

/// Drops the paths that occurred before (see [`spec_dedup`]).
pub fn dedup_paths(paths: Vec<String>) -> (res: Vec<String>)
    ensures
        views_of(res@) == spec_dedup(views_of(paths@)),
{
    let ghost all = views_of(paths@);
    let mut unique: Vec<String> = Vec::new();
    let mut i: usize = 0;
    while i < paths.len()
        invariant
            i <= paths.len(),
            all == views_of(paths@),
            views_of(unique@) == spec_dedup(all.take(i as int)),
        decreases paths.len() - i,
    {
        let path = &paths[i];
        proof {
            assert(all.take(i + 1).drop_last() == all.take(i as int));
            assert(all.take(i + 1).last() == path@);
        }
        let mut seen = false;
        let mut k: usize = 0;
        while k < unique.len()
            invariant
                k <= unique.len(),
                seen <==> exists|m: int| 0 <= m < k && unique@[m]@ == path@,
            decreases unique.len() - k,
        {
            if text_eq(unique[k].as_str(), path.as_str()) {
                seen = true;
            }
            k = k + 1;
        }
        let ghost before = views_of(unique@);
        proof {
            if seen {
                let m = choose|m: int| 0 <= m < unique.len() && unique@[m]@ == path@;
                assert(before[m] == path@);
            } else {
                assert forall|m: int| 0 <= m < before.len() implies before[m] != path@ by {
                    assert(before[m] == unique@[m]@);
                }
            }
        }
        if !seen {
            unique.push(path.clone());
            proof {
                assert(views_of(unique@) == before.push(path@));
            }
        }
        i = i + 1;
    }
    assert(all.take(paths.len() as int) == all);
    unique
}

/// The command-line values when there are any, the configuration values otherwise.
pub open spec fn spec_cli_or_config(cli: Seq<Seq<char>>, config: Seq<Seq<char>>) -> Seq<Seq<char>> {
    if cli.len() == 0 {
        config
    } else {
        cli
    }
}

/// Copies a list of strings.
pub fn copy_strings(values: &[String]) -> (res: Vec<String>)
    ensures
        views_of(res@) == views_of(values@),
{
    let mut res: Vec<String> = Vec::new();
    let mut i: usize = 0;
    while i < values.len()
        invariant
            i <= values.len(),
            views_of(res@) == views_of(values@).take(i as int),
        decreases values.len() - i,
    {
        let ghost before = res@;
        res.push(values[i].clone());
        proof {
            assert(views_of(res@) == views_of(before).push(values@[i as int]@));
            assert(views_of(values@).take(i + 1) == views_of(values@).take(i as int).push(
                values@[i as int]@,
            ));
        }
        i = i + 1;
    }
    assert(views_of(values@).take(values.len() as int) == views_of(values@));
    res
}

/// Command-line list values override the configuration's (see [`spec_cli_or_config`]).
pub fn cli_or_config_values(cli_values: &[String], config_values: Vec<String>) -> (res: Vec<String>)
    ensures
        views_of(res@) == spec_cli_or_config(views_of(cli_values@), views_of(config_values@)),
{
    if cli_values.len() == 0 {
        config_values
    } else {
        copy_strings(cli_values)
    }
}

/// A one-element list.
fn single(value: &str) -> (res: Vec<String>)
    ensures
        views_of(res@) == seq![value@],
{
    let mut res: Vec<String> = Vec::new();
    res.push(owned(value));
    proof {
        assert(views_of(res@) =~= seq![value@]);
    }
    res
}

/// Whether a flag is set on the command line or in the configuration.
pub open spec fn flag_set(cli: bool, config: Option<bool>) -> bool {
    cli || config == Some(true)
}

/// The effective action filter: the first of the `only-delete`, `only-create`,
/// `only-update` and `only-replace` shorthands that is set, on the command line
/// or in the configuration, selects that one action; otherwise the
/// `include-action` values of the command line, or else of the configuration.
pub open spec fn spec_include_action(cli: Cli, config: ConfigFile) -> Seq<Seq<char>> {
    if flag_set(cli.only_delete, config.only_delete) {
        seq!["delete"@]
    } else if flag_set(cli.only_create, config.only_create) {
        seq!["create"@]
    } else if flag_set(cli.only_update, config.only_update) {
        seq!["update"@]
    } else if flag_set(cli.only_replace, config.only_replace) {
        seq!["replace"@]
    } else {
        spec_cli_or_config(views_of(cli.include_action@), views_of(config.include_action@))
    }
}

fn flag(cli: bool, config: Option<bool>) -> (res: bool)
    ensures
        res == flag_set(cli, config),
{
    cli || match config {
        Some(value) => value,
        None => false,
    }
}

/// The effective action filter (see [`spec_include_action`]).
pub fn resolve_include_action(cli: &Cli, config: &ConfigFile) -> (res: Vec<String>)
    ensures
        views_of(res@) == spec_include_action(*cli, *config),
{
    if flag(cli.only_delete, config.only_delete) {
        return single("delete");
    }
    if flag(cli.only_create, config.only_create) {
        return single("create");
    }
    if flag(cli.only_update, config.only_update) {
        return single("update");
    }
    if flag(cli.only_replace, config.only_replace) {
        return single("replace");
    }
    cli_or_config_values(cli.include_action.as_slice(), copy_strings(config.include_action.as_slice()))
}

/// What reading `path` relative to a configuration file whose parent path is
/// `parent` gives, on texts that every platform reads alike: the path itself
/// when `std::path` gives the file no parent (`None`) or the path starts at the
/// root; otherwise, where the parent is not empty and does not end with `/`,
/// the parent, a separator (`/`, or `\` on Windows) and the path. For an empty
/// parent or one that ends with `/` nothing is stated: std documents no text
/// for joining to such a base.
pub open spec fn config_relative_agrees(
    res: Seq<char>,
    path: Seq<char>,
    parent: Option<Seq<char>>,
) -> bool {
    match parent {
        None => res == path,
        Some(d) => platform_neutral_path(d) ==> (if starts_with_root(path) {
            res == path
        } else if d.len() > 0 && d.last() != '/' {
            res == d + seq!['/'] + path || res == d + seq!['\\'] + path
        } else {
            true
        }),
    }
}

/// A path from the configuration file, read relative to the directory of that
/// file unless it is absolute.
///
/// Without a configuration file the path stays as it is. With one, on texts
/// that every platform reads alike, see [`config_relative_agrees`]; the file's
/// directory is `std::path`'s parent of its path ([`std_path_parent`]). What
/// `std::path` does with other texts depends on the platform and is left
/// unsaid.
pub fn resolve_config_relative_path(path: String, config_path: Option<String>) -> (res: String)
    ensures
        config_path is None ==> res@ == path@,
        config_path matches Some(c) ==> (platform_neutral_path(path@) && platform_neutral_path(c@)
            ==> config_relative_agrees(res@, path@, std_path_parent(c@))),
{
    if path_is_absolute(path.as_str()) {
        return path;
    }
    let parent = match &config_path {
        Some(config_path) => path_parent(config_path.as_str()),
        None => None,
    };
    match parent {
        Some(parent) => path_join(parent.as_str(), path.as_str()),
        None => path,
    }
}

/// The first of two optional values that is set.
pub open spec fn first_set<T>(a: Option<T>, b: Option<T>) -> Option<T> {
    if a is Some {
        a
    } else {
        b
    }
}

/// The effective settings: command-line values override configuration values
/// for the plan file, the output file, the format, the sort key and every
/// list; a flag is set when either sets it; the format defaults to text.
pub open spec fn spec_app_settings_agree(
    res: AppSettings,
    cli: Cli,
    config: ConfigFile,
    config_path: Option<Seq<char>>,
) -> bool {
    &&& res.format == match first_set(cli.format, config.format) {
        Some(f) => f,
        None => Format::Text,
    }
    &&& res.no_emoji == flag_set(cli.no_emoji, config.no_emoji)
    &&& res.dry_run == flag_set(cli.dry_run, config.dry_run)
    &&& res.verbose == flag_set(cli.verbose, config.verbose)
    &&& res.quiet == flag_set(cli.quiet, config.quiet)
    &&& res.no_header == flag_set(cli.no_header, config.no_header)
    &&& res.github_summary == flag_set(cli.github_summary, config.github_summary)
    &&& res.sort_by == first_set(cli.sort_by, config.sort_by)
    &&& views_of(res.include_type@) == spec_cli_or_config(
        views_of(cli.include_type@),
        views_of(config.include_type@),
    )
    &&& views_of(res.exclude_type@) == spec_cli_or_config(
        views_of(cli.exclude_type@),
        views_of(config.exclude_type@),
    )
    &&& views_of(res.include_action@) == spec_include_action(cli, config)
    &&& views_of(res.exclude_action@) == spec_cli_or_config(
        views_of(cli.exclude_action@),
        views_of(config.exclude_action@),
    )
    &&& views_of(res.fail_on@) == spec_cli_or_config(
        views_of(cli.fail_on@),
        views_of(config.fail_on@),
    )
    &&& config_path_agrees(res.plan_file, cli.plan_file, config.plan_file, config_path)
    &&& config_path_agrees(res.output_file, cli.output_file, config.output_file, config_path)
}

/// A path setting: the command line's when given; otherwise the configuration's,
/// as [`resolve_config_relative_path`] reads it relative to the configuration
/// file: unchanged when there is no such file, and as
/// [`config_relative_agrees`] states on texts that every platform reads alike;
/// otherwise none.
pub open spec fn config_path_agrees(
    res: Option<String>,
    cli: Option<String>,
    config: Option<String>,
    config_path: Option<Seq<char>>,
) -> bool {
    match cli {
        Some(c) => res matches Some(r) && r@ == c@,
        None => match config {
            None => res is None,
            Some(p) => res is Some && (config_path is None ==> res->0@ == p@) && (
            config_path matches Some(cp) ==> (platform_neutral_path(p@) && platform_neutral_path(
                cp,
            ) ==> config_relative_agrees(res->0@, p@, std_path_parent(cp)))),
        },
    }
}

fn resolve_path_setting(
    cli: &Option<String>,
    config: Option<String>,
    config_path: &Option<String>,
) -> (res: Option<String>)
    ensures
        config_path_agrees(
            res,
            *cli,
            config,
            match config_path {
                Some(p) => Some(p@),
                None => None,
            },
        ),
{
    match cli {
        Some(c) => Some(c.clone()),
        None => match config {
            None => None,
            Some(p) => {
                let copy = match config_path {
                    Some(cp) => Some(cp.clone()),
                    None => None,
                };
                Some(resolve_config_relative_path(p, copy))
            },
        },
    }
}

/// The effective settings of a run (see [`spec_app_settings_agree`]).
pub fn app_settings(cli: &Cli, config: ConfigFile, config_path: Option<String>) -> (res:
    AppSettings)
    ensures
        spec_app_settings_agree(
            res,
            *cli,
            config,
            match config_path {
                Some(p) => Some(p@),
                None => None,
            },
        ),
{
    let include_action = resolve_include_action(cli, &config);
    let format = match cli.format {
        Some(f) => f,
        None => match config.format {
            Some(f) => f,
            None => Format::Text,
        },
    };
    let sort_by = match cli.sort_by {
        Some(s) => Some(s),
        None => config.sort_by,
    };
    let plan_file = resolve_path_setting(&cli.plan_file, config.plan_file, &config_path);
    let output_file = resolve_path_setting(&cli.output_file, config.output_file, &config_path);
    AppSettings {
        plan_file,
        format,
        no_emoji: flag(cli.no_emoji, config.no_emoji),
        dry_run: flag(cli.dry_run, config.dry_run),
        verbose: flag(cli.verbose, config.verbose),
        quiet: flag(cli.quiet, config.quiet),
        no_header: flag(cli.no_header, config.no_header),
        include_type: cli_or_config_values(cli.include_type.as_slice(), config.include_type),
        exclude_type: cli_or_config_values(cli.exclude_type.as_slice(), config.exclude_type),
        include_action,
        exclude_action: cli_or_config_values(cli.exclude_action.as_slice(), config.exclude_action),
        fail_on: cli_or_config_values(cli.fail_on.as_slice(), config.fail_on),
        github_summary: flag(cli.github_summary, config.github_summary),
        sort_by,
        output_file,
    }
}

/// The directories where a configuration file is looked for, in order: the
/// current directory, when it is known; then the input's directory, which is
/// the input itself when it is a directory and its parent path when it is a
/// file (`std::path`'s parent, [`std_path_parent`] on a text that every
/// platform reads alike; a file may have none), and none otherwise.
pub open spec fn config_dirs_agree(
    dirs: Seq<Seq<char>>,
    current_dir: Option<Seq<char>>,
    input: Seq<char>,
    probe: PathProbe,
) -> bool {
    let head = match current_dir {
        Some(d) => seq![d],
        None => Seq::empty(),
    };
    if probe.is_dir {
        dirs == head.push(input)
    } else if probe.is_file {
        &&& (dirs == head || (dirs.len() == head.len() + 1 && dirs.take(head.len() as int) == head))
        &&& platform_neutral_path(input) ==> dirs == head + match std_path_parent(input) {
            Some(p) => seq![p],
            None => Seq::<Seq<char>>::empty(),
        }
    } else {
        dirs == head
    }
}

/// Whether `candidate` is the configuration file name joined to `dir` by
/// `std::path`: on a directory text that every platform reads alike, not empty
/// and not ending with `/`, the directory, a separator (`/`, or `\` on
/// Windows) and the name. Nothing is stated of other directory texts.
pub open spec fn config_file_in(candidate: Seq<char>, dir: Seq<char>) -> bool {
    platform_neutral_path(dir) && dir.len() > 0 && dir.last() != '/' ==> (candidate == dir
        + seq!['/'] + CONFIG_FILE_NAME@ || candidate == dir + seq!['\\'] + CONFIG_FILE_NAME@)
}

/// The configuration files to look for when none is given, in order, each
/// path once: the file named [`CONFIG_FILE_NAME`] in each directory of
/// [`config_dirs_agree`]. `current_dir` is the current directory when it is
/// known, `input_path` the `--plan-file` path or else the positional path, and
/// `input_probe` what the file system says of it.
pub fn default_config_candidates(
    current_dir: Option<String>,
    input_path: &str,
    input_probe: &PathProbe,
) -> (res: Vec<String>)
    ensures
        exists|dirs: Seq<Seq<char>>, candidates: Seq<Seq<char>>|
            {
                &&& config_dirs_agree(dirs, opt_text(current_dir), input_path@, *input_probe)
                &&& candidates.len() == dirs.len()
                &&& forall|i: int|
                    0 <= i < dirs.len() ==> config_file_in(#[trigger] candidates[i], dirs[i])
                &&& views_of(res@) == spec_dedup(candidates)
            },
{
    proof {
        reveal_strlit(".terraform-plan-parser.toml");
        assert(platform_neutral_path(CONFIG_FILE_NAME@));
        assert(!starts_with_root(CONFIG_FILE_NAME@));
    }
    let mut candidates: Vec<String> = Vec::new();
    let ghost mut dirs: Seq<Seq<char>> = Seq::empty();
    match &current_dir {
        Some(dir) => {
            candidates.push(path_join(dir.as_str(), CONFIG_FILE_NAME));
            proof {
                dirs = dirs.push(dir@);
            }
        },
        None => {},
    }
    let ghost head = dirs;
    let input_dir: Option<String> = if input_probe.is_dir {
        Some(owned(input_path))
    } else if input_probe.is_file {
        path_parent(input_path)
    } else {
        None
    };
    match &input_dir {
        Some(dir) => {
            candidates.push(path_join(dir.as_str(), CONFIG_FILE_NAME));
            proof {
                dirs = dirs.push(dir@);
            }
        },
        None => {},
    }
    proof {
        assert(dirs.take(head.len() as int) == head);
        if input_dir is None {
            assert(dirs == head + Seq::<Seq<char>>::empty());
        } else {
            assert(dirs == head + seq![input_dir->0@]);
        }
        assert(config_dirs_agree(dirs, opt_text(current_dir), input_path@, *input_probe));
        assert(forall|i: int|
            0 <= i < dirs.len() ==> config_file_in(#[trigger] views_of(candidates@)[i], dirs[i]));
    }
    dedup_paths(candidates)
}

/// The error for a `--config` path that does not exist.
pub open spec fn config_missing_message(path: Seq<char>) -> Seq<char> {
    "Config file does not exist: "@ + path
}

/// The error for a `--config` path that is not a file.
pub open spec fn config_not_file_message(path: Seq<char>) -> Seq<char> {
    "Config path is not a file: "@ + path
}

/// The absolute path of the first candidate that is a file, if any.
pub open spec fn first_config_file(probes: Seq<PathProbe>) -> Option<Seq<char>>
    decreases probes.len(),
{
    if probes.len() == 0 {
        None
    } else if probes[0].is_file {
        Some(probes[0].absolute@)
    } else {
        first_config_file(probes.drop_first())
    }
}

/// The configuration file to read: the `--config` path when one is given (an
/// error when it does not exist or is not a file, and otherwise its absolute
/// path); else the first candidate of [`default_config_candidates`] that is a
/// file, by its absolute path; else none. `config_probe` describes the
/// `--config` path and `candidate_probes` the candidates, in order.
pub fn resolve_config_path(
    config: &Option<String>,
    config_probe: &PathProbe,
    candidate_probes: &Vec<PathProbe>,
) -> (res: Result<Option<String>, String>)
    ensures
        config matches Some(p) ==> {
            &&& !config_probe.exists ==> (res matches Err(e) && e@ == config_missing_message(p@))
            &&& config_probe.exists && !config_probe.is_file ==> (res matches Err(e) && e@
                == config_not_file_message(p@))
            &&& config_probe.exists && config_probe.is_file ==> (res matches Ok(Some(a)) && a@
                == config_probe.absolute@)
        },
        config is None ==> (res matches Ok(found) && opt_text(found) == first_config_file(
            candidate_probes@,
        )),
{
    if let Some(path) = config {
        if !config_probe.exists {
            let mut message = String::new();
            message.append("Config file does not exist: ");
            message.append(path.as_str());
            proof {
                assert(Seq::<char>::empty() + "Config file does not exist: "@
                    == "Config file does not exist: "@);
            }
            return Err(message);
        }
        if !config_probe.is_file {
            let mut message = String::new();
            message.append("Config path is not a file: ");
            message.append(path.as_str());
            proof {
                assert(Seq::<char>::empty() + "Config path is not a file: "@
                    == "Config path is not a file: "@);
            }
            return Err(message);
        }
        return Ok(Some(config_probe.absolute.clone()));
    }
    let mut i: usize = 0;
    assert(candidate_probes@.skip(0) == candidate_probes@);
    while i < candidate_probes.len()
        invariant
            config is None,
            i <= candidate_probes.len(),
            first_config_file(candidate_probes@) == first_config_file(
                candidate_probes@.skip(i as int),
            ),
        decreases candidate_probes.len() - i,
    {
        proof {
            let rest = candidate_probes@.skip(i as int);
            assert(rest[0] == candidate_probes@[i as int]);
            assert(rest.drop_first() == candidate_probes@.skip(i + 1));
        }
        if candidate_probes[i].is_file {
            return Ok(Some(candidate_probes[i].absolute.clone()));
        }
        i = i + 1;
    }
    proof {
        assert(candidate_probes@.skip(i as int).len() == 0);
    }
    Ok(None)
}

} // verus!
