use terraform_plan_parser::cli::{
    app_settings, dedup_paths, default_config_candidates, resolve_config_path,
    resolve_config_relative_path, Cli, ConfigFile, SortBy,
};
use terraform_plan_parser::compare::{compare_plans, ChangedResource, PlanDiff};
use terraform_plan_parser::parser::{
    action_from_show_actions, count_actions, filter_changes, has_fail_on_actions, matches_filter,
    matches_pattern,
    parse_plan_line, parse_plan_output, parse_show_plan_output, plan_output_lines,
    sort_resource_changes, ChangeCounts, Format, PlanChange, PlanLine, PlanResource,
    ResourceChange, ShowChange, ShowPlan, ShowResourceChange, TerraformInput,
};
use terraform_plan_parser::renderer::{
    csv_escape, render_changes, render_csv, render_diff, render_json, render_summary_line,
    render_text, should_write_github_summary, step_summary_action, step_summary_file_text,
    StepSummaryAction,
};
use terraform_plan_parser::terraform::{
    display_path, is_tfplan_file, render_dry_run, render_dry_run_in, resolve_input,
    resolve_plan_file_input, resolve_positional_input, terraform_plan_args, terraform_plan_result,
    terraform_show_args, terraform_show_directory, terraform_show_result, terraform_version_args,
    terraform_version_check, PathProbe,
};
use terraform_plan_parser::text::{is_blank, split_lines};

fn change(resource_type: &str, resource_name: &str, action: &str) -> ResourceChange {
    ResourceChange {
        resource_type: resource_type.to_string(),
        resource_name: resource_name.to_string(),
        action: action.to_string(),
    }
}

fn strings(values: &[&str]) -> Vec<String> {
    values.iter().map(|v| v.to_string()).collect()
}

fn options() -> Cli {
    Cli {
        directory: ".".to_string(),
        plan_file: None,
        config: None,
        output_file: None,
        format: None,
        no_emoji: false,
        dry_run: false,
        verbose: false,
        quiet: false,
        no_header: false,
        include_type: Vec::new(),
        exclude_type: Vec::new(),
        include_action: Vec::new(),
        only_delete: false,
        only_create: false,
        only_update: false,
        only_replace: false,
        exclude_action: Vec::new(),
        fail_on: Vec::new(),
        github_summary: false,
        sort_by: None,
        completions: None,
        compare: None,
    }
}

fn probe(exists: bool, absolute: &str, is_file: bool, is_dir: bool) -> PathProbe {
    PathProbe {
        exists,
        absolute: absolute.to_string(),
        is_file,
        is_dir,
    }
}

/// old: logs deleted, ci updated; new: web created, ci replaced.
fn sample_diff() -> PlanDiff {
    let old = vec![
        change("aws_s3_bucket", "logs", "delete"),
        change("aws_iam_role", "ci", "update"),
    ];
    let new = vec![
        change("aws_instance", "web", "create"),
        change("aws_iam_role", "ci", "replace"),
    ];
    compare_plans(&old, &new)
}

#[test]
fn comparing_a_plan_with_itself_finds_no_difference() {
    let plan = vec![
        change("aws_instance", "web", "create"),
        change("aws_s3_bucket", "logs", "delete"),
    ];
    let diff = compare_plans(&plan, &plan);
    assert!(diff.is_empty());
    assert_eq!(diff.total_changes(), 0);
}

#[test]
fn swapping_the_plans_swaps_added_and_removed() {
    let a = vec![change("a", "x", "create"), change("b", "y", "delete")];
    let b = vec![change("b", "y", "delete"), change("c", "z", "update")];
    let forward = compare_plans(&a, &b);
    let backward = compare_plans(&b, &a);
    assert_eq!(forward.added, vec![change("c", "z", "update")]);
    assert_eq!(forward.removed, vec![change("a", "x", "create")]);
    assert_eq!(forward.added, backward.removed);
    assert_eq!(forward.removed, backward.added);
    assert!(forward.changed.is_empty());
    assert_eq!(forward.total_changes(), 2);
}

#[test]
fn compare_uses_the_last_action_of_a_repeated_resource() {
    let old = vec![change("t", "n", "create"), change("t", "n", "delete")];
    let new = vec![change("t", "n", "delete")];
    assert!(compare_plans(&old, &new).is_empty());
    let newer = vec![change("t", "n", "update")];
    let diff = compare_plans(&old, &newer);
    assert_eq!(
        diff.changed,
        vec![ChangedResource {
            resource_type: "t".to_string(),
            resource_name: "n".to_string(),
            old_action: "delete".to_string(),
            new_action: "update".to_string(),
        }]
    );
}

#[test]
fn renders_comparison_as_csv() {
    assert_eq!(
        render_diff(&sample_diff(), &Format::Csv, false),
        "change_type,resource_type,resource_name,old_action,new_action\n\
         added,aws_instance,web,,create\n\
         removed,aws_s3_bucket,logs,delete,\n\
         changed,aws_iam_role,ci,update,replace\n"
    );
}

#[test]
fn renders_comparison_as_text() {
    assert_eq!(
        render_diff(&sample_diff(), &Format::Text, true),
        "Plan comparison:\n\
         + aws_instance web (create)\n\
         - aws_s3_bucket logs (delete)\n\
         ~ aws_iam_role ci (update -> replace)\n\
         Diff summary: 1 added, 1 removed, 1 changed\n"
    );
    let empty = compare_plans(&[], &[]);
    assert_eq!(
        render_diff(&empty, &Format::Text, false),
        "✅ No differences between the compared plans.\n"
    );
}

#[test]
fn renders_comparison_as_table() {
    let expected = "Plan comparison:\n".to_string()
        + "Change   Resource Type  Resource Name  Old Action  New Action\n"
        + "-------  -------------  -------------  ----------  ----------\n"
        + "added    aws_instance   web                        create    \n"
        + "removed  aws_s3_bucket  logs           delete                \n"
        + "changed  aws_iam_role   ci             update      replace   \n";
    assert_eq!(render_diff(&sample_diff(), &Format::Table, false), expected);
    let empty = compare_plans(&[], &[]);
    assert_eq!(
        render_diff(&empty, &Format::Table, false),
        "No differences between the compared plans.\n"
    );
}

#[test]
fn renders_comparison_as_json() {
    let expected = "{\n  \"added\": [\n    {\n      \"resource_type\": \"aws_instance\",\n      \"resource_name\": \"web\",\n      \"action\": \"create\"\n    }\n  ],\n  \"removed\": [\n    {\n      \"resource_type\": \"aws_s3_bucket\",\n      \"resource_name\": \"logs\",\n      \"action\": \"delete\"\n    }\n  ],\n  \"changed\": [\n    {\n      \"resource_type\": \"aws_iam_role\",\n      \"resource_name\": \"ci\",\n      \"old_action\": \"update\",\n      \"new_action\": \"replace\"\n    }\n  ]\n}\n";
    assert_eq!(render_diff(&sample_diff(), &Format::Json, false), expected);
    let empty = compare_plans(&[], &[]);
    assert_eq!(
        render_diff(&empty, &Format::Json, false),
        "{\n  \"added\": [],\n  \"removed\": [],\n  \"changed\": []\n}\n"
    );
}

#[test]
fn exclusion_wins_over_inclusion() {
    let mut cli = options();
    cli.include_type = strings(&["aws_*"]);
    cli.exclude_type = strings(&["aws_*"]);
    let settings = app_settings(&cli, ConfigFile::default(), None);
    let kept = filter_changes(vec![change("aws_instance", "web", "create")], &settings);
    assert!(kept.is_empty());
    assert!(!matches_filter("aws_instance", &strings(&["aws_*"]), &strings(&["aws_*"])));
}

#[test]
fn no_patterns_let_every_value_pass() {
    assert!(matches_filter("anything", &[], &[]));
    let settings = app_settings(&options(), ConfigFile::default(), None);
    let changes = vec![change("a", "x", "create"), change("b", "y", "weird")];
    assert_eq!(filter_changes(changes, &settings).len(), 2);
}

#[test]
fn filtering_twice_keeps_the_same_changes() {
    let mut cli = options();
    cli.include_action = strings(&["create", "delete"]);
    let settings = app_settings(&cli, ConfigFile::default(), None);
    let changes = vec![
        change("a", "x", "create"),
        change("b", "y", "update"),
        change("c", "z", "delete"),
    ];
    let once = filter_changes(changes, &settings);
    assert_eq!(once, vec![change("a", "x", "create"), change("c", "z", "delete")]);
    let twice = filter_changes(
        vec![change("a", "x", "create"), change("c", "z", "delete")],
        &settings,
    );
    assert_eq!(once, twice);
}

#[test]
fn matches_glob_patterns_through_the_glob_crate() {
    assert!(matches_pattern("aws_instance", "aws_*"));
    assert!(!matches_pattern("google_compute_instance", "aws_*"));
    assert!(matches_pattern("aws_instance", "*instance"));
    assert!(matches_pattern("update", "upd?te"));
    assert!(matches_pattern("delete", "delete"));
    assert!(!matches_pattern("deleted", "delete"));
}

#[test]
fn an_invalid_glob_pattern_matches_by_equality() {
    assert!(matches_pattern("[", "["));
    assert!(!matches_pattern("a", "["));
}

#[test]
fn counts_add_up_over_concatenated_lists() {
    let first = vec![change("a", "x", "create"), change("b", "y", "replace")];
    let second = vec![
        change("c", "z", "update"),
        change("d", "w", "delete"),
        change("e", "v", "create/delete"),
        change("f", "u", "read"),
    ];
    let mut all = vec![change("a", "x", "create"), change("b", "y", "replace")];
    all.extend(vec![
        change("c", "z", "update"),
        change("d", "w", "delete"),
        change("e", "v", "create/delete"),
        change("f", "u", "read"),
    ]);
    let a = count_actions(&first);
    let b = count_actions(&second);
    let total = count_actions(&all);
    assert_eq!(
        total,
        ChangeCounts {
            create: 3,
            update: 1,
            delete: 3,
        }
    );
    assert_eq!(total.create, a.create + b.create);
    assert_eq!(total.update, a.update + b.update);
    assert_eq!(total.delete, a.delete + b.delete);
}

#[test]
fn quiet_drops_only_the_summary() {
    let changes = vec![change("aws_instance", "web", "create")];
    let counts = count_actions(&changes);
    let loud = render_text(&changes, "/work", true, false, &counts);
    let quiet = render_text(&changes, "/work", true, true, &counts);
    assert_eq!(quiet, "Planned changes in '/work':\n+ aws_instance web (create)\n");
    assert_eq!(loud, quiet + &render_summary_line(&counts, true));
}

#[test]
fn no_header_drops_only_the_header() {
    let changes = vec![change("a", "x,y", "create")];
    let with_header = render_csv(&changes, false);
    let without = render_csv(&changes, true);
    assert_eq!(without, "a,\"x,y\",create\n");
    assert_eq!(with_header, "resource_type,resource_name,action\n".to_string() + &without);
}

#[test]
fn renders_summary_line_with_exact_totals() {
    let counts = ChangeCounts {
        create: 2,
        update: 0,
        delete: 11,
    };
    assert_eq!(
        render_summary_line(&counts, true),
        "Summary:\n + 2 to create\n ~ 0 to update\n - 11 to delete\n"
    );
}

#[test]
fn renders_empty_changes() {
    let counts = count_actions(&[]);
    assert_eq!(render_json(&[]), "[]\n");
    assert_eq!(render_csv(&[], true), "");
    assert_eq!(
        render_text(&[], "/work", true, true, &counts),
        "No resource changes detected in '/work'.\n"
    );
    assert_eq!(
        render_changes(&[], "/work", &Format::Table, true, true, false),
        "No resource changes detected in '/work'.\n"
    );
}

#[test]
fn render_json_escapes_quotes_and_backslashes() {
    let changes = vec![change("a\"b", "c\\d", "create")];
    assert_eq!(
        render_json(&changes),
        "[\n  {\n    \"resource_type\": \"a\\\"b\",\n    \"resource_name\": \"c\\\\d\",\n    \"action\": \"create\"\n  }\n]\n"
    );
}

#[test]
fn csv_escape_quotes_only_when_needed() {
    assert_eq!(csv_escape("plain"), "plain");
    assert_eq!(csv_escape("say \"hi\""), "\"say \"\"hi\"\"\"");
    assert_eq!(csv_escape("two\nlines"), "\"two\nlines\"");
    assert_eq!(csv_escape("cr\r"), "\"cr\r\"");
}

#[test]
fn dedup_keeps_each_path_once_in_first_order() {
    assert_eq!(
        dedup_paths(strings(&["/a/x.toml", "/b/x.toml", "/a/x.toml"])),
        strings(&["/a/x.toml", "/b/x.toml"])
    );
    assert!(dedup_paths(Vec::new()).is_empty());
}

#[test]
fn sorting_is_by_the_chosen_key_and_idempotent() {
    let mut changes = vec![
        change("b", "z", "create"),
        change("a", "y", "delete"),
        change("c", "y", "create"),
    ];
    sort_resource_changes(&mut changes, Some(SortBy::Name));
    let sorted = vec![
        change("a", "y", "delete"),
        change("c", "y", "create"),
        change("b", "z", "create"),
    ];
    assert_eq!(changes, sorted);
    sort_resource_changes(&mut changes, Some(SortBy::Name));
    assert_eq!(changes, sorted);
    sort_resource_changes(&mut changes, Some(SortBy::Action));
    assert_eq!(
        changes,
        vec![
            change("b", "z", "create"),
            change("c", "y", "create"),
            change("a", "y", "delete"),
        ]
    );
    sort_resource_changes(&mut changes, None);
    assert_eq!(changes[0], change("b", "z", "create"));
}

#[test]
fn show_actions_map_to_one_action() {
    assert_eq!(action_from_show_actions(&Vec::new()), None);
    assert_eq!(action_from_show_actions(&strings(&["no-op"])), None);
    assert_eq!(
        action_from_show_actions(&strings(&["update"])),
        Some("update".to_string())
    );
    assert_eq!(
        action_from_show_actions(&strings(&["delete", "create"])),
        Some("replace".to_string())
    );
    assert_eq!(
        action_from_show_actions(&strings(&["create", "delete"])),
        Some("create/delete".to_string())
    );
}

#[test]
fn show_plan_without_resource_changes_has_none() {
    assert!(parse_show_plan_output(ShowPlan {
        resource_changes: None
    })
    .is_empty());
    let plan = ShowPlan {
        resource_changes: Some(vec![ShowResourceChange {
            resource_type: "unknown".to_string(),
            name: "x".to_string(),
            change: ShowChange {
                actions: strings(&["read"]),
            },
        }]),
    };
    assert_eq!(parse_show_plan_output(plan), vec![change("unknown", "x", "read")]);
}

#[test]
fn a_plan_line_without_action_reads_as_noop() {
    let line = Some(PlanLine {
        change: Some(PlanChange {
            resource: Some(PlanResource {
                resource_type: "t".to_string(),
                resource_name: "n".to_string(),
            }),
            action: None,
        }),
    });
    assert_eq!(parse_plan_line(&line), Some(change("t", "n", "noop")));
    assert_eq!(parse_plan_line(&None), None);
}

#[test]
fn plan_output_lines_follow_str_lines() {
    assert_eq!(plan_output_lines("a\r\nb\n"), strings(&["a", "b"]));
    assert_eq!(split_lines("a\n\nb"), strings(&["a", "", "b"]));
    assert!(split_lines("").is_empty());
    assert_eq!(parse_plan_output("", None, &Vec::new()), Vec::new());
}

#[test]
fn blank_text_is_only_white_space() {
    assert!(is_blank(" \n\t\r"));
    assert!(is_blank(""));
    assert!(!is_blank("  {}"));
}

#[test]
fn recognises_saved_plan_files_by_extension() {
    assert!(is_tfplan_file("plan.tfplan"));
    assert!(is_tfplan_file("/work/dir/plan.tfplan"));
    assert!(!is_tfplan_file("plan.json"));
    assert!(!is_tfplan_file("tfplan"));
    assert!(!is_tfplan_file("plan.tfplan.json"));
}

#[test]
fn dry_run_of_a_saved_plan_names_its_directory() {
    let input = TerraformInput::BinaryPlanFile("/work/plans/prod.tfplan".to_string());
    assert_eq!(
        render_dry_run(&input),
        "Dry run: would execute `terraform show -json /work/plans/prod.tfplan` in '/work/plans'.\n"
    );
}

#[test]
fn plan_file_that_is_not_a_file_is_refused() {
    let result = resolve_plan_file_input("plans", &probe(true, "/work/plans", false, true));
    assert_eq!(
        result.unwrap_err(),
        "Error: --plan-file path is not a file: \"plans\"\nHint: pass a JSON/NDJSON plan file or a saved .tfplan file."
    );
}

#[test]
fn plan_file_resolves_by_extension() {
    match resolve_plan_file_input("p.tfplan", &probe(true, "/w/p.tfplan", true, false)) {
        Ok(TerraformInput::BinaryPlanFile(path)) => assert_eq!(path, "/w/p.tfplan"),
        other => panic!("unexpected {other:?}"),
    }
    match resolve_plan_file_input("p.json", &probe(true, "/w/p.json", true, false)) {
        Ok(TerraformInput::JsonPlanFile(path)) => assert_eq!(path, "/w/p.json"),
        other => panic!("unexpected {other:?}"),
    }
}

#[test]
fn positional_path_errors_and_inputs() {
    assert_eq!(
        resolve_positional_input("missing", &probe(false, "missing", false, false)).unwrap_err(),
        "Path does not exist: missing"
    );
    assert_eq!(
        resolve_positional_input("notes.txt", &probe(true, "/w/notes.txt", true, false))
            .unwrap_err(),
        "Path is not a directory or .tfplan file: notes.txt"
    );
    match resolve_positional_input(".", &probe(true, "/w", false, true)) {
        Ok(TerraformInput::Directory(path)) => assert_eq!(path, "/w"),
        other => panic!("unexpected {other:?}"),
    }
    match resolve_positional_input("p.tfplan", &probe(true, "/w/p.tfplan", true, false)) {
        Ok(TerraformInput::BinaryPlanFile(path)) => assert_eq!(path, "/w/p.tfplan"),
        other => panic!("unexpected {other:?}"),
    }
}

#[test]
fn compare_with_a_missing_path_is_refused() {
    let none = probe(false, "", false, false);
    let compare = Some(strings(&["old.json", "new.json"]));
    let probes = vec![probe(true, "/w/old.json", true, false), none];
    let result = resolve_input(
        &None,
        ".",
        &compare,
        None,
        &probe(false, "", false, false),
        &probe(true, "/w", false, true),
        &probes,
    );
    assert_eq!(result.unwrap_err(), "Path does not exist: new.json");
}

#[test]
fn input_precedence_is_compare_then_stdin_then_plan_file() {
    let dir = probe(true, "/w", false, true);
    let file = probe(true, "/w/p.json", true, false);
    let compare = Some(strings(&["a.json", "b.json"]));
    let probes = vec![
        probe(true, "/w/a.json", true, false),
        probe(true, "/w/b.json", true, false),
    ];
    match resolve_input(
        &Some("p.json".to_string()),
        ".",
        &compare,
        Some("{}".to_string()),
        &file,
        &dir,
        &probes,
    ) {
        Ok(TerraformInput::Compare { old, new }) => {
            assert_eq!(old, "/w/a.json");
            assert_eq!(new, "/w/b.json");
        }
        other => panic!("unexpected {other:?}"),
    }
    match resolve_input(
        &Some("p.json".to_string()),
        ".",
        &None,
        Some("{}".to_string()),
        &file,
        &dir,
        &Vec::new(),
    ) {
        Ok(TerraformInput::StdinJson(contents)) => assert_eq!(contents, "{}"),
        other => panic!("unexpected {other:?}"),
    }
    match resolve_input(&Some("p.json".to_string()), ".", &None, None, &file, &dir, &Vec::new()) {
        Ok(TerraformInput::JsonPlanFile(path)) => assert_eq!(path, "/w/p.json"),
        other => panic!("unexpected {other:?}"),
    }
}

#[test]
fn config_paths_are_relative_to_the_config_file() {
    assert_eq!(
        resolve_config_relative_path(
            "out.txt".to_string(),
            Some("/etc/tpp/.terraform-plan-parser.toml".to_string())
        ),
        "/etc/tpp/out.txt"
    );
    assert_eq!(
        resolve_config_relative_path(
            "/abs/out.txt".to_string(),
            Some("/etc/tpp/.terraform-plan-parser.toml".to_string())
        ),
        "/abs/out.txt"
    );
    assert_eq!(resolve_config_relative_path("out.txt".to_string(), None), "out.txt");
}

#[test]
fn cli_values_take_precedence_over_config_values() {
    let mut cli = options();
    cli.fail_on = strings(&["delete"]);
    let mut config = ConfigFile::default();
    config.fail_on = strings(&["update"]);
    config.exclude_type = strings(&["aws_iam_*"]);
    config.format = Some(Format::Csv);
    config.output_file = Some("report.csv".to_string());
    let settings = app_settings(&cli, config, Some("/cfg/.terraform-plan-parser.toml".to_string()));
    assert_eq!(settings.fail_on, strings(&["delete"]));
    assert_eq!(settings.exclude_type, strings(&["aws_iam_*"]));
    assert_eq!(settings.format, Format::Csv);
    assert_eq!(settings.output_file, Some("/cfg/report.csv".to_string()));
}

#[test]
fn step_summary_text_separates_and_terminates() {
    assert_eq!(step_summary_file_text(true, "x"), "\nx\n");
    assert_eq!(step_summary_file_text(false, "x\n"), "x\n");
    assert_eq!(step_summary_action(false, false), StepSummaryAction::Skip);
    assert_eq!(
        step_summary_action(false, true),
        StepSummaryAction::WarnMissingVariable
    );
    assert_eq!(step_summary_action(true, false), StepSummaryAction::Append);
    assert!(should_write_github_summary(true, false));
    assert!(should_write_github_summary(false, true));
    assert!(!should_write_github_summary(false, false));
}

#[test]
fn only_inputs_that_run_terraform_require_it() {
    assert!(TerraformInput::Directory("/w".to_string()).requires_terraform());
    assert!(TerraformInput::BinaryPlanFile("/w/p.tfplan".to_string()).requires_terraform());
    assert!(!TerraformInput::JsonPlanFile("/w/p.json".to_string()).requires_terraform());
    assert!(!TerraformInput::StdinJson("{}".to_string()).requires_terraform());
}

#[test]
fn dry_run_of_a_plan_file_without_parent_runs_in_the_current_directory() {
    let input = TerraformInput::BinaryPlanFile("prod.tfplan".to_string());
    assert_eq!(
        render_dry_run(&input),
        "Dry run: would execute `terraform show -json prod.tfplan` in ''.\n"
    );
    assert_eq!(
        render_dry_run_in(&input, "."),
        "Dry run: would execute `terraform show -json prod.tfplan` in '.'.\n"
    );
}

#[test]
fn terraform_version_outcomes() {
    assert_eq!(terraform_version_check(Ok((true, "exit status: 0".to_string()))), Ok(()));
    assert_eq!(
        terraform_version_check(Ok((false, "exit status: 1".to_string()))),
        Err("Error: 'terraform version' failed with status exit status: 1.".to_string())
    );
    assert_eq!(
        terraform_version_check(Err("No such file or directory (os error 2)".to_string())),
        Err(
            "Error: 'terraform' not found in PATH or failed to execute: No such file or directory (os error 2)"
                .to_string()
        )
    );
}

#[test]
fn terraform_plan_outcomes() {
    let changes = vec![change("a", "x", "create")];
    assert_eq!(
        terraform_plan_result("/w", true, "", changes),
        Ok(vec![change("a", "x", "create")])
    );
    assert_eq!(
        terraform_plan_result("/w", false, "boom", vec![change("a", "x", "create")]),
        Err("Terraform plan failed in '/w':\nboom".to_string())
    );
}

#[test]
fn terraform_show_outcomes() {
    let plan = || ShowPlan {
        resource_changes: Some(vec![ShowResourceChange {
            resource_type: "aws_instance".to_string(),
            name: "web".to_string(),
            change: ShowChange {
                actions: strings(&["delete", "create"]),
            },
        }]),
    };
    assert_eq!(
        terraform_show_result("/w/p.tfplan", true, "", Ok(plan())),
        Ok(vec![change("aws_instance", "web", "replace")])
    );
    assert_eq!(
        terraform_show_result("/w/p.tfplan", false, "bad plan", Ok(plan())),
        Err("Terraform show failed for '/w/p.tfplan':\nbad plan".to_string())
    );
    assert_eq!(
        terraform_show_result("/w/p.tfplan", true, "", Err("EOF while parsing".to_string())),
        Err("Failed to parse terraform show JSON for '/w/p.tfplan': EOF while parsing".to_string())
    );
}

/// The two plans of the comparison scenarios, as decoded from their NDJSON lines.
fn compare_fixture_plans() -> (Vec<ResourceChange>, Vec<ResourceChange>) {
    let old_text = "{\"@level\":\"info\",\"change\":{\"resource\":{\"resource_type\":\"aws_s3_bucket\",\"resource_name\":\"logs\"},\"action\":\"read\"}}\n{\"@level\":\"info\",\"change\":{\"resource\":{\"resource_type\":\"aws_lambda_function\",\"resource_name\":\"worker\"},\"action\":\"create\"}}\n";
    let new_text = "{\"@level\":\"info\",\"change\":{\"resource\":{\"resource_type\":\"aws_iam_role\",\"resource_name\":\"reader\"},\"action\":\"replace\"}}\n{\"@level\":\"info\",\"change\":{\"resource\":{\"resource_type\":\"aws_lambda_function\",\"resource_name\":\"worker\"},\"action\":\"update\"}}\n";
    let decoded = |entries: &[(&str, &str, &str)]| -> Vec<Option<PlanLine>> {
        entries
            .iter()
            .map(|(t, n, a)| {
                Some(PlanLine {
                    change: Some(PlanChange {
                        resource: Some(PlanResource {
                            resource_type: t.to_string(),
                            resource_name: n.to_string(),
                        }),
                        action: Some(a.to_string()),
                    }),
                })
            })
            .collect()
    };
    let old = parse_plan_output(
        old_text,
        None,
        &decoded(&[("aws_s3_bucket", "logs", "read"), ("aws_lambda_function", "worker", "create")]),
    );
    let new = parse_plan_output(
        new_text,
        None,
        &decoded(&[("aws_iam_role", "reader", "replace"), ("aws_lambda_function", "worker", "update")]),
    );
    (old, new)
}

#[test]
fn compare_csv_uses_real_actions_for_all_row_types() {
    let (old, new) = compare_fixture_plans();
    let diff = compare_plans(&old, &new);
    assert_eq!(
        render_diff(&diff, &Format::Csv, false),
        "change_type,resource_type,resource_name,old_action,new_action\nadded,aws_iam_role,reader,,replace\nremoved,aws_s3_bucket,logs,read,\nchanged,aws_lambda_function,worker,create,update\n"
    );
}

#[test]
fn compare_table_places_real_actions_in_old_and_new_columns() {
    let (old, new) = compare_fixture_plans();
    let stdout = render_diff(&compare_plans(&old, &new), &Format::Table, true);
    let header = stdout
        .lines()
        .find(|line| line.contains("Old Action") && line.contains("New Action"))
        .expect("table header should contain action columns");
    let old_action_col = header.find("Old Action").expect("old action column");
    let new_action_col = header.find("New Action").expect("new action column");
    let added = stdout
        .lines()
        .find(|line| line.contains("aws_iam_role") && line.contains("reader"))
        .expect("added row should render");
    assert_eq!(added[old_action_col..new_action_col].trim(), "");
    assert_eq!(added[new_action_col..].trim(), "replace");
    let removed = stdout
        .lines()
        .find(|line| line.contains("aws_s3_bucket") && line.contains("logs"))
        .expect("removed row should render");
    assert_eq!(removed[old_action_col..new_action_col].trim(), "read");
    assert_eq!(removed[new_action_col..].trim(), "");
    let changed = stdout
        .lines()
        .find(|line| line.contains("aws_lambda_function") && line.contains("worker"))
        .expect("changed row should render");
    assert_eq!(changed[old_action_col..new_action_col].trim(), "create");
    assert_eq!(changed[new_action_col..].trim(), "update");
}

#[test]
fn fail_on_is_evaluated_after_filters() {
    let mut cli = options();
    cli.exclude_action = strings(&["delete"]);
    cli.fail_on = strings(&["delete"]);
    let settings = app_settings(&cli, ConfigFile::default(), None);
    let changes = vec![change("aws_s3_bucket", "logs", "delete"), change("a", "x", "create")];
    assert!(has_fail_on_actions(&changes, &settings.fail_on));
    let kept = filter_changes(changes, &settings);
    assert!(!has_fail_on_actions(&kept, &settings.fail_on));
}

#[test]
fn config_defaults_choose_format_and_filters() {
    let mut config = ConfigFile::default();
    config.plan_file = Some("plan.ndjson".to_string());
    config.format = Some(Format::Csv);
    config.include_type = strings(&["aws_*"]);
    config.exclude_action = strings(&["delete"]);
    let settings = app_settings(&options(), config, Some("/proj/.terraform-plan-parser.toml".to_string()));
    assert_eq!(settings.plan_file, Some("/proj/plan.ndjson".to_string()));
    let changes = vec![
        change("aws_instance", "web", "create"),
        change("aws_s3_bucket", "logs", "delete"),
    ];
    let kept = filter_changes(changes, &settings);
    assert_eq!(
        render_changes(&kept, "/proj", &settings.format, settings.no_emoji, settings.quiet, settings.no_header),
        "resource_type,resource_name,action\naws_instance,web,create\n"
    );
}

#[test]
fn quiet_tables_drop_only_the_summary() {
    let changes = vec![change("aws_instance", "web", "create")];
    let counts = count_actions(&changes);
    let loud = render_changes(&changes, "/w", &Format::Table, true, false, false);
    let quiet = render_changes(&changes, "/w", &Format::Table, true, true, false);
    assert_eq!(
        quiet,
        "Planned changes in '/w':\nResource Type  Resource Name  Action\n-------------  -------------  ------\naws_instance   web            create\n"
    );
    assert_eq!(loud, quiet + &render_summary_line(&counts, true));
}

#[test]
fn machine_formats_ignore_display_flags() {
    let changes = vec![change("aws_instance", "web", "create")];
    assert_eq!(
        render_changes(&changes, "/a", &Format::Json, true, true, true),
        render_changes(&changes, "/b", &Format::Json, false, false, false)
    );
    assert_eq!(
        render_changes(&changes, "/a", &Format::Csv, true, true, false),
        render_changes(&changes, "/b", &Format::Csv, false, false, false)
    );
}

#[test]
fn comparison_does_not_depend_on_entry_order() {
    let old = vec![
        change("b", "y", "create"),
        change("a", "x", "delete"),
        change("c", "z", "update"),
    ];
    let old_reordered = vec![
        change("c", "z", "update"),
        change("a", "x", "delete"),
        change("b", "y", "create"),
    ];
    let new = vec![change("d", "w", "create"), change("b", "y", "delete")];
    assert_eq!(compare_plans(&old, &new), compare_plans(&old_reordered, &new));
    let diff = compare_plans(&old, &new);
    assert_eq!(diff.removed, vec![change("a", "x", "delete"), change("c", "z", "update")]);
    assert_eq!(diff.added, vec![change("d", "w", "create")]);
    assert_eq!(diff.total_changes(), 4);
}

#[test]
fn config_candidates_are_the_current_and_input_directories() {
    let dir = probe(true, "/work/project", false, true);
    assert_eq!(
        default_config_candidates(Some("/home/me".to_string()), "/work/project", &dir),
        strings(&["/home/me/.terraform-plan-parser.toml", "/work/project/.terraform-plan-parser.toml"])
    );
    let file = probe(true, "/work/project/plan.ndjson", true, false);
    assert_eq!(
        default_config_candidates(Some("/work/project".to_string()), "/work/project/plan.ndjson", &file),
        strings(&["/work/project/.terraform-plan-parser.toml"])
    );
    let missing = probe(false, "nowhere", false, false);
    assert_eq!(
        default_config_candidates(None, "nowhere", &missing),
        Vec::<String>::new()
    );
}

#[test]
fn config_path_comes_from_the_option_or_the_first_candidate_file() {
    let none = probe(false, "", false, false);
    assert_eq!(
        resolve_config_path(&Some("c.toml".to_string()), &probe(false, "c.toml", false, false), &Vec::new()),
        Err("Config file does not exist: c.toml".to_string())
    );
    assert_eq!(
        resolve_config_path(&Some("dir".to_string()), &probe(true, "/w/dir", false, true), &Vec::new()),
        Err("Config path is not a file: dir".to_string())
    );
    assert_eq!(
        resolve_config_path(&Some("c.toml".to_string()), &probe(true, "/w/c.toml", true, false), &Vec::new()),
        Ok(Some("/w/c.toml".to_string()))
    );
    let candidates = vec![
        probe(false, "/home/me/.terraform-plan-parser.toml", false, false),
        probe(true, "/w/.terraform-plan-parser.toml", true, false),
    ];
    assert_eq!(
        resolve_config_path(&None, &none, &candidates),
        Ok(Some("/w/.terraform-plan-parser.toml".to_string()))
    );
    assert_eq!(resolve_config_path(&None, &none, &Vec::new()), Ok(None));
}

#[test]
fn terraform_commands_and_display_paths() {
    assert_eq!(terraform_plan_args(), strings(&["plan", "-json", "-input=false", "-no-color"]));
    assert_eq!(terraform_show_args("/w/p.tfplan"), strings(&["show", "-json", "/w/p.tfplan"]));
    assert_eq!(terraform_version_args(), strings(&["version"]));
    assert_eq!(terraform_show_directory("/w/plans/p.tfplan"), "/w/plans");
    assert_eq!(terraform_show_directory(""), ".");
    assert_eq!(display_path(&TerraformInput::StdinJson("{}".to_string())), "");
    assert_eq!(display_path(&TerraformInput::Directory("/w".to_string())), "/w");
    assert_eq!(
        display_path(&TerraformInput::Compare {
            old: "/w/a.json".to_string(),
            new: "/w/b.json".to_string()
        }),
        "/w/b.json"
    );
}

#[test]
fn filters_without_patterns_keep_text_with_backslashes() {
    let settings = app_settings(&options(), ConfigFile::default(), None);
    let changes = vec![change("a\\b", "x", "c\\d"), change("e", "y", "create")];
    assert_eq!(
        filter_changes(changes, &settings),
        vec![change("a\\b", "x", "c\\d"), change("e", "y", "create")]
    );
    assert!(matches_filter("a\\b", &[], &[]));
    assert!(!has_fail_on_actions(&[change("a", "x", "de\\lete")], &[]));
    assert!(!has_fail_on_actions(&[], &strings(&["delete"])));
}

#[test]
fn an_undecodable_line_between_two_parts_is_skipped() {
    let text = "{\"change\":{\"resource\":{\"resource_type\":\"a\",\"resource_name\":\"x\"},\"action\":\"create\"}}\nnot-json\n{\"change\":{\"resource\":{\"resource_type\":\"b\",\"resource_name\":\"y\"},\"action\":\"delete\"}}\n";
    assert_eq!(plan_output_lines(text).len(), 3);
    let decoded = |t: &str, n: &str, a: &str| {
        Some(PlanLine {
            change: Some(PlanChange {
                resource: Some(PlanResource {
                    resource_type: t.to_string(),
                    resource_name: n.to_string(),
                }),
                action: Some(a.to_string()),
            }),
        })
    };
    let lines = vec![decoded("a", "x", "create"), None, decoded("b", "y", "delete")];
    assert_eq!(
        parse_plan_output(text, None, &lines),
        vec![change("a", "x", "create"), change("b", "y", "delete")]
    );
}

#[test]
fn settings_read_config_paths_relative_to_the_config_file() {
    let mut config = ConfigFile::default();
    config.output_file = Some("out/report.csv".to_string());
    config.plan_file = Some("/abs/plan.json".to_string());
    let settings = app_settings(&options(), config, Some("/cfg/dir/.terraform-plan-parser.toml".to_string()));
    assert_eq!(settings.output_file, Some("/cfg/dir/out/report.csv".to_string()));
    assert_eq!(settings.plan_file, Some("/abs/plan.json".to_string()));
}
