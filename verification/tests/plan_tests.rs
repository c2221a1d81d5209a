use terraform_plan_parser::cli::{app_settings, Cli, ConfigFile, SortBy};
use terraform_plan_parser::parser::{
    compare_plans, count_actions, filter_changes, has_fail_on_actions, parse_plan_output,
    plan_output_lines, sort_resource_changes, ChangeCounts, PlanChange, PlanLine, PlanResource,
    ResourceChange, ShowChange, ShowPlan, ShowResourceChange, TerraformInput,
};
use terraform_plan_parser::renderer::{
    csv_escape, render_csv, render_github_step_summary, render_json, render_summary_line,
    render_table, render_text,
};
use terraform_plan_parser::terraform::{render_dry_run, resolve_plan_file_input, PathProbe};

fn change(resource_type: &str, resource_name: &str, action: &str) -> ResourceChange {
    ResourceChange {
        resource_type: resource_type.to_string(),
        resource_name: resource_name.to_string(),
        action: action.to_string(),
    }
}

/// A plan line as `serde_json` decodes it from
/// `{"change":{"resource":{"resource_type":..,"resource_name":..},"action":..}}`.
fn line(resource: Option<(&str, &str)>, action: Option<&str>) -> Option<PlanLine> {
    Some(PlanLine {
        change: Some(PlanChange {
            resource: resource.map(|(t, n)| PlanResource {
                resource_type: t.to_string(),
                resource_name: n.to_string(),
            }),
            action: action.map(|a| a.to_string()),
        }),
    })
}

fn show_entry(resource_type: &str, name: &str, actions: &[&str]) -> ShowResourceChange {
    ShowResourceChange {
        resource_type: resource_type.to_string(),
        name: name.to_string(),
        change: ShowChange {
            actions: actions.iter().map(|a| a.to_string()).collect(),
        },
    }
}

/// The command line `terraform_plan_parser` with no option.
fn cli() -> Cli {
    Cli {
        directory: ".".to_string(),
        plan_file: None,
        config: None,
        output_file: None,
        format: None,
        no_emoji: false,
        dry_run: false,
        verbose: false,
        quiet: false,
        no_header: false,
        include_type: Vec::new(),
        exclude_type: Vec::new(),
        include_action: Vec::new(),
        only_delete: false,
        only_create: false,
        only_update: false,
        only_replace: false,
        exclude_action: Vec::new(),
        fail_on: Vec::new(),
        github_summary: false,
        sort_by: None,
        completions: None,
        compare: None,
    }
}

fn list(values: &str) -> Vec<String> {
    values.split(',').map(|v| v.to_string()).collect()
}

#[test]
fn parses_resource_changes_from_ndjson() {
    let stdout = r#"{"@level":"info","change":{"resource":{"resource_type":"aws_instance","resource_name":"web"},"action":"create"}}
not-json
{"@level":"info","change":{"resource":{"resource_type":"aws_s3_bucket","resource_name":"logs"},"action":"delete"}}
"#;
    assert_eq!(plan_output_lines(stdout).len(), 3);
    let decoded = vec![
        line(Some(("aws_instance", "web")), Some("create")),
        None,
        line(Some(("aws_s3_bucket", "logs")), Some("delete")),
    ];

    assert_eq!(
        parse_plan_output(stdout, None, &decoded),
        vec![
            change("aws_instance", "web", "create"),
            change("aws_s3_bucket", "logs", "delete"),
        ]
    );
}

#[test]
fn parses_saved_plan_json_output() {
    let stdout = r#"{
    "resource_changes": [
        {
            "type": "aws_instance",
            "name": "web",
            "change": { "actions": ["delete", "create"] }
        },
        {
            "type": "aws_s3_bucket",
            "name": "logs",
            "change": { "actions": ["no-op"] }
        }
    ]
}"#;
    let show = ShowPlan {
        resource_changes: Some(vec![
            show_entry("aws_instance", "web", &["delete", "create"]),
            show_entry("aws_s3_bucket", "logs", &["no-op"]),
        ]),
    };

    assert_eq!(
        parse_plan_output(stdout, Some(show), &Vec::new()),
        vec![change("aws_instance", "web", "replace")]
    );
}

#[test]
fn parses_single_ndjson_change_line_as_stream_output() {
    let stdout = r#"{"@level":"info","change":{"resource":{"resource_type":"google_compute_instance","resource_name":"piped"},"action":"delete"}}
"#;
    assert_eq!(plan_output_lines(stdout).len(), 1);
    let decoded = vec![line(Some(("google_compute_instance", "piped")), Some("delete"))];

    assert_eq!(
        parse_plan_output(stdout, None, &decoded),
        vec![change("google_compute_instance", "piped", "delete")]
    );
}

#[test]
fn ignores_lines_without_resource_changes() {
    let stdout = r#"{"@level":"info","message":"Refreshing state..."}
{"change":{"action":"create"}}
{"change":{"resource":{"resource_type":"aws_instance","resource_name":"web"}}}
"#;
    assert_eq!(plan_output_lines(stdout).len(), 3);
    let decoded = vec![
        Some(PlanLine { change: None }),
        line(None, Some("create")),
        line(Some(("aws_instance", "web")), None),
    ];

    assert_eq!(
        parse_plan_output(stdout, None, &decoded),
        vec![change("aws_instance", "web", "noop")]
    );
}

#[test]
fn filters_changes_by_type_and_action() {
    let mut cli = cli();
    cli.include_type = list("aws_instance,aws_s3_bucket");
    cli.exclude_type = list("aws_s3_bucket");
    cli.include_action = list("create");
    let changes = vec![
        change("aws_instance", "web", "create"),
        change("aws_s3_bucket", "logs", "create"),
        change("aws_instance", "old", "delete"),
    ];

    assert_eq!(
        filter_changes(changes, &app_settings(&cli, ConfigFile::default(), None)),
        vec![change("aws_instance", "web", "create")]
    );
}

#[test]
fn filters_resource_types_with_glob_patterns() {
    let mut cli = cli();
    cli.include_type = list("aws_*");
    cli.exclude_type = list("*-bucket,*_s3_bucket");
    let changes = vec![
        change("aws_instance", "web", "create"),
        change("aws_s3_bucket", "logs", "create"),
        change("google_compute_instance", "app", "create"),
    ];

    assert_eq!(
        filter_changes(changes, &app_settings(&cli, ConfigFile::default(), None)),
        vec![change("aws_instance", "web", "create")]
    );
}

#[test]
fn filters_actions_with_glob_patterns() {
    let mut cli = cli();
    cli.include_action = list("cre*");
    cli.exclude_action = list("*-before");
    let changes = vec![
        change("aws_instance", "web", "create"),
        change("aws_instance", "old", "create-before"),
        change("aws_s3_bucket", "logs", "delete"),
    ];

    assert_eq!(
        filter_changes(changes, &app_settings(&cli, ConfigFile::default(), None)),
        vec![change("aws_instance", "web", "create")]
    );
}

#[test]
fn filters_action_include_and_exclude_lists() {
    let mut cli = cli();
    cli.include_action = list("create,update,delete");
    cli.exclude_action = list("delete");
    let changes = vec![
        change("aws_instance", "web", "create"),
        change("aws_s3_bucket", "logs", "update"),
        change("aws_security_group", "old", "delete"),
        change("aws_iam_role", "reader", "read"),
    ];

    assert_eq!(
        filter_changes(changes, &app_settings(&cli, ConfigFile::default(), None)),
        vec![
            change("aws_instance", "web", "create"),
            change("aws_s3_bucket", "logs", "update"),
        ]
    );
}

#[test]
fn filters_only_update_actions() {
    let mut cli = cli();
    cli.include_action = list("update");
    let changes = vec![
        change("aws_instance", "web", "create"),
        change("aws_s3_bucket", "logs", "update"),
        change("aws_rds_cluster", "db", "delete"),
    ];

    assert_eq!(
        filter_changes(changes, &app_settings(&cli, ConfigFile::default(), None)),
        vec![change("aws_s3_bucket", "logs", "update")]
    );
}

#[test]
fn filters_only_delete_actions() {
    let mut cli = cli();
    cli.include_action = list("delete");
    let changes = vec![
        change("aws_instance", "web", "create"),
        change("aws_s3_bucket", "logs", "update"),
        change("aws_rds_cluster", "db", "delete"),
    ];

    assert_eq!(
        filter_changes(changes, &app_settings(&cli, ConfigFile::default(), None)),
        vec![change("aws_rds_cluster", "db", "delete")]
    );
}

#[test]
fn renders_dry_run_for_stdin_without_terraform_command() {
    let output = render_dry_run(&TerraformInput::StdinJson("{}".to_string()));

    assert_eq!(
        output,
        "Dry run: would read JSON Terraform plan data from stdin. No Terraform command would be executed.\n"
    );
}

#[test]
fn renders_csv_and_escapes_fields_that_need_quotes() {
    assert_eq!(csv_escape("plain"), "plain");
    assert_eq!(csv_escape("name,with,commas"), "\"name,with,commas\"");
    assert_eq!(csv_escape("name \"quoted\""), "\"name \"\"quoted\"\"\"");
    assert_eq!(
        render_csv(&[change("aws_instance", "web", "create")], false),
        "resource_type,resource_name,action\naws_instance,web,create\n"
    );
    assert_eq!(
        render_csv(&[change("aws_instance", "web", "create")], true),
        "aws_instance,web,create\n"
    );
}

#[test]
fn counts_actions_from_filtered_changes() {
    let changes = vec![
        change("aws_instance", "web", "create"),
        change("aws_s3_bucket", "logs", "update"),
        change("aws_rds_cluster", "db", "replace"),
    ];

    assert_eq!(
        count_actions(&changes),
        ChangeCounts {
            create: 2,
            update: 1,
            delete: 1,
        }
    );
    assert_eq!(
        render_summary_line(&count_actions(&changes), true),
        "Summary:\n + 2 to create\n ~ 1 to update\n - 1 to delete\n"
    );
}

#[test]
fn counts_create_delete_replacements_as_create_and_delete() {
    let changes = vec![change("aws_instance", "web", "create/delete")];

    assert_eq!(
        count_actions(&changes),
        ChangeCounts {
            create: 1,
            update: 0,
            delete: 1,
        }
    );
    assert_eq!(
        render_summary_line(&count_actions(&changes), true),
        "Summary:\n + 1 to create\n ~ 0 to update\n - 1 to delete\n"
    );
}

#[test]
fn preserves_create_delete_rendering_while_counting_summary_totals() {
    let stdout = r#"{
    "resource_changes": [
        {
            "type": "aws_instance",
            "name": "web",
            "change": { "actions": ["create", "delete"] }
        }
    ]
}"#;
    let show = ShowPlan {
        resource_changes: Some(vec![show_entry("aws_instance", "web", &["create", "delete"])]),
    };

    let changes = parse_plan_output(stdout, Some(show), &Vec::new());

    assert_eq!(changes, vec![change("aws_instance", "web", "create/delete")]);
    assert_eq!(
        count_actions(&changes),
        ChangeCounts {
            create: 1,
            update: 0,
            delete: 1,
        }
    );
}

#[test]
fn renders_summary_counts_in_text_output() {
    let changes = vec![
        change("aws_instance", "web", "create"),
        change("aws_s3_bucket", "logs", "update"),
    ];
    let counts = count_actions(&changes);
    let output = render_text(&changes, "/tmp/project", true, false, &counts);

    assert!(output.contains("aws_instance"));
    assert!(output.contains("Summary:"));
    assert!(output.contains("+ 1 to create"));
    assert!(output.contains("~ 1 to update"));
    assert!(output.contains("- 0 to delete"));
}

#[test]
fn hides_summary_counts_when_quiet() {
    let changes = vec![change("aws_instance", "web", "create")];
    let counts = count_actions(&changes);
    let output = render_text(&changes, "/tmp/project", true, true, &counts);

    assert!(!output.contains("Summary:"));
}

#[test]
fn renders_table_output() {
    let changes = [change("aws_instance", "web", "create")];
    let counts = count_actions(&changes);
    let output = render_table(&changes, "/tmp/project", true, false, &counts);

    assert!(output.contains("Resource Type"));
    assert!(output.contains("aws_instance"));
    assert!(output.contains("create"));
    assert!(output.contains("Summary:"));
    assert!(output.contains("+ 1 to create"));
}

#[test]
fn render_json_serializes_resource_changes() {
    let changes = vec![
        change("aws_instance", "web", "create"),
        change("aws_s3_bucket", "logs", "delete"),
    ];
    let output = render_json(&changes);
    assert!(output.contains(r#""resource_type": "aws_instance""#));
    assert!(output.contains(r#""action": "create""#));
    assert!(output.contains(r#""action": "delete""#));
}

#[test]
fn sorts_resource_changes_by_type() {
    let mut changes = vec![
        change("aws_s3_bucket", "logs", "update"),
        change("aws_instance", "web", "create"),
    ];
    sort_resource_changes(&mut changes, Some(SortBy::Type));
    assert_eq!(changes[0].resource_type, "aws_instance");
    assert_eq!(changes[1].resource_type, "aws_s3_bucket");
}

#[test]
fn only_delete_shorthand_sets_include_action() {
    let mut cli = cli();
    cli.only_delete = true;
    let settings = app_settings(&cli, ConfigFile::default(), None);
    assert_eq!(settings.include_action, vec!["delete".to_string()]);
}

#[test]
fn renders_dry_run_for_directory_without_loading_changes() {
    let output = render_dry_run(&TerraformInput::Directory("/tmp/project".to_string()));

    assert_eq!(
        output,
        "Dry run: would execute `terraform plan -json -input=false -no-color` in '/tmp/project'.\n"
    );
}

#[test]
fn renders_dry_run_for_binary_plan_file() {
    let output = render_dry_run(&TerraformInput::BinaryPlanFile(
        "/tmp/project/tfplan".to_string(),
    ));

    assert_eq!(
        output,
        "Dry run: would execute `terraform show -json /tmp/project/tfplan` in '/tmp/project'.\n"
    );
}

#[test]
fn renders_dry_run_for_json_plan_file_without_terraform_command() {
    let output = render_dry_run(&TerraformInput::JsonPlanFile(
        "/tmp/project/plan.json".to_string(),
    ));

    assert_eq!(
        output,
        "Dry run: would read JSON Terraform plan file '/tmp/project/plan.json'. No Terraform command would be executed.\n"
    );
}

#[test]
fn resolve_plan_file_input_reports_missing_file() {
    let probe = PathProbe {
        exists: false,
        absolute: "./missing-plan.json".to_string(),
        is_file: false,
        is_dir: false,
    };
    let error = resolve_plan_file_input("./missing-plan.json", &probe)
        .expect_err("missing plan file should fail");

    assert!(error.contains("plan file not found"));
    assert!(error.contains("./missing-plan.json"));
}

#[test]
fn fail_on_matches_delete_actions() {
    let changes = vec![
        change("aws_s3_bucket", "logs", "delete"),
        change("aws_instance", "web", "create"),
    ];
    assert!(has_fail_on_actions(&changes, &["delete".to_string()]));
    assert!(!has_fail_on_actions(&changes, &["update".to_string()]));
    assert!(has_fail_on_actions(
        &changes,
        &["delete".to_string(), "create".to_string()]
    ));
}

#[test]
fn renders_github_step_summary_markdown() {
    let changes = vec![change("aws_instance", "web", "create")];
    let counts = count_actions(&changes);
    let summary = render_github_step_summary("plan.ndjson", &changes, &counts, true);

    assert!(summary.contains("## Terraform plan summary"));
    assert!(summary.contains("**Plan:** `plan.ndjson`"));
    assert!(summary.contains("| + Create | 1 |"));
    assert!(summary.contains("| create | aws_instance | web |"));
}

#[test]
fn compare_plans_detects_added_resources() {
    let old = vec![change("aws_instance", "web", "create")];
    let new = vec![
        change("aws_instance", "web", "create"),
        change("aws_s3_bucket", "logs", "create"),
    ];

    let diff = compare_plans(&old, &new);
    assert_eq!(diff.added.len(), 1);
    assert_eq!(diff.added[0].resource_name, "logs");
    assert!(diff.removed.is_empty());
    assert!(diff.changed.is_empty());
}

#[test]
fn compare_plans_detects_removed_resources() {
    let old = vec![
        change("aws_instance", "web", "create"),
        change("aws_s3_bucket", "logs", "delete"),
    ];
    let new = vec![change("aws_instance", "web", "create")];

    let diff = compare_plans(&old, &new);
    assert!(diff.added.is_empty());
    assert_eq!(diff.removed.len(), 1);
    assert_eq!(diff.removed[0].resource_name, "logs");
    assert!(diff.changed.is_empty());
}

#[test]
fn compare_plans_detects_changed_actions() {
    let old = vec![change("aws_instance", "web", "create")];
    let new = vec![change("aws_instance", "web", "update")];

    let diff = compare_plans(&old, &new);
    assert!(diff.added.is_empty());
    assert!(diff.removed.is_empty());
    assert_eq!(diff.changed.len(), 1);
    assert_eq!(diff.changed[0].old_action, "create");
    assert_eq!(diff.changed[0].new_action, "update");
}

#[test]
fn compare_plans_empty_when_identical() {
    let old = vec![change("aws_instance", "web", "create")];
    let new = old.clone();

    let diff = compare_plans(&old, &new);
    assert!(diff.is_empty());
    assert_eq!(diff.total_changes(), 0);
}

#[test]
fn compare_plans_sorts_output_deterministically() {
    let old = vec![];
    let new = vec![
        change("aws_s3_bucket", "z_bucket", "create"),
        change("aws_instance", "a_instance", "create"),
    ];

    let diff = compare_plans(&old, &new);
    assert_eq!(diff.added[0].resource_type, "aws_instance");
    assert_eq!(diff.added[1].resource_type, "aws_s3_bucket");
}
