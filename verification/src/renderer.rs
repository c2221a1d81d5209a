//! Rendering of resource changes: text, JSON, CSV, an aligned table, the
//! action summary and the Markdown step summary.
use vstd::prelude::*;

pub use crate::diff_render::render_diff;
use crate::json_text::{json_quoted, json_string};
use crate::parser::{changes_view, count_actions, counts_triple, ChangeCounts, ChangeView, Format, ResourceChange, spec_counts};
use crate::text::{append_decimal, append_repeat, chars_of, decimal, push_char, repeat_char, text_eq};

verus! {

/// The symbols that the summary puts before the create, update and delete totals.
pub open spec fn spec_summary_symbols(no_emoji: bool) -> (Seq<char>, Seq<char>, Seq<char>) {
    if no_emoji {
        ("+"@, "~"@, "-"@)
    } else {
        ("➕"@, "🔄"@, "➖"@)
    }
}

/// The create, update and delete symbols of the summary.
pub fn summary_action_symbols(no_emoji: bool) -> (res: (&'static str, &'static str, &'static str))
    ensures
        (res.0@, res.1@, res.2@) == spec_summary_symbols(no_emoji),
{
    if no_emoji {
        ("+", "~", "-")
    } else {
        ("➕", "🔄", "➖")
    }
}

/// The action summary: one line per total, after a `Summary:` line.
pub open spec fn spec_summary_line(counts: (int, int, int), no_emoji: bool) -> Seq<char> {
    let (c, u, d) = spec_summary_symbols(no_emoji);
    "Summary:\n "@ + c + " "@ + decimal(counts.0 as nat) + " to create\n "@ + u + " "@ + decimal(
        counts.1 as nat,
    ) + " to update\n "@ + d + " "@ + decimal(counts.2 as nat) + " to delete\n"@
}

/// The action summary of some counts (see [`spec_summary_line`]).
pub fn render_summary_line(counts: &ChangeCounts, no_emoji: bool) -> (res: String)
    ensures
        res@ == spec_summary_line(counts_triple(*counts), no_emoji),
{
    let (create_sym, update_sym, delete_sym) = summary_action_symbols(no_emoji);
    let mut out = String::new();
    out.append("Summary:\n ");
    out.append(create_sym);
    out.append(" ");
    append_decimal(&mut out, counts.create);
    out.append(" to create\n ");
    out.append(update_sym);
    out.append(" ");
    append_decimal(&mut out, counts.update);
    out.append(" to update\n ");
    out.append(delete_sym);
    out.append(" ");
    append_decimal(&mut out, counts.delete);
    out.append(" to delete\n");
    out
}

/// One row of the resource table of the step summary.
pub open spec fn spec_step_summary_row(c: ChangeView) -> Seq<char> {
    "| "@ + c.action + " | "@ + c.resource_type + " | "@ + c.resource_name + " |\n"@
}

/// The rows of the resource table of the step summary, in order.
pub open spec fn spec_step_summary_rows(s: Seq<ChangeView>) -> Seq<char>
    decreases s.len(),
{
    if s.len() == 0 {
        Seq::empty()
    } else {
        spec_step_summary_rows(s.drop_last()) + spec_step_summary_row(s.last())
    }
}

/// The Markdown step summary: a title, the plan path, a table of the totals,
/// and, when there are changes, a table of them.
pub open spec fn spec_github_step_summary(
    display_path: Seq<char>,
    changes: Seq<ChangeView>,
    counts: (int, int, int),
    no_emoji: bool,
) -> Seq<char> {
    let (c, u, d) = spec_summary_symbols(no_emoji);
    let head = "## Terraform plan summary\n\n**Plan:** `"@ + display_path + "`\n\n| | Count |\n| --- | ---: |\n| "@
        + c + " Create | "@ + decimal(counts.0 as nat) + " |\n| "@ + u + " Update | "@ + decimal(
        counts.1 as nat,
    ) + " |\n| "@ + d + " Delete | "@ + decimal(counts.2 as nat) + " |\n"@;
    if changes.len() == 0 {
        head
    } else {
        head + "\n### Resource changes\n\n| Action | Type | Name |\n| --- | --- | --- |\n"@
            + spec_step_summary_rows(changes)
    }
}

/// The Markdown step summary (see [`spec_github_step_summary`]).
pub fn render_github_step_summary(
    display_path: &str,
    resource_changes: &[ResourceChange],
    counts: &ChangeCounts,
    no_emoji: bool,
) -> (res: String)
    ensures
        res@ == spec_github_step_summary(
            display_path@,
            changes_view(resource_changes@),
            counts_triple(*counts),
            no_emoji,
        ),
{
    let (create_sym, update_sym, delete_sym) = summary_action_symbols(no_emoji);
    let mut out = String::new();
    out.append("## Terraform plan summary\n\n**Plan:** `");
    out.append(display_path);
    out.append("`\n\n| | Count |\n| --- | ---: |\n| ");
    out.append(create_sym);
    out.append(" Create | ");
    append_decimal(&mut out, counts.create);
    out.append(" |\n| ");
    out.append(update_sym);
    out.append(" Update | ");
    append_decimal(&mut out, counts.update);
    out.append(" |\n| ");
    out.append(delete_sym);
    out.append(" Delete | ");
    append_decimal(&mut out, counts.delete);
    out.append(" |\n");
    if resource_changes.len() > 0 {
        out.append("\n### Resource changes\n\n| Action | Type | Name |\n| --- | --- | --- |\n");
        let ghost head = out@;
        let ghost all = changes_view(resource_changes@);
        let mut i: usize = 0;
        while i < resource_changes.len()
            invariant
                i <= resource_changes.len(),
                all == changes_view(resource_changes@),
                out@ == head + spec_step_summary_rows(all.take(i as int)),
            decreases resource_changes.len() - i,
        {
            let change = &resource_changes[i];
            out.append("| ");
            out.append(change.action.as_str());
            out.append(" | ");
            out.append(change.resource_type.as_str());
            out.append(" | ");
            out.append(change.resource_name.as_str());
            out.append(" |\n");
            proof {
                assert(all.take(i + 1).drop_last() == all.take(i as int));
                assert(all.take(i + 1).last() == change@);
            }
            i = i + 1;
        }
        assert(all.take(resource_changes.len() as int) == all);
    }
    out
}

/// What the step summary file receives: a blank line first when the file
/// already holds text, then the summary, then a line break if the summary does
/// not end with one.
pub open spec fn spec_step_summary_file_text(file_has_text: bool, markdown: Seq<char>) -> Seq<char> {
    let lead = if file_has_text {
        "\n"@
    } else {
        Seq::empty()
    };
    let tail = if markdown.len() > 0 && markdown.last() == '\n' {
        Seq::empty()
    } else {
        "\n"@
    };
    lead + markdown + tail
}

/// The text to append to the step summary file (see [`spec_step_summary_file_text`]).
pub fn step_summary_file_text(file_has_text: bool, markdown: &str) -> (res: String)
    ensures
        res@ == spec_step_summary_file_text(file_has_text, markdown@),
{
    let mut out = String::new();
    if file_has_text {
        out.append("\n");
    }
    out.append(markdown);
    let chars = chars_of(markdown);
    if !(chars.len() > 0 && chars[chars.len() - 1] == '\n') {
        out.append("\n");
    }
    proof {
        assert(Seq::<char>::empty() + markdown@ == markdown@);
    }
    out
}

/// What to do about the step summary.
#[derive(Clone, Copy, Debug, PartialEq, Eq, Structural)]
pub enum StepSummaryAction {
    /// Nothing asks for a summary.
    Skip,
    /// `--github-summary` asks for one, but `GITHUB_STEP_SUMMARY` is unset: warn.
    WarnMissingVariable,
    /// Append the summary to the file that `GITHUB_STEP_SUMMARY` names.
    Append,
}

/// Whether a step summary is wanted: `GITHUB_STEP_SUMMARY` is set, or
/// `--github-summary` asks for it.
pub open spec fn spec_should_write_github_summary(variable_set: bool, github_summary: bool) -> bool {
    variable_set || github_summary
}

/// Whether a step summary is wanted (see [`spec_should_write_github_summary`]).
pub fn should_write_github_summary(variable_set: bool, github_summary: bool) -> (res: bool)
    ensures
        res == spec_should_write_github_summary(variable_set, github_summary),
{
    variable_set || github_summary
}

/// What to do about the step summary, given whether `GITHUB_STEP_SUMMARY` is
/// set and whether `--github-summary` asks for one: append when the variable
/// names a file; warn when only the flag asks; otherwise nothing.
pub fn step_summary_action(variable_set: bool, github_summary: bool) -> (res: StepSummaryAction)
    ensures
        res == (if !spec_should_write_github_summary(variable_set, github_summary) {
            StepSummaryAction::Skip
        } else if variable_set {
            StepSummaryAction::Append
        } else {
            StepSummaryAction::WarnMissingVariable
        }),
        res is Append ==> variable_set,
{
    if !should_write_github_summary(variable_set, github_summary) {
        StepSummaryAction::Skip
    } else if variable_set {
        StepSummaryAction::Append
    } else {
        StepSummaryAction::WarnMissingVariable
    }
}

/// The symbol before a change in text output.
pub open spec fn spec_text_symbol(action: Seq<char>, no_emoji: bool) -> Seq<char> {
    if no_emoji {
        if action == "create"@ {
            "+ "@
        } else if action == "update"@ {
            "~ "@
        } else if action == "delete"@ {
            "- "@
        } else if action == "read"@ {
            "? "@
        } else {
            "* "@
        }
    } else {
        if action == "create"@ {
            "➕ "@
        } else if action == "update"@ {
            "🔄 "@
        } else if action == "delete"@ {
            "➖ "@
        } else if action == "read"@ {
            "📖 "@
        } else {
            "• "@
        }
    }
}

fn text_symbol(action: &str, no_emoji: bool) -> (res: &'static str)
    ensures
        res@ == spec_text_symbol(action@, no_emoji),
{
    let create = text_eq(action, "create");
    let update = text_eq(action, "update");
    let delete = text_eq(action, "delete");
    let read = text_eq(action, "read");
    if no_emoji {
        if create {
            "+ "
        } else if update {
            "~ "
        } else if delete {
            "- "
        } else if read {
            "? "
        } else {
            "* "
        }
    } else {
        if create {
            "➕ "
        } else if update {
            "🔄 "
        } else if delete {
            "➖ "
        } else if read {
            "📖 "
        } else {
            "• "
        }
    }
}

/// One line of text output: symbol, type, name, and the action in parentheses.
pub open spec fn spec_text_line(c: ChangeView, no_emoji: bool) -> Seq<char> {
    spec_text_symbol(c.action, no_emoji) + c.resource_type + " "@ + c.resource_name + " ("@
        + c.action + ")\n"@
}

/// The lines of text output, in order.
pub open spec fn spec_text_lines(s: Seq<ChangeView>, no_emoji: bool) -> Seq<char>
    decreases s.len(),
{
    if s.len() == 0 {
        Seq::empty()
    } else {
        spec_text_lines(s.drop_last(), no_emoji) + spec_text_line(s.last(), no_emoji)
    }
}

/// The summary, unless quiet.
pub open spec fn spec_optional_summary(counts: (int, int, int), no_emoji: bool, quiet: bool) -> Seq<
    char,
> {
    if quiet {
        Seq::empty()
    } else {
        spec_summary_line(counts, no_emoji)
    }
}

/// Text output: a line that names the path (saying that nothing changes when
/// there is nothing), one line per change, and the summary unless quiet.
pub open spec fn spec_render_text(
    changes: Seq<ChangeView>,
    path: Seq<char>,
    no_emoji: bool,
    quiet: bool,
    counts: (int, int, int),
) -> Seq<char> {
    if changes.len() == 0 {
        let prefix = if no_emoji {
            Seq::empty()
        } else {
            "✅ "@
        };
        prefix + "No resource changes detected in '"@ + path + "'.\n"@ + spec_optional_summary(
            counts,
            no_emoji,
            quiet,
        )
    } else {
        let prefix = if no_emoji {
            Seq::empty()
        } else {
            "📊 "@
        };
        prefix + "Planned changes in '"@ + path + "':\n"@ + spec_text_lines(changes, no_emoji)
            + spec_optional_summary(counts, no_emoji, quiet)
    }
}

fn append_optional_summary(out: &mut String, counts: &ChangeCounts, no_emoji: bool, quiet: bool)
    ensures
        final(out)@ == old(out)@ + spec_optional_summary(counts_triple(*counts), no_emoji, quiet),
{
    if !quiet {
        let summary = render_summary_line(counts, no_emoji);
        out.append(summary.as_str());
    } else {
        assert(old(out)@ + Seq::<char>::empty() == old(out)@);
    }
}

/// Text output (see [`spec_render_text`]).
pub fn render_text(
    resource_changes: &[ResourceChange],
    abs_path: &str,
    no_emoji: bool,
    quiet: bool,
    counts: &ChangeCounts,
) -> (res: String)
    ensures
        res@ == spec_render_text(
            changes_view(resource_changes@),
            abs_path@,
            no_emoji,
            quiet,
            counts_triple(*counts),
        ),
{
    let mut out = String::new();
    if resource_changes.len() == 0 {
        if !no_emoji {
            out.append("✅ ");
        }
        out.append("No resource changes detected in '");
        out.append(abs_path);
        out.append("'.\n");
        append_optional_summary(&mut out, counts, no_emoji, quiet);
        proof {
            assert(Seq::<char>::empty() + "No resource changes detected in '"@
                == "No resource changes detected in '"@);
        }
        return out;
    }
    if !no_emoji {
        out.append("📊 ");
    }
    out.append("Planned changes in '");
    out.append(abs_path);
    out.append("':\n");
    proof {
        assert(Seq::<char>::empty() + "Planned changes in '"@ == "Planned changes in '"@);
    }
    let ghost head = out@;
    let ghost all = changes_view(resource_changes@);
    let mut i: usize = 0;
    while i < resource_changes.len()
        invariant
            i <= resource_changes.len(),
            all == changes_view(resource_changes@),
            out@ == head + spec_text_lines(all.take(i as int), no_emoji),
        decreases resource_changes.len() - i,
    {
        let change = &resource_changes[i];
        out.append(text_symbol(change.action.as_str(), no_emoji));
        out.append(change.resource_type.as_str());
        out.append(" ");
        out.append(change.resource_name.as_str());
        out.append(" (");
        out.append(change.action.as_str());
        out.append(")\n");
        proof {
            assert(all.take(i + 1).drop_last() == all.take(i as int));
            assert(all.take(i + 1).last() == change@);
        }
        i = i + 1;
    }
    assert(all.take(resource_changes.len() as int) == all);
    append_optional_summary(&mut out, counts, no_emoji, quiet);
    out
}

/// Whether a CSV field needs quotes: it holds a comma, a double quote, a line
/// feed or a carriage return.
pub open spec fn csv_needs_quotes(value: Seq<char>) -> bool {
    value.contains(',') || value.contains('"') || value.contains('\n') || value.contains('\r')
}

/// A text with each double quote doubled.
pub open spec fn double_quotes(value: Seq<char>) -> Seq<char>
    decreases value.len(),
{
    if value.len() == 0 {
        Seq::empty()
    } else {
        let before = double_quotes(value.drop_last());
        if value.last() == '"' {
            before + seq!['"', '"']
        } else {
            before.push(value.last())
        }
    }
}

/// A CSV field: quoted, with inner quotes doubled, when it needs quotes, and as
/// it is otherwise.
pub open spec fn spec_csv_escape(value: Seq<char>) -> Seq<char> {
    if csv_needs_quotes(value) {
        seq!['"'] + double_quotes(value) + seq!['"']
    } else {
        value
    }
}

/// Appends a CSV field to `out` (see [`spec_csv_escape`]).
fn append_csv_field(out: &mut String, value: &str)
    ensures
        final(out)@ == old(out)@ + spec_csv_escape(value@),
{
    let chars = chars_of(value);
    let mut needs = false;
    let mut i: usize = 0;
    while i < chars.len()
        invariant
            chars@ == value@,
            i <= chars.len(),
            needs <==> exists|k: int|
                0 <= k < i && (chars@[k] == ',' || chars@[k] == '"' || chars@[k] == '\n'
                    || chars@[k] == '\r'),
        decreases chars.len() - i,
    {
        let c = chars[i];
        if c == ',' || c == '"' || c == '\n' || c == '\r' {
            needs = true;
        }
        i = i + 1;
    }
    proof {
        if needs {
            let k = choose|k: int|
                0 <= k < chars.len() && (chars@[k] == ',' || chars@[k] == '"' || chars@[k] == '\n'
                    || chars@[k] == '\r');
            assert(value@[k] == chars@[k]);
        }
        if csv_needs_quotes(value@) {
            if value@.contains(',') {
                let k = choose|k: int| 0 <= k < value@.len() && value@[k] == ',';
                assert(chars@[k] == ',');
            } else if value@.contains('"') {
                let k = choose|k: int| 0 <= k < value@.len() && value@[k] == '"';
                assert(chars@[k] == '"');
            } else if value@.contains('\n') {
                let k = choose|k: int| 0 <= k < value@.len() && value@[k] == '\n';
                assert(chars@[k] == '\n');
            } else {
                let k = choose|k: int| 0 <= k < value@.len() && value@[k] == '\r';
                assert(chars@[k] == '\r');
            }
        }
    }
    if !needs {
        out.append(value);
        return;
    }
    push_char(out, '"');
    let ghost start = out@;
    let mut j: usize = 0;
    while j < chars.len()
        invariant
            chars@ == value@,
            j <= chars.len(),
            out@ == start + double_quotes(chars@.take(j as int)),
        decreases chars.len() - j,
    {
        let c = chars[j];
        if c == '"' {
            push_char(out, '"');
            push_char(out, '"');
        } else {
            push_char(out, c);
        }
        proof {
            assert(chars@.take(j + 1).drop_last() == chars@.take(j as int));
            assert(chars@.take(j + 1).last() == c);
        }
        j = j + 1;
    }
    assert(chars@.take(chars.len() as int) == chars@);
    push_char(out, '"');
}

/// A CSV field (see [`spec_csv_escape`]).
pub fn csv_escape(value: &str) -> (res: String)
    ensures
        res@ == spec_csv_escape(value@),
{
    let mut out = String::new();
    append_csv_field(&mut out, value);
    out
}

/// One CSV record: the three fields, escaped, separated by commas.
pub open spec fn spec_csv_row(c: ChangeView) -> Seq<char> {
    spec_csv_escape(c.resource_type) + ","@ + spec_csv_escape(c.resource_name) + ","@
        + spec_csv_escape(c.action) + "\n"@
}

/// The CSV records, in order.
pub open spec fn spec_csv_rows(s: Seq<ChangeView>) -> Seq<char>
    decreases s.len(),
{
    if s.len() == 0 {
        Seq::empty()
    } else {
        spec_csv_rows(s.drop_last()) + spec_csv_row(s.last())
    }
}

/// CSV output: the header record unless left out, then one record per change.
pub open spec fn spec_render_csv(changes: Seq<ChangeView>, no_header: bool) -> Seq<char> {
    let header = if no_header {
        Seq::empty()
    } else {
        "resource_type,resource_name,action\n"@
    };
    header + spec_csv_rows(changes)
}

/// CSV output (see [`spec_render_csv`]).
pub fn render_csv(resource_changes: &[ResourceChange], no_header: bool) -> (res: String)
    ensures
        res@ == spec_render_csv(changes_view(resource_changes@), no_header),
{
    let mut out = String::new();
    if !no_header {
        out.append("resource_type,resource_name,action\n");
    }
    let ghost head = out@;
    let ghost all = changes_view(resource_changes@);
    let mut i: usize = 0;
    while i < resource_changes.len()
        invariant
            i <= resource_changes.len(),
            all == changes_view(resource_changes@),
            out@ == head + spec_csv_rows(all.take(i as int)),
        decreases resource_changes.len() - i,
    {
        let change = &resource_changes[i];
        append_csv_field(&mut out, change.resource_type.as_str());
        out.append(",");
        append_csv_field(&mut out, change.resource_name.as_str());
        out.append(",");
        append_csv_field(&mut out, change.action.as_str());
        out.append("\n");
        proof {
            assert(all.take(i + 1).drop_last() == all.take(i as int));
            assert(all.take(i + 1).last() == change@);
        }
        i = i + 1;
    }
    assert(all.take(resource_changes.len() as int) == all);
    out
}

/// The length in bytes of a text's UTF-8 encoding, as `str::len` returns it.
pub open spec fn byte_len(s: Seq<char>) -> int {
    (vstd::utf8::encode_utf8(s).len() as usize) as int
}

/// The columns of the table.
pub enum Column {
    Type,
    Name,
    Action,
}

/// The text of a change in a column.
pub open spec fn column_text(c: ChangeView, column: Column) -> Seq<char> {
    match column {
        Column::Type => c.resource_type,
        Column::Name => c.resource_name,
        Column::Action => c.action,
    }
}

/// The byte length of a column's header: `Resource Type`, `Resource Name`, `Action`.
pub open spec fn header_len(column: Column) -> int {
    match column {
        Column::Type => 13,
        Column::Name => 13,
        Column::Action => 6,
    }
}

/// A column's width: the greatest byte length among its header and its texts.
pub open spec fn column_width(s: Seq<ChangeView>, column: Column) -> int
    decreases s.len(),
{
    if s.len() == 0 {
        header_len(column)
    } else {
        let before = column_width(s.drop_last(), column);
        let here = byte_len(column_text(s.last(), column));
        if here > before {
            here
        } else {
            before
        }
    }
}

/// A text padded with spaces on the right to `width` characters, as `{:width$}`
/// formats it (a longer text stays as it is).
pub open spec fn pad_right(s: Seq<char>, width: int) -> Seq<char> {
    if s.len() < width {
        s + repeat_char(' ', (width - s.len()) as nat)
    } else {
        s
    }
}

/// One table row: three padded cells, two spaces apart.
pub open spec fn table_row(
    a: Seq<char>,
    b: Seq<char>,
    c: Seq<char>,
    wa: int,
    wb: int,
    wc: int,
) -> Seq<char> {
    pad_right(a, wa) + "  "@ + pad_right(b, wb) + "  "@ + pad_right(c, wc) + "\n"@
}

/// The table rows of the changes, in order.
pub open spec fn table_rows(s: Seq<ChangeView>, wa: int, wb: int, wc: int) -> Seq<char>
    decreases s.len(),
{
    if s.len() == 0 {
        Seq::empty()
    } else {
        table_rows(s.drop_last(), wa, wb, wc) + table_row(
            s.last().resource_type,
            s.last().resource_name,
            s.last().action,
            wa,
            wb,
            wc,
        )
    }
}

/// Table output: as text output when there is nothing, and otherwise a header
/// row, a rule of dashes and one row per change, each column as wide as its
/// widest cell in bytes; then the summary unless quiet.
pub open spec fn spec_render_table(
    changes: Seq<ChangeView>,
    path: Seq<char>,
    no_emoji: bool,
    quiet: bool,
    counts: (int, int, int),
) -> Seq<char> {
    if changes.len() == 0 {
        "No resource changes detected in '"@ + path + "'.\n"@ + spec_optional_summary(
            counts,
            no_emoji,
            quiet,
        )
    } else {
        let wa = column_width(changes, Column::Type);
        let wb = column_width(changes, Column::Name);
        let wc = column_width(changes, Column::Action);
        "Planned changes in '"@ + path + "':\n"@ + table_row(
            "Resource Type"@,
            "Resource Name"@,
            "Action"@,
            wa,
            wb,
            wc,
        ) + repeat_char('-', wa as nat) + "  "@ + repeat_char('-', wb as nat) + "  "@
            + repeat_char('-', wc as nat) + "\n"@ + table_rows(changes, wa, wb, wc)
            + spec_optional_summary(counts, no_emoji, quiet)
    }
}

fn text_of<'a>(c: &'a ResourceChange, column: &Column) -> (res: &'a str)
    ensures
        res@ == column_text(c@, *column),
{
    match column {
        Column::Type => c.resource_type.as_str(),
        Column::Name => c.resource_name.as_str(),
        Column::Action => c.action.as_str(),
    }
}

fn width_of(resource_changes: &[ResourceChange], column: Column, header: usize) -> (res: usize)
    requires
        header == header_len(column),
    ensures
        res == column_width(changes_view(resource_changes@), column),
{
    let ghost all = changes_view(resource_changes@);
    let mut width = header;
    let mut i: usize = 0;
    while i < resource_changes.len()
        invariant
            i <= resource_changes.len(),
            all == changes_view(resource_changes@),
            width == column_width(all.take(i as int), column),
        decreases resource_changes.len() - i,
    {
        let len = text_of(&resource_changes[i], &column).len();
        proof {
            assert(all.take(i + 1).drop_last() == all.take(i as int));
            assert(all.take(i + 1).last() == resource_changes@[i as int]@);
        }
        if len > width {
            width = len;
        }
        i = i + 1;
    }
    assert(all.take(resource_changes.len() as int) == all);
    width
}

fn append_padded(out: &mut String, s: &str, width: usize)
    ensures
        final(out)@ == old(out)@ + pad_right(s@, width as int),
{
    let n = chars_of(s).len();
    out.append(s);
    if n < width {
        append_repeat(out, ' ', width - n);
    }
}

fn append_table_row(out: &mut String, a: &str, b: &str, c: &str, wa: usize, wb: usize, wc: usize)
    ensures
        final(out)@ == old(out)@ + table_row(a@, b@, c@, wa as int, wb as int, wc as int),
{
    append_padded(out, a, wa);
    out.append("  ");
    append_padded(out, b, wb);
    out.append("  ");
    append_padded(out, c, wc);
    out.append("\n");
}

/// Table output (see [`spec_render_table`]).
pub fn render_table(
    resource_changes: &[ResourceChange],
    abs_path: &str,
    no_emoji: bool,
    quiet: bool,
    counts: &ChangeCounts,
) -> (res: String)
    ensures
        res@ == spec_render_table(
            changes_view(resource_changes@),
            abs_path@,
            no_emoji,
            quiet,
            counts_triple(*counts),
        ),
{
    let mut out = String::new();
    if resource_changes.len() == 0 {
        out.append("No resource changes detected in '");
        out.append(abs_path);
        out.append("'.\n");
        append_optional_summary(&mut out, counts, no_emoji, quiet);
        proof {
            assert(Seq::<char>::empty() + "No resource changes detected in '"@
                == "No resource changes detected in '"@);
        }
        return out;
    }
    let type_width = width_of(resource_changes, Column::Type, 13);
    let name_width = width_of(resource_changes, Column::Name, 13);
    let action_width = width_of(resource_changes, Column::Action, 6);
    out.append("Planned changes in '");
    out.append(abs_path);
    out.append("':\n");
    proof {
        assert(Seq::<char>::empty() + "Planned changes in '"@ == "Planned changes in '"@);
    }
    append_table_row(
        &mut out,
        "Resource Type",
        "Resource Name",
        "Action",
        type_width,
        name_width,
        action_width,
    );
    append_repeat(&mut out, '-', type_width);
    out.append("  ");
    append_repeat(&mut out, '-', name_width);
    out.append("  ");
    append_repeat(&mut out, '-', action_width);
    out.append("\n");
    let ghost head = out@;
    let ghost all = changes_view(resource_changes@);
    let mut i: usize = 0;
    while i < resource_changes.len()
        invariant
            i <= resource_changes.len(),
            all == changes_view(resource_changes@),
            out@ == head + table_rows(all.take(i as int), type_width as int, name_width as int, action_width as int),
        decreases resource_changes.len() - i,
    {
        let change = &resource_changes[i];
        append_table_row(
            &mut out,
            change.resource_type.as_str(),
            change.resource_name.as_str(),
            change.action.as_str(),
            type_width,
            name_width,
            action_width,
        );
        proof {
            assert(all.take(i + 1).drop_last() == all.take(i as int));
            assert(all.take(i + 1).last() == change@);
        }
        i = i + 1;
    }
    assert(all.take(resource_changes.len() as int) == all);
    append_optional_summary(&mut out, counts, no_emoji, quiet);
    out
}

/// One change as a pretty-printed JSON object, indented as an array element.
pub open spec fn json_object(c: ChangeView) -> Seq<char> {
    "  {\n    \"resource_type\": "@ + json_quoted(c.resource_type) + ",\n    \"resource_name\": "@
        + json_quoted(c.resource_name) + ",\n    \"action\": "@ + json_quoted(c.action)
        + "\n  }"@
}

/// The JSON objects of the changes, separated by a comma and a line break.
pub open spec fn json_objects(s: Seq<ChangeView>) -> Seq<char>
    decreases s.len(),
{
    if s.len() == 0 {
        Seq::empty()
    } else if s.len() == 1 {
        json_object(s[0])
    } else {
        json_objects(s.drop_last()) + ",\n"@ + json_object(s.last())
    }
}

/// JSON output: the changes as a pretty-printed array of objects with the keys
/// `resource_type`, `resource_name` and `action`, in the layout of
/// `serde_json::to_string_pretty` (`[]` when empty), then a line break.
pub open spec fn spec_render_json(changes: Seq<ChangeView>) -> Seq<char> {
    if changes.len() == 0 {
        "[]\n"@
    } else {
        "[\n"@ + json_objects(changes) + "\n]\n"@
    }
}

/// JSON output (see [`spec_render_json`]).
pub fn render_json(resource_changes: &[ResourceChange]) -> (res: String)
    ensures
        res@ == spec_render_json(changes_view(resource_changes@)),
{
    let mut out = String::new();
    if resource_changes.len() == 0 {
        out.append("[]\n");
        return out;
    }
    out.append("[\n");
    let ghost head = out@;
    let ghost all = changes_view(resource_changes@);
    let mut i: usize = 0;
    while i < resource_changes.len()
        invariant
            i <= resource_changes.len(),
            all == changes_view(resource_changes@),
            out@ == head + json_objects(all.take(i as int)),
        decreases resource_changes.len() - i,
    {
        let change = &resource_changes[i];
        if i > 0 {
            out.append(",\n");
        }
        out.append("  {\n    \"resource_type\": ");
        out.append(json_string(change.resource_type.as_str()).as_str());
        out.append(",\n    \"resource_name\": ");
        out.append(json_string(change.resource_name.as_str()).as_str());
        out.append(",\n    \"action\": ");
        out.append(json_string(change.action.as_str()).as_str());
        out.append("\n  }");
        proof {
            assert(all.take(i + 1).drop_last() == all.take(i as int));
            assert(all.take(i + 1).last() == change@);
            if i == 0 {
                assert(all.take(1)[0] == change@);
                assert(json_objects(all.take(0)) == Seq::<char>::empty());
            }
        }
        i = i + 1;
    }
    assert(all.take(resource_changes.len() as int) == all);
    out.append("\n]\n");
    out
}

/// The output of a format (see the `spec_render_*` functions); text and table
/// output carry the totals of the changes.
pub open spec fn spec_render_changes(
    changes: Seq<ChangeView>,
    path: Seq<char>,
    format: Format,
    no_emoji: bool,
    quiet: bool,
    no_header: bool,
) -> Seq<char> {
    match format {
        Format::Text => spec_render_text(changes, path, no_emoji, quiet, spec_counts(changes)),
        Format::Json => spec_render_json(changes),
        Format::Csv => spec_render_csv(changes, no_header),
        Format::Table => spec_render_table(changes, path, no_emoji, quiet, spec_counts(changes)),
    }
}

/// The changes rendered in the chosen format (see [`spec_render_changes`]).
pub fn render_changes(
    resource_changes: &[ResourceChange],
    abs_path: &str,
    format: &Format,
    no_emoji: bool,
    quiet: bool,
    no_header: bool,
) -> (res: String)
    ensures
        res@ == spec_render_changes(
            changes_view(resource_changes@),
            abs_path@,
            *format,
            no_emoji,
            quiet,
            no_header,
        ),
{
    let counts = count_actions(resource_changes);
    match format {
        Format::Text => render_text(resource_changes, abs_path, no_emoji, quiet, &counts),
        Format::Json => render_json(resource_changes),
        Format::Csv => render_csv(resource_changes, no_header),
        Format::Table => render_table(resource_changes, abs_path, no_emoji, quiet, &counts),
    }
}

} // verus!
