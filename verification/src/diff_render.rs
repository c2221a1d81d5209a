//! Rendering of a plan comparison as text, JSON, CSV or a table.
use vstd::prelude::*;

use crate::compare::{changed_view, ChangedResource, ChangedView, PlanDiff};
use crate::json_text::{json_quoted, json_string};
use crate::parser::{changes_view, ChangeView, Format, ResourceChange};
use crate::renderer::{byte_len, pad_right, spec_csv_escape};
use crate::text::{append_decimal, append_repeat, chars_of, decimal, owned, repeat_char};

verus! {

/// One row of a comparison: the kind of difference, the resource, and the old
/// and new actions (empty where a plan does not have the resource).
pub struct DiffRow {
    pub change_type: String,
    pub resource_type: String,
    pub resource_name: String,
    pub old_action: String,
    pub new_action: String,
}

/// The model of a [`DiffRow`].
pub struct DiffRowView {
    pub change_type: Seq<char>,
    pub resource_type: Seq<char>,
    pub resource_name: Seq<char>,
    pub old_action: Seq<char>,
    pub new_action: Seq<char>,
}

impl View for DiffRow {
    type V = DiffRowView;

    open spec fn view(&self) -> DiffRowView {
        DiffRowView {
            change_type: self.change_type@,
            resource_type: self.resource_type@,
            resource_name: self.resource_name@,
            old_action: self.old_action@,
            new_action: self.new_action@,
        }
    }
}

/// The row of an added resource: no old action.
pub open spec fn added_row(c: ChangeView) -> DiffRowView {
    DiffRowView {
        change_type: "added"@,
        resource_type: c.resource_type,
        resource_name: c.resource_name,
        old_action: Seq::empty(),
        new_action: c.action,
    }
}

/// The row of a removed resource: no new action.
pub open spec fn removed_row(c: ChangeView) -> DiffRowView {
    DiffRowView {
        change_type: "removed"@,
        resource_type: c.resource_type,
        resource_name: c.resource_name,
        old_action: c.action,
        new_action: Seq::empty(),
    }
}

/// The row of a resource whose action changed.
pub open spec fn changed_row(c: ChangedView) -> DiffRowView {
    DiffRowView {
        change_type: "changed"@,
        resource_type: c.resource_type,
        resource_name: c.resource_name,
        old_action: c.old_action,
        new_action: c.new_action,
    }
}

/// The rows of a comparison: the added resources, then the removed ones, then
/// the changed ones, each group in its list's order.
pub open spec fn spec_diff_rows(diff: PlanDiff) -> Seq<DiffRowView> {
    changes_view(diff.added@).map_values(|c: ChangeView| added_row(c)) + changes_view(
        diff.removed@,
    ).map_values(|c: ChangeView| removed_row(c)) + changed_view(diff.changed@).map_values(
        |c: ChangedView| changed_row(c),
    )
}

/// The models of a sequence of rows.
pub open spec fn rows_view(s: Seq<DiffRow>) -> Seq<DiffRowView> {
    s.map_values(|r: DiffRow| r@)
}

fn push_change_rows(rows: &mut Vec<DiffRow>, changes: &Vec<ResourceChange>, added: bool)
    ensures
        rows_view(final(rows)@) == rows_view(old(rows)@) + (if added {
            changes_view(changes@).map_values(|c: ChangeView| added_row(c))
        } else {
            changes_view(changes@).map_values(|c: ChangeView| removed_row(c))
        }),
{
    let ghost start = rows_view(rows@);
    let ghost target = if added {
        changes_view(changes@).map_values(|c: ChangeView| added_row(c))
    } else {
        changes_view(changes@).map_values(|c: ChangeView| removed_row(c))
    };
    let mut i: usize = 0;
    while i < changes.len()
        invariant
            i <= changes.len(),
            target == (if added {
                changes_view(changes@).map_values(|c: ChangeView| added_row(c))
            } else {
                changes_view(changes@).map_values(|c: ChangeView| removed_row(c))
            }),
            rows_view(rows@) == start + target.take(i as int),
        decreases changes.len() - i,
    {
        let c = &changes[i];
        let row = if added {
            DiffRow {
                change_type: owned("added"),
                resource_type: c.resource_type.clone(),
                resource_name: c.resource_name.clone(),
                old_action: String::new(),
                new_action: c.action.clone(),
            }
        } else {
            DiffRow {
                change_type: owned("removed"),
                resource_type: c.resource_type.clone(),
                resource_name: c.resource_name.clone(),
                old_action: c.action.clone(),
                new_action: String::new(),
            }
        };
        let ghost before = rows@;
        rows.push(row);
        proof {
            assert(rows_view(rows@) == rows_view(before).push(row@));
            assert(target.take(i + 1) == target.take(i as int).push(target[i as int]));
            assert(target[i as int] == row@);
        }
        i = i + 1;
    }
    assert(target.take(changes.len() as int) == target);
}

fn push_changed_rows(rows: &mut Vec<DiffRow>, changed: &Vec<ChangedResource>)
    ensures
        rows_view(final(rows)@) == rows_view(old(rows)@) + changed_view(changed@).map_values(
            |c: ChangedView| changed_row(c),
        ),
{
    let ghost start = rows_view(rows@);
    let ghost target = changed_view(changed@).map_values(|c: ChangedView| changed_row(c));
    let mut i: usize = 0;
    while i < changed.len()
        invariant
            i <= changed.len(),
            target == changed_view(changed@).map_values(|c: ChangedView| changed_row(c)),
            rows_view(rows@) == start + target.take(i as int),
        decreases changed.len() - i,
    {
        let c = &changed[i];
        let row = DiffRow {
            change_type: owned("changed"),
            resource_type: c.resource_type.clone(),
            resource_name: c.resource_name.clone(),
            old_action: c.old_action.clone(),
            new_action: c.new_action.clone(),
        };
        let ghost before = rows@;
        rows.push(row);
        proof {
            assert(rows_view(rows@) == rows_view(before).push(row@));
            assert(target.take(i + 1) == target.take(i as int).push(target[i as int]));
        }
        i = i + 1;
    }
    assert(target.take(changed.len() as int) == target);
}

/// The rows of a comparison (see [`spec_diff_rows`]).
pub fn diff_rows(diff: &PlanDiff) -> (res: Vec<DiffRow>)
    ensures
        rows_view(res@) == spec_diff_rows(*diff),
{
    let mut rows: Vec<DiffRow> = Vec::new();
    assert(rows_view(rows@) =~= Seq::<DiffRowView>::empty());
    push_change_rows(&mut rows, &diff.added, true);
    push_change_rows(&mut rows, &diff.removed, false);
    push_changed_rows(&mut rows, &diff.changed);
    proof {
        let a = changes_view(diff.added@).map_values(|c: ChangeView| added_row(c));
        assert(Seq::<DiffRowView>::empty() + a == a);
    }
    rows
}

/// One CSV record of a comparison row.
pub open spec fn diff_csv_row(r: DiffRowView) -> Seq<char> {
    spec_csv_escape(r.change_type) + ","@ + spec_csv_escape(r.resource_type) + ","@
        + spec_csv_escape(r.resource_name) + ","@ + spec_csv_escape(r.old_action) + ","@
        + spec_csv_escape(r.new_action) + "\n"@
}

/// The CSV records of comparison rows, in order.
pub open spec fn diff_csv_rows(s: Seq<DiffRowView>) -> Seq<char>
    decreases s.len(),
{
    if s.len() == 0 {
        Seq::empty()
    } else {
        diff_csv_rows(s.drop_last()) + diff_csv_row(s.last())
    }
}

/// CSV output of a comparison: a header record, then one record per row.
pub open spec fn spec_render_diff_csv(diff: PlanDiff) -> Seq<char> {
    "change_type,resource_type,resource_name,old_action,new_action\n"@ + diff_csv_rows(
        spec_diff_rows(diff),
    )
}

fn append_diff_csv_row(out: &mut String, r: &DiffRow)
    ensures
        final(out)@ == old(out)@ + diff_csv_row(r@),
{
    out.append(crate::renderer::csv_escape(r.change_type.as_str()).as_str());
    out.append(",");
    out.append(crate::renderer::csv_escape(r.resource_type.as_str()).as_str());
    out.append(",");
    out.append(crate::renderer::csv_escape(r.resource_name.as_str()).as_str());
    out.append(",");
    out.append(crate::renderer::csv_escape(r.old_action.as_str()).as_str());
    out.append(",");
    out.append(crate::renderer::csv_escape(r.new_action.as_str()).as_str());
    out.append("\n");
}

fn render_diff_csv(rows: &Vec<DiffRow>) -> (res: String)
    ensures
        res@ == "change_type,resource_type,resource_name,old_action,new_action\n"@ + diff_csv_rows(
            rows_view(rows@),
        ),
{
    let mut out = String::new();
    out.append("change_type,resource_type,resource_name,old_action,new_action\n");
    let ghost head = out@;
    let ghost all = rows_view(rows@);
    let mut i: usize = 0;
    while i < rows.len()
        invariant
            i <= rows.len(),
            all == rows_view(rows@),
            out@ == head + diff_csv_rows(all.take(i as int)),
        decreases rows.len() - i,
    {
        let r = &rows[i];
        append_diff_csv_row(&mut out, r);
        proof {
            assert(all.take(i + 1).drop_last() == all.take(i as int));
            assert(all.take(i + 1).last() == r@);
        }
        i = i + 1;
    }
    assert(all.take(rows.len() as int) == all);
    proof {
        assert(Seq::<char>::empty() + "change_type,resource_type,resource_name,old_action,new_action\n"@
            == "change_type,resource_type,resource_name,old_action,new_action\n"@);
    }
    out
}

/// The text of a row in a column of the comparison table.
pub open spec fn diff_cell(r: DiffRowView, column: int) -> Seq<char> {
    if column == 0 {
        r.change_type
    } else if column == 1 {
        r.resource_type
    } else if column == 2 {
        r.resource_name
    } else if column == 3 {
        r.old_action
    } else {
        r.new_action
    }
}

/// The byte length of a comparison table header: `Change`, `Resource Type`,
/// `Resource Name`, `Old Action`, `New Action`.
pub open spec fn diff_header_len(column: int) -> int {
    if column == 0 {
        6
    } else if column == 1 {
        13
    } else if column == 2 {
        13
    } else {
        10
    }
}

/// A comparison table column's width: the greatest byte length among its
/// header and its cells.
pub open spec fn diff_column_width(s: Seq<DiffRowView>, column: int) -> int
    decreases s.len(),
{
    if s.len() == 0 {
        diff_header_len(column)
    } else {
        let before = diff_column_width(s.drop_last(), column);
        let here = byte_len(diff_cell(s.last(), column));
        if here > before {
            here
        } else {
            before
        }
    }
}

/// One comparison table row: five padded cells, two spaces apart.
pub open spec fn diff_table_row(cells: Seq<Seq<char>>, widths: Seq<int>) -> Seq<char> {
    pad_right(cells[0], widths[0]) + "  "@ + pad_right(cells[1], widths[1]) + "  "@ + pad_right(
        cells[2],
        widths[2],
    ) + "  "@ + pad_right(cells[3], widths[3]) + "  "@ + pad_right(cells[4], widths[4]) + "\n"@
}

/// The cells of a row, in column order.
pub open spec fn diff_cells(r: DiffRowView) -> Seq<Seq<char>> {
    seq![r.change_type, r.resource_type, r.resource_name, r.old_action, r.new_action]
}

/// The rows of the comparison table, in order.
pub open spec fn diff_table_rows(s: Seq<DiffRowView>, widths: Seq<int>) -> Seq<char>
    decreases s.len(),
{
    if s.len() == 0 {
        Seq::empty()
    } else {
        diff_table_rows(s.drop_last(), widths) + diff_table_row(diff_cells(s.last()), widths)
    }
}

/// The widths of the five comparison table columns.
pub open spec fn diff_widths(s: Seq<DiffRowView>) -> Seq<int> {
    seq![
        diff_column_width(s, 0),
        diff_column_width(s, 1),
        diff_column_width(s, 2),
        diff_column_width(s, 3),
        diff_column_width(s, 4),
    ]
}

/// The rule under the comparison table's header: dashes as wide as each column.
pub open spec fn diff_rule(widths: Seq<int>) -> Seq<char> {
    repeat_char('-', widths[0] as nat) + "  "@ + repeat_char('-', widths[1] as nat) + "  "@
        + repeat_char('-', widths[2] as nat) + "  "@ + repeat_char('-', widths[3] as nat) + "  "@
        + repeat_char('-', widths[4] as nat) + "\n"@
}

/// Table output of a comparison: a title, a header row, a rule, and one row per
/// difference, each column as wide as its widest cell in bytes; or a single
/// line when the plans do not differ.
pub open spec fn spec_render_diff_table(rows: Seq<DiffRowView>) -> Seq<char> {
    if rows.len() == 0 {
        "No differences between the compared plans.\n"@
    } else {
        let w = diff_widths(rows);
        "Plan comparison:\n"@ + diff_table_row(
            seq!["Change"@, "Resource Type"@, "Resource Name"@, "Old Action"@, "New Action"@],
            w,
        ) + diff_rule(w) + diff_table_rows(rows, w)
    }
}

fn row_cell<'a>(r: &'a DiffRow, column: usize) -> (res: &'a str)
    ensures
        res@ == diff_cell(r@, column as int),
{
    if column == 0 {
        r.change_type.as_str()
    } else if column == 1 {
        r.resource_type.as_str()
    } else if column == 2 {
        r.resource_name.as_str()
    } else if column == 3 {
        r.old_action.as_str()
    } else {
        r.new_action.as_str()
    }
}

fn diff_width(rows: &Vec<DiffRow>, column: usize, header: usize) -> (res: usize)
    requires
        header == diff_header_len(column as int),
    ensures
        res == diff_column_width(rows_view(rows@), column as int),
{
    let ghost all = rows_view(rows@);
    let mut width = header;
    let mut i: usize = 0;
    while i < rows.len()
        invariant
            i <= rows.len(),
            all == rows_view(rows@),
            header == diff_header_len(column as int),
            width == diff_column_width(all.take(i as int), column as int),
        decreases rows.len() - i,
    {
        let len = row_cell(&rows[i], column).len();
        proof {
            assert(all.take(i + 1).drop_last() == all.take(i as int));
            assert(all.take(i + 1).last() == rows@[i as int]@);
        }
        if len > width {
            width = len;
        }
        i = i + 1;
    }
    assert(all.take(rows.len() as int) == all);
    width
}

fn append_padded_cell(out: &mut String, s: &str, width: usize)
    ensures
        final(out)@ == old(out)@ + pad_right(s@, width as int),
{
    let n = chars_of(s).len();
    out.append(s);
    if n < width {
        append_repeat(out, ' ', width - n);
    }
}

fn append_diff_table_row(out: &mut String, cells: [&str; 5], widths: [usize; 5])
    ensures
        final(out)@ == old(out)@ + diff_table_row(
            seq![cells[0]@, cells[1]@, cells[2]@, cells[3]@, cells[4]@],
            seq![
                widths[0] as int,
                widths[1] as int,
                widths[2] as int,
                widths[3] as int,
                widths[4] as int,
            ],
        ),
{
    append_padded_cell(out, cells[0], widths[0]);
    out.append("  ");
    append_padded_cell(out, cells[1], widths[1]);
    out.append("  ");
    append_padded_cell(out, cells[2], widths[2]);
    out.append("  ");
    append_padded_cell(out, cells[3], widths[3]);
    out.append("  ");
    append_padded_cell(out, cells[4], widths[4]);
    out.append("\n");
}

fn render_diff_table(rows: &Vec<DiffRow>) -> (res: String)
    ensures
        res@ == spec_render_diff_table(rows_view(rows@)),
{
    let mut out = String::new();
    if rows.len() == 0 {
        out.append("No differences between the compared plans.\n");
        proof {
            assert(Seq::<char>::empty() + "No differences between the compared plans.\n"@
                == "No differences between the compared plans.\n"@);
        }
        return out;
    }
    let ghost all = rows_view(rows@);
    let widths = [
        diff_width(rows, 0, 6),
        diff_width(rows, 1, 13),
        diff_width(rows, 2, 13),
        diff_width(rows, 3, 10),
        diff_width(rows, 4, 10),
    ];
    let ghost w = diff_widths(all);
    assert(seq![
        widths[0] as int,
        widths[1] as int,
        widths[2] as int,
        widths[3] as int,
        widths[4] as int,
    ] == w);
    out.append("Plan comparison:\n");
    proof {
        assert(Seq::<char>::empty() + "Plan comparison:\n"@ == "Plan comparison:\n"@);
    }
    append_diff_table_row(
        &mut out,
        ["Change", "Resource Type", "Resource Name", "Old Action", "New Action"],
        widths,
    );
    append_repeat(&mut out, '-', widths[0]);
    out.append("  ");
    append_repeat(&mut out, '-', widths[1]);
    out.append("  ");
    append_repeat(&mut out, '-', widths[2]);
    out.append("  ");
    append_repeat(&mut out, '-', widths[3]);
    out.append("  ");
    append_repeat(&mut out, '-', widths[4]);
    out.append("\n");
    let ghost head = out@;
    let mut i: usize = 0;
    while i < rows.len()
        invariant
            i <= rows.len(),
            all == rows_view(rows@),
            w == diff_widths(all),
            w == seq![
                widths[0] as int,
                widths[1] as int,
                widths[2] as int,
                widths[3] as int,
                widths[4] as int,
            ],
            out@ == head + diff_table_rows(all.take(i as int), w),
        decreases rows.len() - i,
    {
        let r = &rows[i];
        append_diff_table_row(
            &mut out,
            [
                r.change_type.as_str(),
                r.resource_type.as_str(),
                r.resource_name.as_str(),
                r.old_action.as_str(),
                r.new_action.as_str(),
            ],
            widths,
        );
        proof {
            assert(all.take(i + 1).drop_last() == all.take(i as int));
            assert(all.take(i + 1).last() == r@);
            assert(diff_cells(r@) == seq![
                r.change_type@,
                r.resource_type@,
                r.resource_name@,
                r.old_action@,
                r.new_action@,
            ]);
        }
        i = i + 1;
    }
    assert(all.take(rows.len() as int) == all);
    out
}

/// The line of one row in text output: a symbol for its kind, the resource,
/// and its action (both actions, old then new, for a changed resource).
pub open spec fn diff_text_line(r: DiffRowView, no_emoji: bool) -> Seq<char> {
    let symbol = if r.change_type == "added"@ {
        if no_emoji {
            "+ "@
        } else {
            "➕ "@
        }
    } else if r.change_type == "removed"@ {
        if no_emoji {
            "- "@
        } else {
            "➖ "@
        }
    } else {
        if no_emoji {
            "~ "@
        } else {
            "🔄 "@
        }
    };
    let detail = if r.change_type == "added"@ {
        r.new_action
    } else if r.change_type == "removed"@ {
        r.old_action
    } else {
        r.old_action + " -> "@ + r.new_action
    };
    symbol + r.resource_type + " "@ + r.resource_name + " ("@ + detail + ")\n"@
}

/// The text lines of comparison rows, in order.
pub open spec fn diff_text_lines(s: Seq<DiffRowView>, no_emoji: bool) -> Seq<char>
    decreases s.len(),
{
    if s.len() == 0 {
        Seq::empty()
    } else {
        diff_text_lines(s.drop_last(), no_emoji) + diff_text_line(s.last(), no_emoji)
    }
}

/// Text output of a comparison: one line per difference between a title and
/// the totals of each kind, or a single line when the plans do not differ.
pub open spec fn spec_render_diff_text(diff: PlanDiff, no_emoji: bool) -> Seq<char> {
    let rows = spec_diff_rows(diff);
    if rows.len() == 0 {
        (if no_emoji {
            Seq::empty()
        } else {
            "✅ "@
        }) + "No differences between the compared plans.\n"@
    } else {
        (if no_emoji {
            Seq::empty()
        } else {
            "📊 "@
        }) + "Plan comparison:\n"@ + diff_text_lines(rows, no_emoji) + "Diff summary: "@
            + decimal(diff.added@.len()) + " added, "@ + decimal(diff.removed@.len())
            + " removed, "@ + decimal(diff.changed@.len()) + " changed\n"@
    }
}

fn append_diff_text_line(out: &mut String, r: &DiffRow, no_emoji: bool)
    ensures
        final(out)@ == old(out)@ + diff_text_line(r@, no_emoji),
{
    let added = crate::text::text_eq(r.change_type.as_str(), "added");
    let removed = crate::text::text_eq(r.change_type.as_str(), "removed");
    let symbol = if added {
        if no_emoji {
            "+ "
        } else {
            "➕ "
        }
    } else if removed {
        if no_emoji {
            "- "
        } else {
            "➖ "
        }
    } else {
        if no_emoji {
            "~ "
        } else {
            "🔄 "
        }
    };
    out.append(symbol);
    out.append(r.resource_type.as_str());
    out.append(" ");
    out.append(r.resource_name.as_str());
    out.append(" (");
    if added {
        out.append(r.new_action.as_str());
    } else if removed {
        out.append(r.old_action.as_str());
    } else {
        out.append(r.old_action.as_str());
        out.append(" -> ");
        out.append(r.new_action.as_str());
    }
    out.append(")\n");
}

fn render_diff_text(diff: &PlanDiff, rows: &Vec<DiffRow>, no_emoji: bool) -> (res: String)
    requires
        rows_view(rows@) == spec_diff_rows(*diff),
    ensures
        res@ == spec_render_diff_text(*diff, no_emoji),
{
    let mut out = String::new();
    let ghost all = rows_view(rows@);
    if rows.len() == 0 {
        if !no_emoji {
            out.append("✅ ");
        }
        out.append("No differences between the compared plans.\n");
        proof {
            assert(Seq::<char>::empty() + "No differences between the compared plans.\n"@
                == "No differences between the compared plans.\n"@);
        }
        return out;
    }
    if !no_emoji {
        out.append("📊 ");
    }
    out.append("Plan comparison:\n");
    proof {
        assert(Seq::<char>::empty() + "Plan comparison:\n"@ == "Plan comparison:\n"@);
    }
    let ghost head = out@;
    let mut i: usize = 0;
    while i < rows.len()
        invariant
            i <= rows.len(),
            all == rows_view(rows@),
            out@ == head + diff_text_lines(all.take(i as int), no_emoji),
        decreases rows.len() - i,
    {
        let r = &rows[i];
        append_diff_text_line(&mut out, r, no_emoji);
        proof {
            assert(all.take(i + 1).drop_last() == all.take(i as int));
            assert(all.take(i + 1).last() == r@);
        }
        i = i + 1;
    }
    assert(all.take(rows.len() as int) == all);
    out.append("Diff summary: ");
    append_decimal(&mut out, diff.added.len());
    out.append(" added, ");
    append_decimal(&mut out, diff.removed.len());
    out.append(" removed, ");
    append_decimal(&mut out, diff.changed.len());
    out.append(" changed\n");
    out
}

/// A change as a pretty-printed JSON object at the nesting of a comparison list.
pub open spec fn diff_json_change(c: ChangeView) -> Seq<char> {
    "    {\n      \"resource_type\": "@ + json_quoted(c.resource_type)
        + ",\n      \"resource_name\": "@ + json_quoted(c.resource_name) + ",\n      \"action\": "@
        + json_quoted(c.action) + "\n    }"@
}

/// A changed resource as a pretty-printed JSON object at the nesting of a
/// comparison list.
pub open spec fn diff_json_changed(c: ChangedView) -> Seq<char> {
    "    {\n      \"resource_type\": "@ + json_quoted(c.resource_type)
        + ",\n      \"resource_name\": "@ + json_quoted(c.resource_name)
        + ",\n      \"old_action\": "@ + json_quoted(c.old_action) + ",\n      \"new_action\": "@
        + json_quoted(c.new_action) + "\n    }"@
}

/// JSON objects separated by a comma and a line break.
pub open spec fn join_objects(items: Seq<Seq<char>>) -> Seq<char>
    decreases items.len(),
{
    if items.len() == 0 {
        Seq::empty()
    } else if items.len() == 1 {
        items[0]
    } else {
        join_objects(items.drop_last()) + ",\n"@ + items.last()
    }
}

/// A pretty-printed JSON array of objects at the nesting of a comparison list.
pub open spec fn json_list(items: Seq<Seq<char>>) -> Seq<char> {
    if items.len() == 0 {
        "[]"@
    } else {
        "[\n"@ + join_objects(items) + "\n  ]"@
    }
}

/// JSON output of a comparison: an object with the `added`, `removed` and
/// `changed` lists, in the layout of `serde_json::to_string_pretty`, then a
/// line break.
pub open spec fn spec_render_diff_json(diff: PlanDiff) -> Seq<char> {
    "{\n  \"added\": "@ + json_list(
        changes_view(diff.added@).map_values(|c: ChangeView| diff_json_change(c)),
    ) + ",\n  \"removed\": "@ + json_list(
        changes_view(diff.removed@).map_values(|c: ChangeView| diff_json_change(c)),
    ) + ",\n  \"changed\": "@ + json_list(
        changed_view(diff.changed@).map_values(|c: ChangedView| diff_json_changed(c)),
    ) + "\n}\n"@
}

fn append_json_change(out: &mut String, c: &ResourceChange)
    ensures
        final(out)@ == old(out)@ + diff_json_change(c@),
{
    out.append("    {\n      \"resource_type\": ");
    out.append(json_string(c.resource_type.as_str()).as_str());
    out.append(",\n      \"resource_name\": ");
    out.append(json_string(c.resource_name.as_str()).as_str());
    out.append(",\n      \"action\": ");
    out.append(json_string(c.action.as_str()).as_str());
    out.append("\n    }");
}

fn append_json_changed(out: &mut String, c: &ChangedResource)
    ensures
        final(out)@ == old(out)@ + diff_json_changed(c@),
{
    out.append("    {\n      \"resource_type\": ");
    out.append(json_string(c.resource_type.as_str()).as_str());
    out.append(",\n      \"resource_name\": ");
    out.append(json_string(c.resource_name.as_str()).as_str());
    out.append(",\n      \"old_action\": ");
    out.append(json_string(c.old_action.as_str()).as_str());
    out.append(",\n      \"new_action\": ");
    out.append(json_string(c.new_action.as_str()).as_str());
    out.append("\n    }");
}

fn append_json_change_list(out: &mut String, changes: &Vec<ResourceChange>)
    ensures
        final(out)@ == old(out)@ + json_list(
            changes_view(changes@).map_values(|c: ChangeView| diff_json_change(c)),
        ),
{
    let ghost items = changes_view(changes@).map_values(|c: ChangeView| diff_json_change(c));
    if changes.len() == 0 {
        out.append("[]");
        return;
    }
    out.append("[\n");
    let ghost head = out@;
    let mut i: usize = 0;
    while i < changes.len()
        invariant
            i <= changes.len(),
            items == changes_view(changes@).map_values(|c: ChangeView| diff_json_change(c)),
            out@ == head + join_objects(items.take(i as int)),
        decreases changes.len() - i,
    {
        if i > 0 {
            out.append(",\n");
        }
        append_json_change(out, &changes[i]);
        proof {
            assert(items.take(i + 1).drop_last() == items.take(i as int));
            assert(items.take(i + 1).last() == diff_json_change(changes@[i as int]@));
            if i == 0 {
                assert(join_objects(items.take(0)) == Seq::<char>::empty());
            }
        }
        i = i + 1;
    }
    assert(items.take(changes.len() as int) == items);
    out.append("\n  ]");
}

fn append_json_changed_list(out: &mut String, changed: &Vec<ChangedResource>)
    ensures
        final(out)@ == old(out)@ + json_list(
            changed_view(changed@).map_values(|c: ChangedView| diff_json_changed(c)),
        ),
{
    let ghost items = changed_view(changed@).map_values(|c: ChangedView| diff_json_changed(c));
    if changed.len() == 0 {
        out.append("[]");
        return;
    }
    out.append("[\n");
    let ghost head = out@;
    let mut i: usize = 0;
    while i < changed.len()
        invariant
            i <= changed.len(),
            items == changed_view(changed@).map_values(|c: ChangedView| diff_json_changed(c)),
            out@ == head + join_objects(items.take(i as int)),
        decreases changed.len() - i,
    {
        if i > 0 {
            out.append(",\n");
        }
        append_json_changed(out, &changed[i]);
        proof {
            assert(items.take(i + 1).drop_last() == items.take(i as int));
            assert(items.take(i + 1).last() == diff_json_changed(changed@[i as int]@));
            if i == 0 {
                assert(join_objects(items.take(0)) == Seq::<char>::empty());
            }
        }
        i = i + 1;
    }
    assert(items.take(changed.len() as int) == items);
    out.append("\n  ]");
}

fn render_diff_json(diff: &PlanDiff) -> (res: String)
    ensures
        res@ == spec_render_diff_json(*diff),
{
    let mut out = String::new();
    out.append("{\n  \"added\": ");
    append_json_change_list(&mut out, &diff.added);
    out.append(",\n  \"removed\": ");
    append_json_change_list(&mut out, &diff.removed);
    out.append(",\n  \"changed\": ");
    append_json_changed_list(&mut out, &diff.changed);
    out.append("\n}\n");
    proof {
        assert(Seq::<char>::empty() + "{\n  \"added\": "@ == "{\n  \"added\": "@);
    }
    out
}

/// A comparison rendered in the chosen format.
pub open spec fn spec_render_diff(diff: PlanDiff, format: Format, no_emoji: bool) -> Seq<char> {
    match format {
        Format::Text => spec_render_diff_text(diff, no_emoji),
        Format::Json => spec_render_diff_json(diff),
        Format::Csv => spec_render_diff_csv(diff),
        Format::Table => spec_render_diff_table(spec_diff_rows(diff)),
    }
}

/// A comparison rendered in the chosen format (see [`spec_render_diff`]).
pub fn render_diff(diff: &PlanDiff, format: &Format, no_emoji: bool) -> (res: String)
    ensures
        res@ == spec_render_diff(*diff, *format, no_emoji),
{
    let rows = diff_rows(diff);
    match format {
        Format::Text => render_diff_text(diff, &rows, no_emoji),
        Format::Json => render_diff_json(diff),
        Format::Csv => render_diff_csv(&rows),
        Format::Table => render_diff_table(&rows),
    }
}

} // verus!
