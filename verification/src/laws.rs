//! Properties of the library as a whole, stated over the models that the
//! functions' contracts use.
use vstd::prelude::*;

use crate::compare::{
    action_changed, changed_view, is_changed_list, is_one_sided, is_plan_diff, last_action,
    last_index, lemma_last_index, pair_order, same_key, strictly_sorted, ChangedView, PlanDiff,
};
use crate::cli::{spec_dedup, AppSettings, SortBy};
use crate::parser::{
    changes_view, join_with, key_order, lemma_key_order_antisym, matches_any, sorted_by_key,
    spec_counts, spec_filter_changes, spec_keeps, spec_matches_filter, spec_plan_lines_changes,
    spec_plan_output_changes, spec_show_plan_changes, ChangeView, Format, PlanLine, ResourceChange, ShowPlan,
    TerraformInput,
};
use crate::diff_render::{diff_text_lines, spec_diff_rows, spec_render_diff_text};
use crate::renderer::{
    spec_github_step_summary, spec_render_changes, spec_render_csv, spec_render_table,
    spec_render_text, spec_step_summary_rows, spec_summary_line, spec_summary_symbols,
    spec_text_symbol,
};
use crate::terraform::{spec_plan_args, spec_render_dry_run, spec_show_args};
use crate::text::{
    contains_seq, decimal, is_white_space, leading_space_len, lemma_leading_space_len,
    lemma_lex_order_zero, lemma_text_lines_append, lemma_text_lines_line_first, lex_order,
    occurs_at, strip_cr, text_lines, trim_start_seq,
};

verus! {

/// Whether a resource has the same last action (or none) in both plans, for
/// every resource.
pub open spec fn same_last_actions(old: Seq<ChangeView>, new: Seq<ChangeView>) -> bool {
    forall|t: Seq<char>, n: Seq<char>| #[trigger] last_action(old, t, n) == last_action(new, t, n)
}

proof fn lemma_one_sided_empty_when_same(d: Seq<ChangeView>, from: Seq<ChangeView>, other: Seq<ChangeView>)
    requires
        is_one_sided(d, from, other),
        same_last_actions(from, other),
    ensures
        d.len() == 0,
{
    if d.len() > 0 {
        assert(last_action(from, d[0].resource_type, d[0].resource_name) == Some(d[0].action));
        assert(last_action(other, d[0].resource_type, d[0].resource_name) is None);
        assert(last_action(from, d[0].resource_type, d[0].resource_name) == last_action(
            other,
            d[0].resource_type,
            d[0].resource_name,
        ));
    }
}

proof fn lemma_changed_empty_when_same(d: Seq<ChangedView>, old: Seq<ChangeView>, new: Seq<ChangeView>)
    requires
        is_changed_list(d, old, new),
        same_last_actions(old, new),
    ensures
        d.len() == 0,
{
    if d.len() > 0 {
        assert(last_action(old, d[0].resource_type, d[0].resource_name) == last_action(
            new,
            d[0].resource_type,
            d[0].resource_name,
        ));
    }
}

/// A comparison is empty exactly when every resource has the same last action
/// in both plans (or is in neither): a plan compared with itself, or with the
/// same entries in another order or repeated, shows no difference, and any
/// added, removed or re-planned resource shows up.
pub proof fn law_diff_empty_iff_same_actions(diff: PlanDiff, old: Seq<ChangeView>, new: Seq<ChangeView>)
    requires
        is_plan_diff(diff, old, new),
    ensures
        (diff.added@.len() == 0 && diff.removed@.len() == 0 && diff.changed@.len() == 0)
            <==> same_last_actions(old, new),
{
    if same_last_actions(old, new) {
        assert forall|t: Seq<char>, n: Seq<char>| #[trigger] last_action(new, t, n) == last_action(old, t, n) by {
            assert(last_action(old, t, n) == last_action(new, t, n));
        }
        lemma_one_sided_empty_when_same(changes_view(diff.added@), new, old);
        lemma_one_sided_empty_when_same(changes_view(diff.removed@), old, new);
        lemma_changed_empty_when_same(changed_view(diff.changed@), old, new);
    }
    if diff.added@.len() == 0 && diff.removed@.len() == 0 && diff.changed@.len() == 0 {
        assert forall|t: Seq<char>, n: Seq<char>| #[trigger] last_action(old, t, n) == last_action(new, t, n) by {
            lemma_last_index(old, t, n);
            lemma_last_index(new, t, n);
            let io = last_index(old, t, n);
            let inew = last_index(new, t, n);
            if io >= 0 && inew < 0 {
                assert(old[io].resource_type == t && old[io].resource_name == n);
                assert(last_action(new, old[io].resource_type, old[io].resource_name) is None);
                assert(exists|i: int|
                    0 <= i < changes_view(diff.removed@).len() && same_key(
                        #[trigger] changes_view(diff.removed@)[i],
                        old[io].resource_type,
                        old[io].resource_name,
                    ));
            } else if io < 0 && inew >= 0 {
                assert(new[inew].resource_type == t && new[inew].resource_name == n);
                assert(last_action(old, new[inew].resource_type, new[inew].resource_name) is None);
                assert(exists|i: int|
                    0 <= i < changes_view(diff.added@).len() && same_key(
                        #[trigger] changes_view(diff.added@)[i],
                        new[inew].resource_type,
                        new[inew].resource_name,
                    ));
            } else if io >= 0 && inew >= 0 && last_action(old, t, n) != last_action(new, t, n) {
                assert(new[inew].resource_type == t && new[inew].resource_name == n);
                assert(action_changed(old, new, new[inew].resource_type, new[inew].resource_name));
                assert(exists|i: int|
                    0 <= i < changed_view(diff.changed@).len() && (#[trigger] changed_view(
                        diff.changed@,
                    )[i]).resource_type == new[inew].resource_type && changed_view(
                        diff.changed@,
                    )[i].resource_name == new[inew].resource_name);
            }
        }
    }
}

/// A plan compared with itself shows no difference.
pub proof fn law_compare_with_itself_is_empty(diff: PlanDiff, plan: Seq<ChangeView>)
    requires
        is_plan_diff(diff, plan, plan),
    ensures
        diff.added@.len() == 0,
        diff.removed@.len() == 0,
        diff.changed@.len() == 0,
{
    law_diff_empty_iff_same_actions(diff, plan, plan);
}

/// Whether `x` is an element of `s`.
pub open spec fn occurs_in(x: ChangeView, s: Seq<ChangeView>) -> bool {
    exists|j: int| 0 <= j < s.len() && s[j] == x
}

proof fn lemma_one_sided_members(
    d: Seq<ChangeView>,
    e: Seq<ChangeView>,
    from: Seq<ChangeView>,
    other: Seq<ChangeView>,
    i: int,
)
    requires
        is_one_sided(d, from, other),
        is_one_sided(e, from, other),
        0 <= i < d.len(),
    ensures
        occurs_in(d[i], e),
{
    let t = d[i].resource_type;
    let n = d[i].resource_name;
    lemma_last_index(from, t, n);
    let k = last_index(from, t, n);
    assert(last_action(from, t, n) == Some(d[i].action));
    assert(from[k].resource_type == t && from[k].resource_name == n);
    assert(last_action(other, from[k].resource_type, from[k].resource_name) is None);
    let j = choose|j: int|
        0 <= j < e.len() && same_key(#[trigger] e[j], from[k].resource_type, from[k].resource_name);
    assert(last_action(from, e[j].resource_type, e[j].resource_name) == Some(e[j].action));
    assert(e[j] == d[i]);
}

proof fn lemma_sorted_heads_equal(d: Seq<ChangeView>, e: Seq<ChangeView>)
    requires
        strictly_sorted(d),
        strictly_sorted(e),
        d.len() > 0,
        e.len() > 0,
        occurs_in(d[0], e),
        occurs_in(e[0], d),
    ensures
        d[0] == e[0],
{
    let j0 = choose|j: int| 0 <= j < e.len() && e[j] == d[0];
    let i0 = choose|i: int| 0 <= i < d.len() && d[i] == e[0];
    crate::compare::lemma_pair_order_antisym(
        d[0].resource_type,
        d[0].resource_name,
        e[0].resource_type,
        e[0].resource_name,
    );
    crate::compare::lemma_pair_order_antisym(
        e[0].resource_type,
        e[0].resource_name,
        e[0].resource_type,
        e[0].resource_name,
    );
    if j0 > 0 {
        assert(pair_order(e[0].resource_type, e[0].resource_name, e[j0].resource_type, e[j0].resource_name) < 0);
        if i0 > 0 {
            assert(pair_order(d[0].resource_type, d[0].resource_name, d[i0].resource_type, d[i0].resource_name) < 0);
        }
    }
}

proof fn lemma_sorted_tail_member(d: Seq<ChangeView>, e: Seq<ChangeView>, i: int)
    requires
        strictly_sorted(d),
        d.len() > 0,
        e.len() > 0,
        d[0] == e[0],
        1 <= i < d.len(),
        occurs_in(d[i], e),
    ensures
        occurs_in(d.drop_first()[i - 1], e.drop_first()),
{
    let j = choose|j: int| 0 <= j < e.len() && e[j] == d[i];
    assert(pair_order(d[0].resource_type, d[0].resource_name, d[i].resource_type, d[i].resource_name) < 0);
    crate::compare::lemma_pair_order_antisym(
        d[0].resource_type,
        d[0].resource_name,
        d[0].resource_type,
        d[0].resource_name,
    );
    assert(j != 0);
    assert(e.drop_first()[j - 1] == e[j]);
    assert(d.drop_first()[i - 1] == d[i]);
}

proof fn lemma_drop_first_sorted(d: Seq<ChangeView>)
    requires
        strictly_sorted(d),
        d.len() > 0,
    ensures
        strictly_sorted(d.drop_first()),
{
    let d1 = d.drop_first();
    assert forall|a: int, b: int| 0 <= a < b < d1.len() implies pair_order(
        #[trigger] d1[a].resource_type,
        d1[a].resource_name,
        #[trigger] d1[b].resource_type,
        d1[b].resource_name,
    ) < 0 by {
        assert(d1[a] == d[a + 1] && d1[b] == d[b + 1]);
    }
}

proof fn lemma_sorted_same_members_equal(d: Seq<ChangeView>, e: Seq<ChangeView>)
    requires
        strictly_sorted(d),
        strictly_sorted(e),
        forall|i: int| 0 <= i < d.len() ==> occurs_in(#[trigger] d[i], e),
        forall|j: int| 0 <= j < e.len() ==> occurs_in(#[trigger] e[j], d),
    ensures
        d == e,
    decreases d.len(),
{
    if d.len() == 0 {
        if e.len() > 0 {
            assert(occurs_in(e[0], d));
        }
        assert(d =~= e);
    } else if e.len() == 0 {
        assert(occurs_in(d[0], e));
    } else {
        assert(occurs_in(d[0], e));
        assert(occurs_in(e[0], d));
        lemma_sorted_heads_equal(d, e);
        let d1 = d.drop_first();
        let e1 = e.drop_first();
        assert forall|i: int| 0 <= i < d1.len() implies occurs_in(#[trigger] d1[i], e1) by {
            assert(occurs_in(d[i + 1], e));
            lemma_sorted_tail_member(d, e, i + 1);
        }
        assert forall|j: int| 0 <= j < e1.len() implies occurs_in(#[trigger] e1[j], d1) by {
            assert(occurs_in(e[j + 1], d));
            lemma_sorted_tail_member(e, d, j + 1);
        }
        lemma_drop_first_sorted(d);
        lemma_drop_first_sorted(e);
        lemma_sorted_same_members_equal(d1, e1);
        assert(d =~= seq![d[0]] + d1);
        assert(e =~= seq![e[0]] + e1);
    }
}

/// The one-sided lists of a comparison are determined by the plans: two lists
/// that both list exactly the resources of `from` missing from `other`, in
/// (type, name) order, are equal.
pub proof fn law_one_sided_list_is_unique(
    d: Seq<ChangeView>,
    e: Seq<ChangeView>,
    from: Seq<ChangeView>,
    other: Seq<ChangeView>,
)
    requires
        is_one_sided(d, from, other),
        is_one_sided(e, from, other),
    ensures
        d == e,
{
    assert forall|i: int| 0 <= i < d.len() implies occurs_in(#[trigger] d[i], e) by {
        lemma_one_sided_members(d, e, from, other, i);
    }
    assert forall|j: int| 0 <= j < e.len() implies occurs_in(#[trigger] e[j], d) by {
        lemma_one_sided_members(e, d, from, other, j);
    }
    lemma_sorted_same_members_equal(d, e);
}

/// The key and old action of a changed resource, as a change.
spec fn changed_key(c: ChangedView) -> ChangeView {
    ChangeView { resource_type: c.resource_type, resource_name: c.resource_name, action: c.old_action }
}

proof fn lemma_changed_members(
    d: Seq<ChangedView>,
    e: Seq<ChangedView>,
    old: Seq<ChangeView>,
    new: Seq<ChangeView>,
    i: int,
) -> (j: int)
    requires
        is_changed_list(d, old, new),
        is_changed_list(e, old, new),
        0 <= i < d.len(),
    ensures
        0 <= j < e.len(),
        e[j] == d[i],
{
    let t = d[i].resource_type;
    let n = d[i].resource_name;
    lemma_last_index(new, t, n);
    let k = last_index(new, t, n);
    assert(last_action(new, t, n) == Some(d[i].new_action));
    assert(new[k].resource_type == t && new[k].resource_name == n);
    assert(action_changed(old, new, new[k].resource_type, new[k].resource_name));
    let j = choose|j: int|
        0 <= j < e.len() && (#[trigger] e[j]).resource_type == new[k].resource_type
            && e[j].resource_name == new[k].resource_name;
    assert(last_action(old, e[j].resource_type, e[j].resource_name) == Some(e[j].old_action));
    assert(last_action(new, e[j].resource_type, e[j].resource_name) == Some(e[j].new_action));
    assert(e[j] == d[i]);
    j
}

/// The changed list of a comparison is determined by the plans: two lists
/// that both list exactly the resources whose last actions differ, with both
/// actions, in (type, name) order, are equal.
pub proof fn law_changed_list_is_unique(
    d: Seq<ChangedView>,
    e: Seq<ChangedView>,
    old: Seq<ChangeView>,
    new: Seq<ChangeView>,
)
    requires
        is_changed_list(d, old, new),
        is_changed_list(e, old, new),
    ensures
        d == e,
{
    let dk = d.map_values(|c: ChangedView| changed_key(c));
    let ek = e.map_values(|c: ChangedView| changed_key(c));
    assert(strictly_sorted(dk)) by {
        assert forall|a: int, b: int| 0 <= a < b < dk.len() implies pair_order(
            #[trigger] dk[a].resource_type,
            dk[a].resource_name,
            #[trigger] dk[b].resource_type,
            dk[b].resource_name,
        ) < 0 by {
            assert(dk[a] == changed_key(d[a]) && dk[b] == changed_key(d[b]));
        }
    }
    assert(strictly_sorted(ek)) by {
        assert forall|a: int, b: int| 0 <= a < b < ek.len() implies pair_order(
            #[trigger] ek[a].resource_type,
            ek[a].resource_name,
            #[trigger] ek[b].resource_type,
            ek[b].resource_name,
        ) < 0 by {
            assert(ek[a] == changed_key(e[a]) && ek[b] == changed_key(e[b]));
        }
    }
    assert forall|i: int| 0 <= i < dk.len() implies occurs_in(#[trigger] dk[i], ek) by {
        let j = lemma_changed_members(d, e, old, new, i);
        assert(ek[j] == dk[i]);
    }
    assert forall|j: int| 0 <= j < ek.len() implies occurs_in(#[trigger] ek[j], dk) by {
        let i = lemma_changed_members(e, d, old, new, j);
        assert(dk[i] == ek[j]);
    }
    lemma_sorted_same_members_equal(dk, ek);
    assert(d.len() == e.len()) by {
        assert(dk.len() == ek.len());
    }
    assert forall|i: int| 0 <= i < d.len() implies d[i] == e[i] by {
        assert(dk[i] == ek[i]);
        assert(changed_key(d[i]) == changed_key(e[i]));
        assert(last_action(new, d[i].resource_type, d[i].resource_name) == Some(d[i].new_action));
        assert(last_action(new, e[i].resource_type, e[i].resource_name) == Some(e[i].new_action));
    }
    assert(d =~= e);
}

/// A comparison is determined by the two plans: any two results that meet the
/// contract of `compare_plans` for the same plans list the same added, removed
/// and changed resources in the same order.
pub proof fn law_comparison_is_determined(
    first: PlanDiff,
    second: PlanDiff,
    old: Seq<ChangeView>,
    new: Seq<ChangeView>,
)
    requires
        is_plan_diff(first, old, new),
        is_plan_diff(second, old, new),
    ensures
        changes_view(first.added@) == changes_view(second.added@),
        changes_view(first.removed@) == changes_view(second.removed@),
        changed_view(first.changed@) == changed_view(second.changed@),
{
    law_one_sided_list_is_unique(changes_view(first.added@), changes_view(second.added@), new, old);
    law_one_sided_list_is_unique(changes_view(first.removed@), changes_view(second.removed@), old, new);
    law_changed_list_is_unique(changed_view(first.changed@), changed_view(second.changed@), old, new);
}

/// Comparing the other way round swaps the added and removed resources: what
/// the new plan adds over the old one is what the old plan loses against the new.
pub proof fn law_compare_swaps_added_and_removed(
    forward: PlanDiff,
    backward: PlanDiff,
    old: Seq<ChangeView>,
    new: Seq<ChangeView>,
)
    requires
        is_plan_diff(forward, old, new),
        is_plan_diff(backward, new, old),
    ensures
        changes_view(forward.added@) == changes_view(backward.removed@),
        changes_view(forward.removed@) == changes_view(backward.added@),
{
    law_one_sided_list_is_unique(changes_view(forward.added@), changes_view(backward.removed@), new, old);
    law_one_sided_list_is_unique(changes_view(forward.removed@), changes_view(backward.added@), old, new);
}

/// An exclusion pattern wins over any inclusion pattern: a value that an
/// exclusion pattern matches never passes the filter.
pub proof fn law_exclusion_wins(value: Seq<char>, inclusions: Seq<Seq<char>>, exclusions: Seq<Seq<char>>)
    requires
        matches_any(value, exclusions),
    ensures
        !spec_matches_filter(value, inclusions, exclusions),
{
}

/// Without patterns, every value passes the filter.
pub proof fn law_no_patterns_pass_all(value: Seq<char>)
    ensures
        spec_matches_filter(value, Seq::empty(), Seq::empty()),
{
}

/// Filtering keeps exactly the changes that pass the filters, in their order:
/// each kept change passes them, the result is no longer than the input, and
/// filtering the result again changes nothing.
pub proof fn law_filter_keeps_passing_changes(s: Seq<ResourceChange>, settings: AppSettings)
    ensures
        forall|i: int|
            0 <= i < spec_filter_changes(s, settings).len() ==> spec_keeps(
                (#[trigger] spec_filter_changes(s, settings)[i])@,
                settings,
            ),
        spec_filter_changes(s, settings).len() <= s.len(),
        spec_filter_changes(spec_filter_changes(s, settings), settings) == spec_filter_changes(
            s,
            settings,
        ),
    decreases s.len(),
{
    if s.len() > 0 {
        law_filter_keeps_passing_changes(s.drop_last(), settings);
        let before = spec_filter_changes(s.drop_last(), settings);
        if spec_keeps(s.last()@, settings) {
            let now = before.push(s.last());
            assert(now.drop_last() == before);
            assert(now.last() == s.last());
        }
    }
}

/// Totals add up: the totals of two lists of changes together are the sums of
/// their totals.
pub proof fn law_counts_add_up(a: Seq<ChangeView>, b: Seq<ChangeView>)
    ensures
        spec_counts(a + b) == (
            spec_counts(a).0 + spec_counts(b).0,
            spec_counts(a).1 + spec_counts(b).1,
            spec_counts(a).2 + spec_counts(b).2,
        ),
    decreases b.len(),
{
    if b.len() == 0 {
        assert(a + b == a);
    } else {
        law_counts_add_up(a, b.drop_last());
        assert((a + b).drop_last() == a + b.drop_last());
        assert((a + b).last() == b.last());
    }
}

/// Quiet text output is the full text output without the summary at its end.
pub proof fn law_quiet_drops_only_the_summary(
    changes: Seq<ChangeView>,
    path: Seq<char>,
    no_emoji: bool,
    counts: (int, int, int),
)
    ensures
        spec_render_text(changes, path, no_emoji, false, counts) == spec_render_text(
            changes,
            path,
            no_emoji,
            true,
            counts,
        ) + spec_summary_line(counts, no_emoji),
{
    let q = spec_render_text(changes, path, no_emoji, true, counts);
    assert(q + Seq::<char>::empty() == q);
    assert(q == q + Seq::<char>::empty());
}

/// Quiet table output is the full table output without the summary at its end.
pub proof fn law_quiet_drops_only_the_summary_in_tables(
    changes: Seq<ChangeView>,
    path: Seq<char>,
    no_emoji: bool,
    counts: (int, int, int),
)
    ensures
        spec_render_table(changes, path, no_emoji, false, counts) == spec_render_table(
            changes,
            path,
            no_emoji,
            true,
            counts,
        ) + spec_summary_line(counts, no_emoji),
{
    let q = spec_render_table(changes, path, no_emoji, true, counts);
    assert(q + Seq::<char>::empty() == q);
}

/// JSON and CSV output stay script-friendly: they do not depend on the path
/// shown, the emoji setting or `quiet`, and JSON not on `no_header` either.
pub proof fn law_machine_formats_ignore_display_flags(
    changes: Seq<ChangeView>,
    path1: Seq<char>,
    path2: Seq<char>,
    no_emoji1: bool,
    no_emoji2: bool,
    quiet1: bool,
    quiet2: bool,
    no_header1: bool,
    no_header2: bool,
)
    ensures
        spec_render_changes(changes, path1, Format::Json, no_emoji1, quiet1, no_header1)
            == spec_render_changes(changes, path2, Format::Json, no_emoji2, quiet2, no_header2),
        spec_render_changes(changes, path1, Format::Csv, no_emoji1, quiet1, no_header1)
            == spec_render_changes(changes, path2, Format::Csv, no_emoji2, quiet2, no_header1),
{
}

/// CSV output without the header is the CSV output minus its first line, the header.
pub proof fn law_no_header_drops_only_the_header(changes: Seq<ChangeView>)
    ensures
        spec_render_csv(changes, false) == "resource_type,resource_name,action\n"@
            + spec_render_csv(changes, true),
{
    assert(Seq::<char>::empty() + crate::renderer::spec_csv_rows(changes)
        == crate::renderer::spec_csv_rows(changes));
}

/// Deduplicated paths hold each input path exactly once.
pub proof fn law_dedup_keeps_each_path_once(paths: Seq<Seq<char>>)
    ensures
        forall|i: int, j: int|
            0 <= i < j < spec_dedup(paths).len() ==> spec_dedup(paths)[i] != spec_dedup(paths)[j],
        forall|x: Seq<char>| spec_dedup(paths).contains(x) <==> paths.contains(x),
    decreases paths.len(),
{
    if paths.len() > 0 {
        law_dedup_keeps_each_path_once(paths.drop_last());
        let before = spec_dedup(paths.drop_last());
        assert forall|x: Seq<char>| spec_dedup(paths).contains(x) <==> paths.contains(x) by {
            if paths.contains(x) {
                let k = choose|k: int| 0 <= k < paths.len() && paths[k] == x;
                if k < paths.len() - 1 {
                    assert(paths.drop_last()[k] == x);
                }
            }
            if paths.drop_last().contains(x) {
                let k = choose|k: int| 0 <= k < paths.drop_last().len() && paths.drop_last()[k] == x;
                assert(paths[k] == x);
            }
            if !before.contains(paths.last()) {
                let now = before.push(paths.last());
                if now.contains(x) {
                    let k = choose|k: int| 0 <= k < now.len() && now[k] == x;
                    if k < before.len() {
                        assert(before[k] == x);
                    }
                }
                if before.contains(x) {
                    let k = choose|k: int| 0 <= k < before.len() && before[k] == x;
                    assert(now[k] == x);
                }
                assert(now[before.len() as int] == paths.last());
            }
        }
        if !before.contains(paths.last()) {
            let now = before.push(paths.last());
            assert forall|i: int, j: int| 0 <= i < j < now.len() implies now[i] != now[j] by {
                if j == before.len() {
                    assert(now[i] == before[i]);
                } else {
                    assert(now[i] == before[i] && now[j] == before[j]);
                }
            }
        }
    }
}

proof fn lemma_sorted_prefix_equal(b: Seq<ResourceChange>, j: int, by: SortBy)
    requires
        sorted_by_key(b, by),
        0 <= j < b.len(),
        b[j]@ == b[0]@,
    ensures
        forall|k: int| 0 <= k <= j ==> (#[trigger] b[k])@ == b[0]@,
{
    assert forall|k: int| 0 <= k <= j implies (#[trigger] b[k])@ == b[0]@ by {
        if 0 < k && k < j {
            assert(key_order(b[0]@, b[k]@, by) <= 0);
            assert(key_order(b[k]@, b[j]@, by) <= 0);
            lemma_key_order_antisym(b[k]@, b[0]@, by);
        } else if k == j {
        }
    }
}

proof fn lemma_remove_keeps_sorted(b: Seq<ResourceChange>, j: int, by: SortBy)
    requires
        sorted_by_key(b, by),
        0 <= j < b.len(),
    ensures
        sorted_by_key(b.remove(j), by),
{
    let r = b.remove(j);
    assert forall|x: int, y: int| 0 <= x < y < r.len() implies key_order(#[trigger] r[x]@, #[trigger] r[y]@, by) <= 0 by {
        let bx = if x < j { x } else { x + 1 };
        let byy = if y < j { y } else { y + 1 };
        assert(r[x] == b[bx]);
        assert(r[y] == b[byy]);
        assert(bx < byy);
    }
}

/// Sorting fixes the order completely: two sequences that both hold the same
/// changes and are both in key order show the same changes in the same order.
/// So the contract of `sort_resource_changes` (same changes, key order)
/// determines what it shows, and sorting a sorted list changes nothing of it.
pub proof fn law_sorted_order_is_unique(a: Seq<ResourceChange>, b: Seq<ResourceChange>, by: SortBy)
    requires
        sorted_by_key(a, by),
        sorted_by_key(b, by),
        a.to_multiset() == b.to_multiset(),
    ensures
        changes_view(a) == changes_view(b),
    decreases a.len(),
{
    broadcast use vstd::seq_lib::group_to_multiset_ensures;

    if a.len() == 0 {
        assert(b.to_multiset().len() == 0);
        assert(b.len() == 0);
        assert(changes_view(a) =~= changes_view(b));
    } else {
        assert(a.to_multiset().count(a[0]) > 0);
        assert(b.contains(a[0]));
        let j = choose|j: int| 0 <= j < b.len() && b[j] == a[0];
        assert(b.len() > 0);
        assert(b.to_multiset().count(b[0]) > 0);
        assert(a.contains(b[0]));
        let i = choose|i: int| 0 <= i < a.len() && a[i] == b[0];
        if j > 0 {
            assert(key_order(b[0]@, b[j]@, by) <= 0);
        } else {
            lemma_key_order_antisym(b[0]@, b[0]@, by);
        }
        if i > 0 {
            assert(key_order(a[0]@, a[i]@, by) <= 0);
        } else {
            lemma_key_order_antisym(a[0]@, a[0]@, by);
        }
        lemma_key_order_antisym(a[0]@, b[0]@, by);
        assert(a[0]@ == b[0]@);
        lemma_sorted_prefix_equal(b, j, by);
        let a1 = a.drop_first();
        let b1 = b.remove(j);
        assert(a1 == a.remove(0));
        vstd::seq_lib::to_multiset_remove(a, 0);
        vstd::seq_lib::to_multiset_remove(b, j);
        lemma_remove_keeps_sorted(a, 0, by);
        lemma_remove_keeps_sorted(b, j, by);
        law_sorted_order_is_unique(a1, b1, by);
        assert(changes_view(a) =~= seq![a[0]@] + changes_view(a1));
        assert forall|k: int| 0 <= k < b.len() implies changes_view(b)[k] == (seq![a[0]@]
            + changes_view(b1))[k] by {
            if k == 0 {
            } else if k <= j {
                assert(b1[k - 1] == b[k - 1]);
                assert(b[k - 1]@ == b[0]@);
                assert(b[k]@ == b[0]@);
            } else {
                assert(b1[k - 1] == b[k]);
            }
        }
        assert(changes_view(b) =~= seq![a[0]@] + changes_view(b1));
    }
}

/// Lemma: the changes of two runs of decoded lines together are those of the
/// first run followed by those of the second.
pub proof fn lemma_plan_lines_concat(a: Seq<Option<PlanLine>>, b: Seq<Option<PlanLine>>)
    ensures
        spec_plan_lines_changes(a + b) == spec_plan_lines_changes(a) + spec_plan_lines_changes(b),
    decreases b.len(),
{
    if b.len() == 0 {
        assert(a + b == a);
    } else {
        lemma_plan_lines_concat(a, b.drop_last());
        assert((a + b).drop_last() == a + b.drop_last());
        assert((a + b).last() == b.last());
    }
}

/// A line that does not decode is skipped, and the changes of the lines on
/// either side keep their order: for a plan stream made of a first part (empty
/// or ending with a line break), a line without line breaks that does not
/// decode, a line break and a second part, none of them mentioning
/// `"resource_changes"`, the stream's lines are the first part's, that line and
/// the second part's, and its changes are the first part's followed by the
/// second part's, each part read on its own.
pub proof fn law_undecodable_line_is_skipped(
    first: Seq<char>,
    bad: Seq<char>,
    second: Seq<char>,
    first_lines: Seq<Option<PlanLine>>,
    second_lines: Seq<Option<PlanLine>>,
    show_plan: Option<ShowPlan>,
)
    requires
        first.len() == 0 || first.last() == '\n',
        !bad.contains('\n'),
        !contains_seq(first + bad + seq!['\n'] + second, "\"resource_changes\""@),
        !contains_seq(first, "\"resource_changes\""@),
        !contains_seq(second, "\"resource_changes\""@),
    ensures
        text_lines(first + bad + seq!['\n'] + second) == text_lines(first) + seq![strip_cr(bad)]
            + text_lines(second),
        spec_plan_output_changes(
            first + bad + seq!['\n'] + second,
            show_plan,
            first_lines + seq![None] + second_lines,
        ) == spec_plan_output_changes(first, show_plan, first_lines) + spec_plan_output_changes(
            second,
            show_plan,
            second_lines,
        ),
{
    let rest = bad + seq!['\n'] + second;
    assert(first + bad + seq!['\n'] + second == first + rest);
    lemma_text_lines_append(first, rest);
    lemma_text_lines_line_first(bad, second);
    lemma_plan_lines_concat(first_lines + seq![None], second_lines);
    lemma_plan_lines_concat(first_lines, seq![None]);
    assert(seq![None::<PlanLine>].drop_last() == Seq::<Option<PlanLine>>::empty());
    assert(spec_plan_lines_changes(seq![None::<PlanLine>]) == spec_plan_lines_changes(
        Seq::<Option<PlanLine>>::empty(),
    ));
    assert(spec_plan_lines_changes(first_lines) + Seq::empty() == spec_plan_lines_changes(
        first_lines,
    ));
}

/// The dry run names the command that a run executes: for a live plan,
/// `terraform` and the arguments of [`spec_plan_args`]; for a saved plan file,
/// `terraform` and the arguments of [`spec_show_args`], each separated by a
/// space.
pub proof fn law_dry_run_names_the_command_that_runs(input: TerraformInput, directory: Seq<char>)
    ensures
        input matches TerraformInput::Directory(d) ==> spec_render_dry_run(input, directory)
            == "Dry run: would execute `terraform "@ + join_with(spec_plan_args(), " "@) + "` in '"@
            + d@ + "'.\n"@,
        input matches TerraformInput::BinaryPlanFile(p) ==> spec_render_dry_run(input, directory)
            == "Dry run: would execute `terraform "@ + join_with(spec_show_args(p@), " "@)
            + "` in '"@ + directory + "'.\n"@,
{
    reveal_with_fuel(join_with, 5);
    reveal_strlit("plan");
    reveal_strlit("-json");
    reveal_strlit("-input=false");
    reveal_strlit("-no-color");
    reveal_strlit("show");
    reveal_strlit(" ");
    reveal_strlit("Dry run: would execute `terraform ");
    reveal_strlit("Dry run: would execute `terraform plan -json -input=false -no-color` in '");
    reveal_strlit("Dry run: would execute `terraform show -json ");
    reveal_strlit("` in '");
    reveal_strlit("plan -json -input=false -no-color");
    reveal_strlit("plan -json");
    reveal_strlit("plan -json -input=false");
    reveal_strlit("show -json");
    match input {
        TerraformInput::Directory(d) => {
            let args = spec_plan_args();
            assert(join_with(args.take(2), " "@) =~= "plan -json"@) by {
                assert(args.take(2).drop_last() =~= seq!["plan"@]);
                assert(join_with(seq!["plan"@], " "@) == "plan"@);
                assert(args.take(2).last() == "-json"@);
            }
            assert(join_with(args.take(3), " "@) =~= "plan -json -input=false"@) by {
                assert(args.take(3).drop_last() =~= args.take(2));
                assert(args.take(3).last() == "-input=false"@);
            }
            assert(join_with(args, " "@) =~= "plan -json -input=false -no-color"@) by {
                assert(args.drop_last() =~= args.take(3));
            }
            assert("Dry run: would execute `terraform plan -json -input=false -no-color` in '"@
                =~= "Dry run: would execute `terraform "@ + join_with(spec_plan_args(), " "@)
                + "` in '"@);
        },
        TerraformInput::BinaryPlanFile(p) => {
            let args = spec_show_args(p@);
            assert(join_with(args.drop_last(), " "@) =~= "show -json"@) by {
                assert(args.drop_last().drop_last() =~= seq!["show"@]);
                assert(join_with(seq!["show"@], " "@) == "show"@);
            }
            assert("Dry run: would execute `terraform show -json "@ + p@ =~= "Dry run: would execute `terraform "@
                + join_with(args, " "@));
        },
        _ => {},
    }
}

/// A plan output is read as one `terraform show -json` document whenever its
/// first non-blank character is `{` and it mentions the `"resource_changes"`
/// key, however the JSON is spaced: if the document decodes, its changes are
/// the result, whatever the lines decode to.
pub proof fn law_show_document_recognised_by_brace_and_key(
    text: Seq<char>,
    brace_at: int,
    key_at: int,
    plan: ShowPlan,
    lines: Seq<Option<PlanLine>>,
)
    requires
        0 <= brace_at < text.len(),
        forall|i: int| 0 <= i < brace_at ==> is_white_space(#[trigger] text[i]),
        text[brace_at] == '{',
        0 <= key_at,
        key_at + "\"resource_changes\""@.len() <= text.len(),
        text.subrange(key_at, key_at + "\"resource_changes\""@.len()) == "\"resource_changes\""@,
    ensures
        spec_plan_output_changes(text, Some(plan), lines) == spec_show_plan_changes(plan),
{
    lemma_leading_space_len(text);
    let n = leading_space_len(text);
    if n < brace_at {
        assert(is_white_space(text[n]));
    }
    if n > brace_at {
        assert(is_white_space(text[brace_at]));
    }
    assert(n == brace_at);
    assert(trim_start_seq(text)[0] == text[brace_at]);
    assert(occurs_at(text, "\"resource_changes\""@, key_at));
}

/// A plan output that does not mention the `"resource_changes"` key is read as
/// a stream of lines, each decoded on its own, whatever document is offered.
pub proof fn law_output_without_key_is_a_stream(
    text: Seq<char>,
    show_plan: Option<ShowPlan>,
    lines: Seq<Option<PlanLine>>,
)
    requires
        forall|i: int|
            0 <= i && i + "\"resource_changes\""@.len() <= text.len() ==> #[trigger] text.subrange(
                i,
                i + "\"resource_changes\""@.len(),
            ) != "\"resource_changes\""@,
    ensures
        spec_plan_output_changes(text, show_plan, lines) == spec_plan_lines_changes(lines),
{
    if contains_seq(text, "\"resource_changes\""@) {
        let i = choose|i: int| occurs_at(text, "\"resource_changes\""@, i);
        assert(text.subrange(i, i + "\"resource_changes\""@.len()) == "\"resource_changes\""@);
    }
}

/// The totals line of a text comparison counts the comparison's own lists:
/// the resources the new plan adds, those it removes, and those whose action
/// changed, in that order, after the lines of the differences.
pub proof fn law_diff_text_totals_count_the_lists(diff: PlanDiff, no_emoji: bool)
    requires
        diff.added@.len() + diff.removed@.len() + diff.changed@.len() > 0,
    ensures
        ({
            let text = spec_render_diff_text(diff, no_emoji);
            let totals = "Diff summary: "@ + decimal(diff.added@.len()) + " added, "@ + decimal(
                diff.removed@.len(),
            ) + " removed, "@ + decimal(diff.changed@.len()) + " changed\n"@;
            text.len() >= totals.len() && text.subrange(text.len() - totals.len(), text.len() as int)
                == totals
        }),
{
    let rows = spec_diff_rows(diff);
    assert(rows.len() == diff.added@.len() + diff.removed@.len() + diff.changed@.len());
    let lines = (if no_emoji {
        Seq::empty()
    } else {
        "📊 "@
    }) + "Plan comparison:\n"@ + diff_text_lines(rows, no_emoji);
    let totals = "Diff summary: "@ + decimal(diff.added@.len()) + " added, "@ + decimal(
        diff.removed@.len(),
    ) + " removed, "@ + decimal(diff.changed@.len()) + " changed\n"@;
    let text = spec_render_diff_text(diff, no_emoji);
    assert(text =~= lines + totals);
    assert(text.subrange(text.len() - totals.len(), text.len() as int) =~= totals);
}

/// The totals table of the step summary shows each total in its own row, with
/// the summary's symbol for it: creates, then updates, then deletes.
pub proof fn law_step_summary_totals_rows(
    display_path: Seq<char>,
    changes: Seq<ChangeView>,
    counts: (int, int, int),
    no_emoji: bool,
)
    ensures
        contains_seq(
            spec_github_step_summary(display_path, changes, counts, no_emoji),
            "| "@ + spec_summary_symbols(no_emoji).0 + " Create | "@ + decimal(counts.0 as nat)
                + " |\n| "@ + spec_summary_symbols(no_emoji).1 + " Update | "@ + decimal(
                counts.1 as nat,
            ) + " |\n| "@ + spec_summary_symbols(no_emoji).2 + " Delete | "@ + decimal(
                counts.2 as nat,
            ) + " |\n"@,
        ),
{
    let (c, u, d) = spec_summary_symbols(no_emoji);
    let before = "## Terraform plan summary\n\n**Plan:** `"@ + display_path
        + "`\n\n| | Count |\n| --- | ---: |\n"@;
    let after = if changes.len() == 0 {
        Seq::<char>::empty()
    } else {
        "\n### Resource changes\n\n| Action | Type | Name |\n| --- | --- | --- |\n"@
            + spec_step_summary_rows(changes)
    };
    reveal_strlit("`\n\n| | Count |\n| --- | ---: |\n| ");
    reveal_strlit("`\n\n| | Count |\n| --- | ---: |\n");
    reveal_strlit("| ");
    assert("`\n\n| | Count |\n| --- | ---: |\n| "@ =~= "`\n\n| | Count |\n| --- | ---: |\n"@
        + "| "@);
    let block = "| "@ + c + " Create | "@ + decimal(counts.0 as nat) + " |\n| "@ + u
        + " Update | "@ + decimal(counts.1 as nat) + " |\n| "@ + d + " Delete | "@ + decimal(
        counts.2 as nat,
    ) + " |\n"@;
    let text = spec_github_step_summary(display_path, changes, counts, no_emoji);
    assert(text =~= before + block + after);
    assert(text.subrange(before.len() as int, (before.len() + block.len()) as int) =~= block);
    assert(occurs_at(text, block, before.len() as int));
}

/// Sorted changes follow their sort key and its tie-breakers: by type, then
/// name, then action; by name, then type, then action; or by action, then
/// type, then name. Each text compares by character code.
pub proof fn law_sorted_changes_follow_their_keys(s: Seq<ResourceChange>, by: SortBy, i: int, j: int)
    requires
        sorted_by_key(s, by),
        0 <= i < j < s.len(),
    ensures
        by == SortBy::Type ==> tie_broken_order(
            s[i].resource_type@,
            s[i].resource_name@,
            s[i].action@,
            s[j].resource_type@,
            s[j].resource_name@,
            s[j].action@,
        ),
        by == SortBy::Name ==> tie_broken_order(
            s[i].resource_name@,
            s[i].resource_type@,
            s[i].action@,
            s[j].resource_name@,
            s[j].resource_type@,
            s[j].action@,
        ),
        by == SortBy::Action ==> tie_broken_order(
            s[i].action@,
            s[i].resource_type@,
            s[i].resource_name@,
            s[j].action@,
            s[j].resource_type@,
            s[j].resource_name@,
        ),
{
    assert(key_order(s[i]@, s[j]@, by) <= 0);
    lemma_lex_order_zero(s[i].resource_type@, s[j].resource_type@);
    lemma_lex_order_zero(s[i].resource_name@, s[j].resource_name@);
    lemma_lex_order_zero(s[i].action@, s[j].action@);
}

/// Whether the first triple of texts comes no later than the second: its first
/// text is no greater; on equal first texts the second is no greater; on equal
/// first and second texts the third is no greater.
pub open spec fn tie_broken_order(
    a1: Seq<char>,
    a2: Seq<char>,
    a3: Seq<char>,
    b1: Seq<char>,
    b2: Seq<char>,
    b3: Seq<char>,
) -> bool {
    &&& lex_order(a1, b1) <= 0
    &&& a1 == b1 ==> lex_order(a2, b2) <= 0
    &&& a1 == b1 && a2 == b2 ==> lex_order(a3, b3) <= 0
}

/// In text output a created, updated or deleted resource is marked with the
/// summary's symbol for that action, followed by a space, with and without
/// emoji.
pub proof fn law_text_symbols_match_the_summary(no_emoji: bool)
    ensures
        spec_text_symbol("create"@, no_emoji) == spec_summary_symbols(no_emoji).0 + " "@,
        spec_text_symbol("update"@, no_emoji) == spec_summary_symbols(no_emoji).1 + " "@,
        spec_text_symbol("delete"@, no_emoji) == spec_summary_symbols(no_emoji).2 + " "@,
{
    reveal_strlit("create");
    reveal_strlit("update");
    reveal_strlit("delete");
    reveal_strlit(" ");
    reveal_strlit("+ ");
    reveal_strlit("~ ");
    reveal_strlit("- ");
    reveal_strlit("+");
    reveal_strlit("~");
    reveal_strlit("-");
    reveal_strlit("➕ ");
    reveal_strlit("🔄 ");
    reveal_strlit("➖ ");
    reveal_strlit("➕");
    reveal_strlit("🔄");
    reveal_strlit("➖");
    assert("create"@ != "update"@) by {
        assert("create"@[0] != "update"@[0]);
    }
    assert("create"@ != "delete"@) by {
        assert("create"@[0] != "delete"@[0]);
    }
    assert("update"@ != "delete"@) by {
        assert("update"@[0] != "delete"@[0]);
    }
    assert("+ "@ =~= "+"@ + " "@);
    assert("~ "@ =~= "~"@ + " "@);
    assert("- "@ =~= "-"@ + " "@);
    assert("➕ "@ =~= "➕"@ + " "@);
    assert("🔄 "@ =~= "🔄"@ + " "@);
    assert("➖ "@ =~= "➖"@ + " "@);
}

} // verus!
