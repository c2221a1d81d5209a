//! The plan model: resource changes, the records decoded from Terraform's JSON,
//! and the logic that turns those records into changes, filters, sorts and
//! counts them.
use vstd::prelude::*;
use vstd::multiset::Multiset;

pub use crate::compare::{compare_plans, ChangedResource, PlanDiff};
use crate::cli::{AppSettings, SortBy};
use crate::glob_match::{
    glob_match, glob_pattern_accepted, glob_pattern_matches, has_backslash, is_literal_pattern,
};
use crate::text::{
    chars_of, compare_chars, contains_seq, contains_text, leading_space_count,
    lemma_leading_space_len, lemma_lex_order_antisym, lemma_lex_order_trans, lemma_lex_order_zero,
    lex_order, opt_text, owned, split_lines, text_eq, text_lines, trim_start_seq,
    views_of,
};

verus! {

/// One planned change of one resource.
#[derive(Debug, PartialEq, Eq)]
pub struct ResourceChange {
    pub resource_type: String,
    pub resource_name: String,
    pub action: String,
}

/// The mathematical model of a [`ResourceChange`]: its three texts.
pub struct ChangeView {
    pub resource_type: Seq<char>,
    pub resource_name: Seq<char>,
    pub action: Seq<char>,
}

impl View for ResourceChange {
    type V = ChangeView;

    open spec fn view(&self) -> ChangeView {
        ChangeView {
            resource_type: self.resource_type@,
            resource_name: self.resource_name@,
            action: self.action@,
        }
    }
}

/// Builds the model of a change from its three texts.
pub open spec fn change_view(
    resource_type: Seq<char>,
    resource_name: Seq<char>,
    action: Seq<char>,
) -> ChangeView {
    ChangeView { resource_type, resource_name, action }
}

/// The models of a sequence of changes.
pub open spec fn changes_view(s: Seq<ResourceChange>) -> Seq<ChangeView> {
    s.map_values(|c: ResourceChange| c@)
}

/// The model of an optional change.
pub open spec fn opt_change_view(c: Option<ResourceChange>) -> Option<ChangeView> {
    match c {
        Some(c) => Some(c@),
        None => None,
    }
}

impl Clone for ResourceChange {
    fn clone(&self) -> (res: Self)
        ensures
            res == *self,
    {
        ResourceChange {
            resource_type: self.resource_type.clone(),
            resource_name: self.resource_name.clone(),
            action: self.action.clone(),
        }
    }
}

/// One line of `terraform plan -json` output, as decoded from JSON.
#[derive(Debug)]
pub struct PlanLine {
    pub change: Option<PlanChange>,
}

/// The `change` object of a plan line.
#[derive(Debug)]
pub struct PlanChange {
    pub resource: Option<PlanResource>,
    pub action: Option<String>,
}

/// The `resource` object of a plan line's change; a missing field reads as
/// [`unknown_value`].
#[derive(Debug)]
pub struct PlanResource {
    pub resource_type: String,
    pub resource_name: String,
}

/// The document that `terraform show -json` prints.
#[derive(Debug)]
pub struct ShowPlan {
    pub resource_changes: Option<Vec<ShowResourceChange>>,
}

/// One entry of `resource_changes` in a `terraform show -json` document; a
/// missing `type` or `name` reads as [`unknown_value`].
#[derive(Debug)]
pub struct ShowResourceChange {
    pub resource_type: String,
    pub name: String,
    pub change: ShowChange,
}

/// The `change` object of a `terraform show -json` entry.
#[derive(Debug)]
pub struct ShowChange {
    pub actions: Vec<String>,
}

/// Where the plan comes from. Paths are held as their display text.
#[derive(Debug)]
pub enum TerraformInput {
    StdinJson(String),
    Directory(String),
    JsonPlanFile(String),
    BinaryPlanFile(String),
    Compare { old: String, new: String },
}

impl TerraformInput {
    /// Whether loading this input runs the `terraform` executable.
    pub fn requires_terraform(&self) -> (res: bool)
        ensures
            res == (self is Directory || self is BinaryPlanFile),
    {
        match self {
            TerraformInput::Directory(_) => true,
            TerraformInput::BinaryPlanFile(_) => true,
            _ => false,
        }
    }
}

/// Output formats.
#[derive(Clone, Copy, Debug, PartialEq, Eq, Structural)]
pub enum Format {
    Text,
    Json,
    Csv,
    Table,
}

/// How many resources are created, updated and deleted.
#[derive(Debug, Default, PartialEq, Eq, Structural)]
pub struct ChangeCounts {
    pub create: usize,
    pub update: usize,
    pub delete: usize,
}

/// The text that stands for a missing resource type or name.
pub fn unknown_value() -> (res: String)
    ensures
        res@ == "unknown"@,
{
    owned("unknown")
}

/// The change that a decoded plan line describes: `None` for a line that did
/// not decode, or that has no `change` or no `resource`; a missing action
/// reads as `noop`.
pub open spec fn spec_plan_line_change(line: Option<PlanLine>) -> Option<ChangeView> {
    match line {
        None => None,
        Some(l) => match l.change {
            None => None,
            Some(c) => match c.resource {
                None => None,
                Some(r) => Some(
                    change_view(
                        r.resource_type@,
                        r.resource_name@,
                        match c.action {
                            Some(a) => a@,
                            None => "noop"@,
                        },
                    ),
                ),
            },
        },
    }
}

/// The change described by one plan line, given the line as decoded from JSON
/// (`None` when it is not a valid plan line).
pub fn parse_plan_line(line: &Option<PlanLine>) -> (res: Option<ResourceChange>)
    ensures
        opt_change_view(res) == spec_plan_line_change(*line),
{
    match line {
        None => None,
        Some(line) => match &line.change {
            None => None,
            Some(change) => match &change.resource {
                None => None,
                Some(resource) => {
                    let action = match &change.action {
                        Some(action) => action.clone(),
                        None => owned("noop"),
                    };
                    Some(
                        ResourceChange {
                            resource_type: resource.resource_type.clone(),
                            resource_name: resource.resource_name.clone(),
                            action,
                        },
                    )
                },
            },
        },
    }
}

/// `parts` joined with `sep` between consecutive parts (as `[String]::join`).
pub open spec fn join_with(parts: Seq<Seq<char>>, sep: Seq<char>) -> Seq<char>
    decreases parts.len(),
{
    if parts.len() == 0 {
        Seq::empty()
    } else if parts.len() == 1 {
        parts[0]
    } else {
        join_with(parts.drop_last(), sep) + sep + parts.last()
    }
}

/// Joins strings with a separator (see [`join_with`]).
pub fn join_strings(parts: &Vec<String>, sep: &str) -> (res: String)
    ensures
        res@ == join_with(views_of(parts@), sep@),
{
    let mut res = String::new();
    let mut i: usize = 0;
    while i < parts.len()
        invariant
            i <= parts.len(),
            res@ == join_with(views_of(parts@).take(i as int), sep@),
        decreases parts.len() - i,
    {
        let ghost before = views_of(parts@).take(i as int);
        if i > 0 {
            res.append(sep);
        }
        res.append(parts[i].as_str());
        proof {
            let now = views_of(parts@).take(i + 1);
            assert(now.drop_last() == before);
            assert(now.last() == parts@[i as int]@);
            if i == 0 {
                assert(now == seq![parts@[0]@]);
            }
        }
        i = i + 1;
    }
    assert(views_of(parts@).take(parts.len() as int) == views_of(parts@));
    res
}

/// The action that a `terraform show -json` entry's action list stands for:
/// none for an empty list or a lone `no-op`, `replace` for `delete` then
/// `create`, and otherwise the actions joined with `/`.
pub open spec fn spec_show_action(actions: Seq<Seq<char>>) -> Option<Seq<char>> {
    if actions.len() == 0 {
        None
    } else if actions.len() == 1 && actions[0] == "no-op"@ {
        None
    } else if actions.len() == 1 {
        Some(actions[0])
    } else if actions.len() == 2 && actions[0] == "delete"@ && actions[1] == "create"@ {
        Some("replace"@)
    } else {
        Some(join_with(actions, "/"@))
    }
}

/// The action of a `terraform show -json` entry (see [`spec_show_action`]).
pub fn action_from_show_actions(actions: &Vec<String>) -> (res: Option<String>)
    ensures
        opt_text(res) == spec_show_action(views_of(actions@)),
{
    let ghost acts = views_of(actions@);
    if actions.len() == 0 {
        return None;
    }
    if actions.len() == 1 {
        if text_eq(actions[0].as_str(), "no-op") {
            return None;
        }
        return Some(actions[0].clone());
    }
    if actions.len() == 2 && text_eq(actions[0].as_str(), "delete") && text_eq(
        actions[1].as_str(),
        "create",
    ) {
        return Some(owned("replace"));
    }
    Some(join_strings(actions, "/"))
}

/// The change that a `terraform show -json` entry stands for, if any.
pub open spec fn spec_show_entry_change(entry: ShowResourceChange) -> Option<ChangeView> {
    match spec_show_action(views_of(entry.change.actions@)) {
        None => None,
        Some(a) => Some(change_view(entry.resource_type@, entry.name@, a)),
    }
}

/// The changes that the entries of a `terraform show -json` document stand for, in order.
pub open spec fn spec_show_entries_changes(entries: Seq<ShowResourceChange>) -> Seq<ChangeView>
    decreases entries.len(),
{
    if entries.len() == 0 {
        Seq::empty()
    } else {
        let before = spec_show_entries_changes(entries.drop_last());
        match spec_show_entry_change(entries.last()) {
            None => before,
            Some(c) => before.push(c),
        }
    }
}

/// The changes of a decoded `terraform show -json` document.
pub open spec fn spec_show_plan_changes(plan: ShowPlan) -> Seq<ChangeView> {
    match plan.resource_changes {
        None => Seq::empty(),
        Some(entries) => spec_show_entries_changes(entries@),
    }
}

/// The changes of a decoded `terraform show -json` document: one per entry
/// whose actions amount to a change (see [`spec_show_action`]), in order.
pub fn parse_show_plan_output(plan: ShowPlan) -> (res: Vec<ResourceChange>)
    ensures
        changes_view(res@) == spec_show_plan_changes(plan),
{
    let entries = match plan.resource_changes {
        Some(entries) => entries,
        None => Vec::new(),
    };
    let mut res: Vec<ResourceChange> = Vec::new();
    let mut i: usize = 0;
    while i < entries.len()
        invariant
            i <= entries.len(),
            changes_view(res@) == spec_show_entries_changes(entries@.take(i as int)),
        decreases entries.len() - i,
    {
        let entry = &entries[i];
        let ghost before = res@;
        proof {
            assert(entries@.take(i + 1).drop_last() == entries@.take(i as int));
            assert(entries@.take(i + 1).last() == entries@[i as int]);
        }
        match action_from_show_actions(&entry.change.actions) {
            Some(action) => {
                res.push(
                    ResourceChange {
                        resource_type: entry.resource_type.clone(),
                        resource_name: entry.name.clone(),
                        action,
                    },
                );
                proof {
                    assert(changes_view(res@) == changes_view(before).push(res@.last()@));
                }
            },
            None => {},
        }
        i = i + 1;
    }
    assert(entries@.take(entries.len() as int) == entries@);
    res
}

/// The changes of a sequence of decoded plan lines, in order.
pub open spec fn spec_plan_lines_changes(lines: Seq<Option<PlanLine>>) -> Seq<ChangeView>
    decreases lines.len(),
{
    if lines.len() == 0 {
        Seq::empty()
    } else {
        let before = spec_plan_lines_changes(lines.drop_last());
        match spec_plan_line_change(lines.last()) {
            None => before,
            Some(c) => before.push(c),
        }
    }
}

/// The changes of the lines of a plan stream, each given as decoded from JSON
/// (`None` for a line that is not a valid plan line, which is skipped).
pub fn parse_plan_lines(lines: &Vec<Option<PlanLine>>) -> (res: Vec<ResourceChange>)
    ensures
        changes_view(res@) == spec_plan_lines_changes(lines@),
{
    let mut res: Vec<ResourceChange> = Vec::new();
    let mut i: usize = 0;
    while i < lines.len()
        invariant
            i <= lines.len(),
            changes_view(res@) == spec_plan_lines_changes(lines@.take(i as int)),
        decreases lines.len() - i,
    {
        proof {
            assert(lines@.take(i + 1).drop_last() == lines@.take(i as int));
            assert(lines@.take(i + 1).last() == lines@[i as int]);
        }
        let ghost r0 = res@;
        match parse_plan_line(&lines[i]) {
            Some(change) => {
                res.push(change);
                proof {
                    assert(changes_view(res@) == changes_view(r0).push(res@.last()@));
                }
            },
            None => {},
        }
        i = i + 1;
    }
    assert(lines@.take(lines.len() as int) == lines@);
    res
}

/// Whether a plan output is one `terraform show -json` document rather than a
/// stream of plan lines: its first non-blank character is `{` and it mentions
/// the `"resource_changes"` key.
pub open spec fn spec_is_show_plan_document(stdout: Seq<char>) -> bool {
    &&& trim_start_seq(stdout).len() > 0
    &&& trim_start_seq(stdout)[0] == '{'
    &&& contains_seq(stdout, "\"resource_changes\""@)
}

/// Whether a plan output looks like one `terraform show -json` document (see
/// [`spec_is_show_plan_document`]).
pub fn is_show_plan_document(stdout: &str) -> (res: bool)
    ensures
        res == spec_is_show_plan_document(stdout@),
{
    let chars = chars_of(stdout);
    let n = leading_space_count(&chars);
    proof {
        lemma_leading_space_len(stdout@);
    }
    if n < chars.len() && chars[n] == '{' {
        contains_text(stdout, "\"resource_changes\"")
    } else {
        false
    }
}

/// The lines of a plan stream, to be decoded one by one.
pub fn plan_output_lines(stdout: &str) -> (res: Vec<String>)
    ensures
        views_of(res@) == text_lines(stdout@),
{
    split_lines(stdout)
}

/// The changes of a plan output: those of the `terraform show -json` document
/// when the output looks like one and decodes as one, and otherwise those of its
/// lines, each decoded on its own.
pub open spec fn spec_plan_output_changes(
    stdout: Seq<char>,
    show_plan: Option<ShowPlan>,
    decoded_lines: Seq<Option<PlanLine>>,
) -> Seq<ChangeView> {
    if spec_is_show_plan_document(stdout) && show_plan is Some {
        spec_show_plan_changes(show_plan->0)
    } else {
        spec_plan_lines_changes(decoded_lines)
    }
}

/// The changes of a plan output (see [`spec_plan_output_changes`]).
///
/// `show_plan` is the output decoded as a `terraform show -json` document
/// (`None` when it does not decode as one); `decoded_lines` holds, for each
/// line of [`plan_output_lines`], that line decoded as a plan line (`None` when
/// it does not decode). The lines are only read when the document is not used.
pub fn parse_plan_output(
    stdout: &str,
    show_plan: Option<ShowPlan>,
    decoded_lines: &Vec<Option<PlanLine>>,
) -> (res: Vec<ResourceChange>)
    requires
        !(spec_is_show_plan_document(stdout@) && show_plan is Some) ==> decoded_lines.len()
            == text_lines(stdout@).len(),
    ensures
        changes_view(res@) == spec_plan_output_changes(stdout@, show_plan, decoded_lines@),
{
    if is_show_plan_document(stdout) {
        if let Some(plan) = show_plan {
            return parse_show_plan_output(plan);
        }
    }
    parse_plan_lines(decoded_lines)
}

/// The counts that one action adds: `create`, `update` and `delete` count once
/// in their own column, `replace` and `create/delete` once as a create and once
/// as a delete, anything else not at all.
pub open spec fn action_weight(action: Seq<char>) -> (int, int, int) {
    if action == "create"@ {
        (1, 0, 0)
    } else if action == "update"@ {
        (0, 1, 0)
    } else if action == "delete"@ {
        (0, 0, 1)
    } else if action == "replace"@ || action == "create/delete"@ {
        (1, 0, 1)
    } else {
        (0, 0, 0)
    }
}

/// The create, update and delete totals of a sequence of changes.
pub open spec fn spec_counts(s: Seq<ChangeView>) -> (int, int, int)
    decreases s.len(),
{
    if s.len() == 0 {
        (0, 0, 0)
    } else {
        let before = spec_counts(s.drop_last());
        let w = action_weight(s.last().action);
        (before.0 + w.0, before.1 + w.1, before.2 + w.2)
    }
}

/// The counts as a triple.
pub open spec fn counts_triple(c: ChangeCounts) -> (int, int, int) {
    (c.create as int, c.update as int, c.delete as int)
}

proof fn lemma_counts_bounded(s: Seq<ChangeView>)
    ensures
        0 <= spec_counts(s).0 <= s.len(),
        0 <= spec_counts(s).1 <= s.len(),
        0 <= spec_counts(s).2 <= s.len(),
    decreases s.len(),
{
    if s.len() > 0 {
        lemma_counts_bounded(s.drop_last());
    }
}

/// Totals of the actions of some changes (see [`spec_counts`]).
pub fn count_actions(resource_changes: &[ResourceChange]) -> (res: ChangeCounts)
    ensures
        counts_triple(res) == spec_counts(changes_view(resource_changes@)),
{
    let ghost all = changes_view(resource_changes@);
    let mut counts = ChangeCounts { create: 0, update: 0, delete: 0 };
    let mut i: usize = 0;
    while i < resource_changes.len()
        invariant
            i <= resource_changes.len(),
            all == changes_view(resource_changes@),
            counts_triple(counts) == spec_counts(all.take(i as int)),
        decreases resource_changes.len() - i,
    {
        proof {
            assert(all.take(i + 1).drop_last() == all.take(i as int));
            assert(all.take(i + 1).last() == resource_changes@[i as int]@);
            lemma_counts_bounded(all.take(i + 1));
        }
        let action = resource_changes[i].action.as_str();
        if text_eq(action, "create") {
            counts.create = counts.create + 1;
        } else if text_eq(action, "update") {
            counts.update = counts.update + 1;
        } else if text_eq(action, "delete") {
            counts.delete = counts.delete + 1;
        } else if text_eq(action, "replace") || text_eq(action, "create/delete") {
            counts.create = counts.create + 1;
            counts.delete = counts.delete + 1;
        }
        i = i + 1;
    }
    assert(all.take(resource_changes.len() as int) == all);
    counts
}

/// Whether `value` matches `pattern`: by glob when the pattern compiles, and
/// by equality when it does not.
pub open spec fn spec_matches_pattern(value: Seq<char>, pattern: Seq<char>) -> bool {
    if glob_pattern_accepted(pattern) {
        glob_pattern_matches(pattern, value)
    } else {
        pattern == value
    }
}

/// Whether `value` matches `pattern` (see [`spec_matches_pattern`]). A pattern
/// without glob metacharacters matches exactly the equal value.
pub fn matches_pattern(value: &str, pattern: &str) -> (res: bool)
    ensures
        !has_backslash(value@) && !has_backslash(pattern@) ==> res == spec_matches_pattern(
            value@,
            pattern@,
        ),
        is_literal_pattern(pattern@) && !has_backslash(value@) ==> res == (value@ == pattern@),
{
    match glob_match(pattern, value) {
        Some(matched) => matched,
        None => text_eq(pattern, value),
    }
}

/// Whether no text of a sequence holds a `'\\'`.
pub open spec fn all_backslash_free(texts: Seq<Seq<char>>) -> bool {
    forall|i: int| 0 <= i < texts.len() ==> !has_backslash(#[trigger] texts[i])
}

/// Whether some pattern of `patterns` matches `value`.
pub open spec fn matches_any(value: Seq<char>, patterns: Seq<Seq<char>>) -> bool {
    exists|i: int| 0 <= i < patterns.len() && spec_matches_pattern(value, #[trigger] patterns[i])
}

/// Whether `value` passes an inclusions list (empty means all) and is matched by
/// no pattern of an exclusions list.
pub open spec fn spec_matches_filter(
    value: Seq<char>,
    inclusions: Seq<Seq<char>>,
    exclusions: Seq<Seq<char>>,
) -> bool {
    (inclusions.len() == 0 || matches_any(value, inclusions)) && !matches_any(value, exclusions)
}

/// Whether `hit` can be what matching `value` against `pattern` gives: it is
/// [`spec_matches_pattern`] where neither text holds a `'\\'`; where one does,
/// the platform decides (see [`glob_match`]).
pub open spec fn pattern_outcome(value: Seq<char>, pattern: Seq<char>, hit: bool) -> bool {
    !has_backslash(value) && !has_backslash(pattern) ==> hit == spec_matches_pattern(
        value,
        pattern,
    )
}

/// Whether `hits` holds, for each pattern in order, an outcome of matching
/// `value` against it (see [`pattern_outcome`]).
pub open spec fn pattern_hits(value: Seq<char>, patterns: Seq<Seq<char>>, hits: Seq<bool>) -> bool {
    &&& hits.len() == patterns.len()
    &&& forall|i: int| 0 <= i < hits.len() ==> pattern_outcome(value, patterns[i], #[trigger] hits[i])
}

/// Whether some outcome is a match.
pub open spec fn any_hit(hits: Seq<bool>) -> bool {
    exists|i: int| 0 <= i < hits.len() && #[trigger] hits[i]
}

/// Whether `found` can be the answer to "does some pattern match `value`":
/// whether some of the outcomes of matching `value` against each pattern is a
/// match. With no patterns it is `false`.
pub open spec fn any_outcome(value: Seq<char>, patterns: Seq<Seq<char>>, found: bool) -> bool {
    exists|hits: Seq<bool>|
        #![trigger pattern_hits(value, patterns, hits)]
        pattern_hits(value, patterns, hits) && found == any_hit(hits)
}

/// The outcome assumed for a pattern that is not tried: the stated match where
/// no `'\\'` is involved.
pub open spec fn default_hit(value: Seq<char>, pattern: Seq<char>) -> bool {
    if !has_backslash(value) && !has_backslash(pattern) {
        spec_matches_pattern(value, pattern)
    } else {
        false
    }
}

/// Lemma: every value and patterns have some outcome.
pub proof fn lemma_any_outcome_exists(value: Seq<char>, patterns: Seq<Seq<char>>) -> (found: bool)
    ensures
        any_outcome(value, patterns, found),
{
    let hits = Seq::new(patterns.len(), |i: int| default_hit(value, patterns[i]));
    assert(pattern_hits(value, patterns, hits));
    any_hit(hits)
}

fn matches_any_pattern(value: &str, patterns: &[String]) -> (res: bool)
    ensures
        !has_backslash(value@) && all_backslash_free(views_of(patterns@)) ==> res == matches_any(
            value@,
            views_of(patterns@),
        ),
        any_outcome(value@, views_of(patterns@), res),
{
    let ghost ps = views_of(patterns@);
    let ghost mut seen: Seq<bool> = Seq::empty();
    let mut i: usize = 0;
    while i < patterns.len()
        invariant
            i <= patterns.len(),
            ps == views_of(patterns@),
            !has_backslash(value@) && all_backslash_free(ps) ==> forall|k: int|
                0 <= k < i ==> !spec_matches_pattern(value@, #[trigger] ps[k]),
            seen.len() == i,
            forall|k: int| 0 <= k < i ==> !(#[trigger] seen[k]) && pattern_outcome(value@, ps[k], seen[k]),
        decreases patterns.len() - i,
    {
        let m = matches_pattern(value, patterns[i].as_str());
        proof {
            assert(ps[i as int] == patterns@[i as int]@);
        }
        if m {
            proof {
                if !has_backslash(value@) && all_backslash_free(ps) {
                    assert(!has_backslash(ps[i as int]));
                    assert(spec_matches_pattern(value@, ps[i as int]));
                }
                let rest = Seq::new(
                    (ps.len() - i - 1) as nat,
                    |k: int| default_hit(value@, ps[i + 1 + k]),
                );
                let hits = seen.push(true) + rest;
                assert forall|k: int| 0 <= k < hits.len() implies pattern_outcome(
                    value@,
                    ps[k],
                    #[trigger] hits[k],
                ) by {
                    if k < i {
                        assert(hits[k] == seen[k]);
                    } else if k > i {
                        assert(hits[k] == rest[k - i - 1]);
                    }
                }
                assert(pattern_hits(value@, ps, hits));
                assert(hits[i as int]);
                assert(any_hit(hits));
            }
            return true;
        }
        proof {
            if !has_backslash(value@) && all_backslash_free(ps) {
                assert(!has_backslash(ps[i as int]));
            }
            seen = seen.push(false);
        }
        i = i + 1;
    }
    proof {
        assert(pattern_hits(value@, ps, seen));
        assert(!any_hit(seen));
    }
    false
}

/// Whether `passes` can be the answer of filtering `value`: for some answers to
/// whether an inclusion and whether an exclusion matches (see
/// [`any_outcome`]), the value passes when there are no inclusions or one
/// matches, and no exclusion matches.
pub open spec fn filter_outcome(
    value: Seq<char>,
    inclusions: Seq<Seq<char>>,
    exclusions: Seq<Seq<char>>,
    passes: bool,
) -> bool {
    exists|inc: bool, exc: bool|
        #![trigger any_outcome(value, inclusions, inc), any_outcome(value, exclusions, exc)]
        any_outcome(value, inclusions, inc) && any_outcome(value, exclusions, exc) && passes == ((
        inclusions.len() == 0 || inc) && !exc)
}

/// Whether a value passes inclusions and exclusions pattern lists (see
/// [`spec_matches_filter`]).
///
/// On every input the answer is made up as [`filter_outcome`] states: with no
/// patterns the value passes, and a matching exclusion always wins.
pub fn matches_filter(value: &str, inclusions: &[String], exclusions: &[String]) -> (res: bool)
    ensures
        !has_backslash(value@) && all_backslash_free(views_of(inclusions@)) && all_backslash_free(
            views_of(exclusions@),
        ) ==> res == spec_matches_filter(value@, views_of(inclusions@), views_of(exclusions@)),
        filter_outcome(value@, views_of(inclusions@), views_of(exclusions@), res),
        inclusions.len() == 0 && exclusions.len() == 0 ==> res,
{
    let ghost mut inc_found: bool = false;
    let included = if inclusions.len() == 0 {
        proof {
            inc_found = lemma_any_outcome_exists(value@, views_of(inclusions@));
        }
        true
    } else {
        let found = matches_any_pattern(value, inclusions);
        proof {
            inc_found = found;
        }
        found
    };
    if !included {
        proof {
            let exc_found = lemma_any_outcome_exists(value@, views_of(exclusions@));
            assert(any_outcome(value@, views_of(inclusions@), inc_found) && any_outcome(
                value@,
                views_of(exclusions@),
                exc_found,
            ));
        }
        return false;
    }
    let excluded = matches_any_pattern(value, exclusions);
    proof {
        assert(any_outcome(value@, views_of(inclusions@), inc_found) && any_outcome(
            value@,
            views_of(exclusions@),
            excluded,
        ));
    }
    !excluded
}

/// Whether a change passes the type and action filters of the settings.
pub open spec fn spec_keeps(c: ChangeView, settings: AppSettings) -> bool {
    &&& spec_matches_filter(
        c.resource_type,
        views_of(settings.include_type@),
        views_of(settings.exclude_type@),
    )
    &&& spec_matches_filter(
        c.action,
        views_of(settings.include_action@),
        views_of(settings.exclude_action@),
    )
}

/// The changes that pass the filters of the settings, in their order.
pub open spec fn spec_filter_changes(s: Seq<ResourceChange>, settings: AppSettings) -> Seq<
    ResourceChange,
>
    decreases s.len(),
{
    if s.len() == 0 {
        Seq::empty()
    } else {
        let before = spec_filter_changes(s.drop_last(), settings);
        if spec_keeps(s.last()@, settings) {
            before.push(s.last())
        } else {
            before
        }
    }
}

/// Whether no resource type, action or filter pattern involved holds a `'\\'`.
pub open spec fn filters_backslash_free(s: Seq<ResourceChange>, settings: AppSettings) -> bool {
    &&& forall|i: int|
        0 <= i < s.len() ==> !has_backslash(#[trigger] s[i].resource_type@) && !has_backslash(
            s[i].action@,
        )
    &&& all_backslash_free(views_of(settings.include_type@))
    &&& all_backslash_free(views_of(settings.exclude_type@))
    &&& all_backslash_free(views_of(settings.include_action@))
    &&& all_backslash_free(views_of(settings.exclude_action@))
}

/// Whether `keep` can be the answer of filtering change `c` by the settings:
/// it passes the type filter and the action filter, each answered as
/// [`filter_outcome`] states.
pub open spec fn keep_outcome(c: ChangeView, settings: AppSettings, keep: bool) -> bool {
    exists|t: bool, a: bool|
        #![trigger filter_outcome(c.resource_type, views_of(settings.include_type@), views_of(settings.exclude_type@), t), filter_outcome(c.action, views_of(settings.include_action@), views_of(settings.exclude_action@), a)]
        filter_outcome(
            c.resource_type,
            views_of(settings.include_type@),
            views_of(settings.exclude_type@),
            t,
        ) && filter_outcome(
            c.action,
            views_of(settings.include_action@),
            views_of(settings.exclude_action@),
            a,
        ) && keep == (t && a)
}

/// The changes of `s` whose mark in `keep` (one mark per change) is set, in
/// their order.
pub open spec fn select_marked(s: Seq<ResourceChange>, keep: Seq<bool>) -> Seq<ResourceChange>
    decreases s.len(),
{
    if s.len() == 0 {
        Seq::empty()
    } else {
        let before = select_marked(s.drop_last(), keep.drop_last());
        if keep.last() {
            before.push(s.last())
        } else {
            before
        }
    }
}

/// Whether the settings hold no type or action filter pattern.
pub open spec fn no_filters(settings: AppSettings) -> bool {
    &&& settings.include_type@.len() == 0
    &&& settings.exclude_type@.len() == 0
    &&& settings.include_action@.len() == 0
    &&& settings.exclude_action@.len() == 0
}

/// The changes that pass the type and action filters of the settings, in
/// their order (see [`spec_filter_changes`]). On every input the result is
/// the input's changes selected, in order, by one answer per change as
/// [`keep_outcome`] states; without filter patterns every change stays.
pub fn filter_changes(resource_changes: Vec<ResourceChange>, settings: &AppSettings) -> (res: Vec<
    ResourceChange,
>)
    ensures
        filters_backslash_free(resource_changes@, *settings) ==> res@ == spec_filter_changes(
            resource_changes@,
            *settings,
        ),
        forall|j: int| 0 <= j < res.len() ==> resource_changes@.contains(#[trigger] res@[j]),
        exists|keep: Seq<bool>|
            {
                &&& keep.len() == resource_changes.len()
                &&& forall|i: int|
                    0 <= i < keep.len() ==> keep_outcome(
                        resource_changes@[i]@,
                        *settings,
                        #[trigger] keep[i],
                    )
                &&& res@ == select_marked(resource_changes@, keep)
            },
        no_filters(*settings) ==> res@ == resource_changes@,
{
    let mut res: Vec<ResourceChange> = Vec::new();
    let ghost mut keep: Seq<bool> = Seq::empty();
    let mut i: usize = 0;
    while i < resource_changes.len()
        invariant
            i <= resource_changes.len(),
            filters_backslash_free(resource_changes@, *settings) ==> res@ == spec_filter_changes(
                resource_changes@.take(i as int),
                *settings,
            ),
            forall|j: int| 0 <= j < res.len() ==> resource_changes@.contains(#[trigger] res@[j]),
            keep.len() == i,
            forall|k: int|
                0 <= k < i ==> keep_outcome(resource_changes@[k]@, *settings, #[trigger] keep[k]),
            res@ == select_marked(resource_changes@.take(i as int), keep),
            no_filters(*settings) ==> res@ == resource_changes@.take(i as int),
        decreases resource_changes.len() - i,
    {
        let change = &resource_changes[i];
        proof {
            let pre = resource_changes@.take(i + 1);
            assert(pre.drop_last() == resource_changes@.take(i as int));
            assert(pre.last() == resource_changes@[i as int]);
        }
        let type_ok = matches_filter(
            change.resource_type.as_str(),
            settings.include_type.as_slice(),
            settings.exclude_type.as_slice(),
        );
        let action_ok = matches_filter(
            change.action.as_str(),
            settings.include_action.as_slice(),
            settings.exclude_action.as_slice(),
        );
        let keep_it = type_ok && action_ok;
        proof {
            assert(filter_outcome(
                change@.resource_type,
                views_of(settings.include_type@),
                views_of(settings.exclude_type@),
                type_ok,
            ) && filter_outcome(
                change@.action,
                views_of(settings.include_action@),
                views_of(settings.exclude_action@),
                action_ok,
            ));
            assert(keep_outcome(change@, *settings, keep_it));
            let k0 = keep;
            keep = keep.push(keep_it);
            assert(keep.drop_last() == k0);
            assert forall|k: int| 0 <= k < i + 1 implies keep_outcome(
                resource_changes@[k]@,
                *settings,
                #[trigger] keep[k],
            ) by {
                if k < i {
                    assert(keep[k] == k0[k]);
                }
            }
        }
        if keep_it {
            let ghost before = res@;
            res.push(change.clone());
            proof {
                assert(res@ == before.push(resource_changes@[i as int]));
                assert forall|j: int| 0 <= j < res.len() implies resource_changes@.contains(
                    #[trigger] res@[j],
                ) by {
                    if j == res.len() - 1 {
                        assert(res@[j] == resource_changes@[i as int]);
                    } else {
                        assert(res@[j] == before[j]);
                    }
                }
            }
        }
        proof {
            if no_filters(*settings) {
                assert(keep_it);
                assert(resource_changes@.take(i + 1) == resource_changes@.take(i as int).push(
                    resource_changes@[i as int],
                ));
            }
        }
        i = i + 1;
    }
    assert(resource_changes@.take(resource_changes.len() as int) == resource_changes@);
    res
}

/// Whether some change's action matches some `fail_on` pattern.
pub open spec fn spec_has_fail_on_actions(
    changes: Seq<ChangeView>,
    fail_on: Seq<Seq<char>>,
) -> bool {
    exists|j: int| 0 <= j < changes.len() && matches_any(#[trigger] changes[j].action, fail_on)
}

/// Some answer to whether a pattern matches `value` (see [`any_outcome`]).
pub open spec fn some_outcome(value: Seq<char>, patterns: Seq<Seq<char>>) -> bool {
    choose|found: bool| any_outcome(value, patterns, found)
}

/// Whether the changes hold an action that `--fail-on` forbids (see
/// [`spec_has_fail_on_actions`]). On every input the answer is whether, for
/// some change, some `fail_on` pattern matches its action, each answered as
/// [`any_outcome`] states; so with no patterns or no changes it is `false`.
pub fn has_fail_on_actions(resource_changes: &[ResourceChange], fail_on: &[String]) -> (res: bool)
    ensures
        (forall|j: int|
            0 <= j < resource_changes@.len() ==> !has_backslash(
                #[trigger] resource_changes@[j].action@,
            )) && all_backslash_free(views_of(fail_on@)) ==> res == spec_has_fail_on_actions(
            changes_view(resource_changes@),
            views_of(fail_on@),
        ),
        exists|found: Seq<bool>|
            {
                &&& found.len() == resource_changes.len()
                &&& forall|j: int|
                    0 <= j < found.len() ==> any_outcome(
                        resource_changes@[j].action@,
                        views_of(fail_on@),
                        #[trigger] found[j],
                    )
                &&& res == any_hit(found)
            },
        fail_on.len() == 0 || resource_changes.len() == 0 ==> !res,
{
    let ghost cs = changes_view(resource_changes@);
    let ghost fo = views_of(fail_on@);
    let ghost guard = (forall|j: int|
        0 <= j < resource_changes@.len() ==> !has_backslash(
            #[trigger] resource_changes@[j].action@,
        )) && all_backslash_free(views_of(fail_on@));
    let ghost mut seen: Seq<bool> = Seq::empty();
    let mut j: usize = 0;
    while j < resource_changes.len()
        invariant
            j <= resource_changes.len(),
            cs == changes_view(resource_changes@),
            fo == views_of(fail_on@),
            guard == ((forall|j: int|
                0 <= j < resource_changes@.len() ==> !has_backslash(
                    #[trigger] resource_changes@[j].action@,
                )) && all_backslash_free(views_of(fail_on@))),
            guard ==> forall|k: int| 0 <= k < j ==> !matches_any(#[trigger] cs[k].action, views_of(fail_on@)),
            seen.len() == j,
            forall|k: int|
                0 <= k < j ==> !(#[trigger] seen[k]) && any_outcome(
                    resource_changes@[k].action@,
                    fo,
                    seen[k],
                ),
        decreases resource_changes.len() - j,
    {
        let hit = matches_any_pattern(resource_changes[j].action.as_str(), fail_on);
        if hit {
            proof {
                if guard {
                    assert(cs[j as int].action == resource_changes@[j as int].action@);
                }
                let n = resource_changes@.len();
                let rest = Seq::new(
                    (n - j - 1) as nat,
                    |k: int| some_outcome(resource_changes@[j + 1 + k].action@, fo),
                );
                let found = seen.push(true) + rest;
                assert forall|k: int| 0 <= k < found.len() implies any_outcome(
                    resource_changes@[k].action@,
                    fo,
                    #[trigger] found[k],
                ) by {
                    if k < j {
                        assert(found[k] == seen[k]);
                    } else if k > j {
                        assert(found[k] == rest[k - j - 1]);
                        lemma_any_outcome_exists(resource_changes@[k].action@, fo);
                    }
                }
                assert(found[j as int]);
                assert(any_hit(found));
            }
            return true;
        }
        proof {
            if guard {
                assert(cs[j as int].action == resource_changes@[j as int].action@);
            }
            seen = seen.push(false);
        }
        j = j + 1;
    }
    proof {
        assert(!any_hit(seen));
    }
    false
}

/// Lexicographic three-way order of two triples of texts.
pub open spec fn triple_order(
    a1: Seq<char>,
    a2: Seq<char>,
    a3: Seq<char>,
    b1: Seq<char>,
    b2: Seq<char>,
    b3: Seq<char>,
) -> int {
    if lex_order(a1, b1) != 0 {
        lex_order(a1, b1)
    } else if lex_order(a2, b2) != 0 {
        lex_order(a2, b2)
    } else {
        lex_order(a3, b3)
    }
}

/// Three-way order of two changes under a sort key: the key's text first, then
/// the other two texts (type, name and action in that order) break ties.
pub open spec fn key_order(a: ChangeView, b: ChangeView, by: SortBy) -> int {
    match by {
        SortBy::Type => triple_order(
            a.resource_type,
            a.resource_name,
            a.action,
            b.resource_type,
            b.resource_name,
            b.action,
        ),
        SortBy::Name => triple_order(
            a.resource_name,
            a.resource_type,
            a.action,
            b.resource_name,
            b.resource_type,
            b.action,
        ),
        SortBy::Action => triple_order(
            a.action,
            a.resource_type,
            a.resource_name,
            b.action,
            b.resource_type,
            b.resource_name,
        ),
    }
}

proof fn lemma_triple_order_trans(
    a1: Seq<char>,
    a2: Seq<char>,
    a3: Seq<char>,
    b1: Seq<char>,
    b2: Seq<char>,
    b3: Seq<char>,
    c1: Seq<char>,
    c2: Seq<char>,
    c3: Seq<char>,
)
    requires
        triple_order(a1, a2, a3, b1, b2, b3) <= 0,
        triple_order(b1, b2, b3, c1, c2, c3) <= 0,
    ensures
        triple_order(a1, a2, a3, c1, c2, c3) <= 0,
{
    lemma_lex_order_antisym(a1, b1);
    lemma_lex_order_antisym(b1, c1);
    lemma_lex_order_antisym(a1, c1);
    lemma_lex_order_antisym(a2, b2);
    lemma_lex_order_antisym(b2, c2);
    lemma_lex_order_antisym(a2, c2);
    lemma_lex_order_zero(a1, b1);
    lemma_lex_order_zero(b1, c1);
    lemma_lex_order_zero(a1, c1);
    lemma_lex_order_zero(a2, b2);
    lemma_lex_order_zero(b2, c2);
    lemma_lex_order_zero(a2, c2);
    assert(lex_order(a1, b1) <= 0);
    assert(lex_order(b1, c1) <= 0);
    lemma_lex_order_trans(a1, b1, c1);
    if lex_order(a1, c1) == 0 {
        assert(a1 == c1);
        lemma_lex_order_antisym(a1, b1);
        assert(a1 == b1);
        assert(lex_order(a2, b2) <= 0);
        assert(lex_order(b2, c2) <= 0);
        lemma_lex_order_trans(a2, b2, c2);
        if lex_order(a2, c2) == 0 {
            assert(a2 == c2);
            assert(a2 == b2);
            lemma_lex_order_trans(a3, b3, c3);
        }
    }
}

proof fn lemma_triple_order_antisym(
    a1: Seq<char>,
    a2: Seq<char>,
    a3: Seq<char>,
    b1: Seq<char>,
    b2: Seq<char>,
    b3: Seq<char>,
)
    ensures
        triple_order(a1, a2, a3, b1, b2, b3) == -triple_order(b1, b2, b3, a1, a2, a3),
        triple_order(a1, a2, a3, b1, b2, b3) == 0 <==> (a1 == b1 && a2 == b2 && a3 == b3),
{
    lemma_lex_order_antisym(a1, b1);
    lemma_lex_order_antisym(a2, b2);
    lemma_lex_order_antisym(a3, b3);
    lemma_lex_order_zero(a1, b1);
    lemma_lex_order_zero(a2, b2);
    lemma_lex_order_zero(a3, b3);
}

/// Whether a sequence of changes is in non-decreasing order under a sort key.
pub open spec fn sorted_by_key(s: Seq<ResourceChange>, by: SortBy) -> bool {
    forall|i: int, j: int| 0 <= i < j < s.len() ==> key_order(#[trigger] s[i]@, #[trigger] s[j]@, by) <= 0
}

/// Lemma: the key order is antisymmetric, and only equal models compare equal.
pub proof fn lemma_key_order_antisym(a: ChangeView, b: ChangeView, by: SortBy)
    ensures
        key_order(a, b, by) == -key_order(b, a, by),
        key_order(a, b, by) == 0 <==> a == b,
{
    match by {
        SortBy::Type => lemma_triple_order_antisym(
            a.resource_type,
            a.resource_name,
            a.action,
            b.resource_type,
            b.resource_name,
            b.action,
        ),
        SortBy::Name => lemma_triple_order_antisym(
            a.resource_name,
            a.resource_type,
            a.action,
            b.resource_name,
            b.resource_type,
            b.action,
        ),
        SortBy::Action => lemma_triple_order_antisym(
            a.action,
            a.resource_type,
            a.resource_name,
            b.action,
            b.resource_type,
            b.resource_name,
        ),
    }
}

/// Lemma: the key order is transitive.
pub proof fn lemma_key_order_trans(a: ChangeView, b: ChangeView, c: ChangeView, by: SortBy)
    requires
        key_order(a, b, by) <= 0,
        key_order(b, c, by) <= 0,
    ensures
        key_order(a, c, by) <= 0,
{
    match by {
        SortBy::Type => lemma_triple_order_trans(
            a.resource_type,
            a.resource_name,
            a.action,
            b.resource_type,
            b.resource_name,
            b.action,
            c.resource_type,
            c.resource_name,
            c.action,
        ),
        SortBy::Name => lemma_triple_order_trans(
            a.resource_name,
            a.resource_type,
            a.action,
            b.resource_name,
            b.resource_type,
            b.action,
            c.resource_name,
            c.resource_type,
            c.action,
        ),
        SortBy::Action => lemma_triple_order_trans(
            a.action,
            a.resource_type,
            a.resource_name,
            b.action,
            b.resource_type,
            b.resource_name,
            c.action,
            c.resource_type,
            c.resource_name,
        ),
    }
}

/// Three-way comparison of two changes under a sort key (see [`key_order`]).
pub fn compare_changes(a: &ResourceChange, b: &ResourceChange, by: SortBy) -> (res: i8)
    ensures
        res as int == key_order(a@, b@, by),
{
    let (a1, a2, a3, b1, b2, b3) = match by {
        SortBy::Type => (
            &a.resource_type,
            &a.resource_name,
            &a.action,
            &b.resource_type,
            &b.resource_name,
            &b.action,
        ),
        SortBy::Name => (
            &a.resource_name,
            &a.resource_type,
            &a.action,
            &b.resource_name,
            &b.resource_type,
            &b.action,
        ),
        SortBy::Action => (
            &a.action,
            &a.resource_type,
            &a.resource_name,
            &b.action,
            &b.resource_type,
            &b.resource_name,
        ),
    };
    let first = compare_chars(&chars_of(a1.as_str()), &chars_of(b1.as_str()));
    if first != 0 {
        return first;
    }
    let second = compare_chars(&chars_of(a2.as_str()), &chars_of(b2.as_str()));
    if second != 0 {
        return second;
    }
    compare_chars(&chars_of(a3.as_str()), &chars_of(b3.as_str()))
}

/// Sorts the changes by the given key, leaving them as they are when there is
/// none. The result holds the same changes, in non-decreasing key order; since
/// the key order only ties equal changes, that fixes the result.
pub fn sort_resource_changes(changes: &mut Vec<ResourceChange>, sort_by: Option<SortBy>)
    ensures
        sort_by is None ==> final(changes)@ == old(changes)@,
        final(changes)@.to_multiset() == old(changes)@.to_multiset(),
        sort_by matches Some(by) ==> sorted_by_key(final(changes)@, by),
{
    let by = match sort_by {
        Some(by) => by,
        None => return,
    };
    let mut input: Vec<ResourceChange> = Vec::new();
    std::mem::swap(&mut input, changes);
    let ghost initial = input@;
    let mut out: Vec<ResourceChange> = Vec::new();
    proof {
        broadcast use vstd::seq_lib::group_to_multiset_ensures;

        assert(out@.to_multiset() =~= Multiset::empty());
        assert(input@.to_multiset().add(out@.to_multiset()) =~= initial.to_multiset());
    }
    while input.len() > 0
        invariant
            input@.to_multiset().add(out@.to_multiset()) == initial.to_multiset(),
            sorted_by_key(out@, by),
        decreases input.len(),
    {
        broadcast use vstd::seq_lib::group_to_multiset_ensures;

        let ghost in0 = input@;
        let x = input.pop().unwrap();
        proof {
            assert(in0 == input@.push(x));
        }
        let mut p: usize = 0;
        while p < out.len() && compare_changes(&x, &out[p], by) > 0
            invariant
                p <= out.len(),
                forall|k: int| 0 <= k < p ==> key_order(x@, #[trigger] out@[k]@, by) > 0,
            decreases out.len() - p,
        {
            p = p + 1;
        }
        let ghost out0 = out@;
        out.insert(p, x);
        proof {
            assert(out@ == out0.insert(p as int, x));
            assert forall|i: int, j: int| 0 <= i < j < out@.len() implies key_order(
                #[trigger] out@[i]@,
                #[trigger] out@[j]@,
                by,
            ) <= 0 by {
                if j < p {
                    assert(out@[i] == out0[i] && out@[j] == out0[j]);
                } else if j == p {
                    assert(out@[i] == out0[i]);
                    lemma_key_order_antisym(x@, out0[i]@, by);
                } else if i == p {
                    assert(out@[j] == out0[j - 1]);
                    assert(p < out0.len());
                    assert(key_order(x@, out0[p as int]@, by) <= 0);
                    if j - 1 > p {
                        lemma_key_order_trans(x@, out0[p as int]@, out0[j - 1]@, by);
                    }
                } else if i < p {
                    assert(out@[i] == out0[i] && out@[j] == out0[j - 1]);
                } else {
                    assert(out@[i] == out0[i - 1] && out@[j] == out0[j - 1]);
                }
            }
            vstd::seq_lib::to_multiset_insert(out0, p as int, x);
            vstd::seq_lib::to_multiset_build(input@, x);
            assert(input@.to_multiset().add(out@.to_multiset()) =~= initial.to_multiset());
        }
    }
    proof {
        broadcast use vstd::seq_lib::group_to_multiset_ensures;

        assert(input@.to_multiset() =~= Multiset::empty());
        assert(out@.to_multiset() =~= initial.to_multiset());
    }
    *changes = out;
}

} // verus!
