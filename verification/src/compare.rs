//! Comparison of two plans: the resources that the new plan adds, those that
//! it no longer has, and those whose action changed. Resources are matched by
//! type and name; where a plan lists a resource more than once, its last
//! entry counts.
use vstd::prelude::*;

use crate::parser::{ChangeView, ResourceChange, changes_view};
use crate::text::{
    chars_of, compare_chars, lemma_lex_order_antisym, lemma_lex_order_trans, lemma_lex_order_zero,
    lex_order, text_eq,
};

verus! {

/// A resource whose action differs between two plans.
#[derive(Debug, PartialEq, Eq)]
pub struct ChangedResource {
    pub resource_type: String,
    pub resource_name: String,
    pub old_action: String,
    pub new_action: String,
}

/// The model of a [`ChangedResource`].
pub struct ChangedView {
    pub resource_type: Seq<char>,
    pub resource_name: Seq<char>,
    pub old_action: Seq<char>,
    pub new_action: Seq<char>,
}

impl View for ChangedResource {
    type V = ChangedView;

    open spec fn view(&self) -> ChangedView {
        ChangedView {
            resource_type: self.resource_type@,
            resource_name: self.resource_name@,
            old_action: self.old_action@,
            new_action: self.new_action@,
        }
    }
}

/// The models of a sequence of changed resources.
pub open spec fn changed_view(s: Seq<ChangedResource>) -> Seq<ChangedView> {
    s.map_values(|c: ChangedResource| c@)
}

/// The difference between two plans.
#[derive(Debug, PartialEq, Eq)]
pub struct PlanDiff {
    /// Resources of the new plan that the old plan does not have.
    pub added: Vec<ResourceChange>,
    /// Resources of the old plan that the new plan does not have.
    pub removed: Vec<ResourceChange>,
    /// Resources of both plans whose actions differ.
    pub changed: Vec<ChangedResource>,
}

impl PlanDiff {
    /// Whether the plans do not differ.
    pub fn is_empty(&self) -> (res: bool)
        ensures
            res == (self.added@.len() == 0 && self.removed@.len() == 0 && self.changed@.len()
                == 0),
    {
        self.added.len() == 0 && self.removed.len() == 0 && self.changed.len() == 0
    }

    /// How many resources differ, all three kinds together.
    pub fn total_changes(&self) -> (res: usize)
        requires
            self.added@.len() + self.removed@.len() + self.changed@.len() <= usize::MAX,
        ensures
            res == self.added@.len() + self.removed@.len() + self.changed@.len(),
    {
        self.added.len() + self.removed.len() + self.changed.len()
    }
}

/// Lexicographic three-way order of two (type, name) keys.
pub open spec fn pair_order(t1: Seq<char>, n1: Seq<char>, t2: Seq<char>, n2: Seq<char>) -> int {
    if lex_order(t1, t2) != 0 {
        lex_order(t1, t2)
    } else {
        lex_order(n1, n2)
    }
}

/// Whether a change is of the resource with the given type and name.
pub open spec fn same_key(c: ChangeView, t: Seq<char>, n: Seq<char>) -> bool {
    c.resource_type == t && c.resource_name == n
}

/// The position of the last entry of a resource in a plan, or -1 when the
/// plan has none.
pub open spec fn last_index(s: Seq<ChangeView>, t: Seq<char>, n: Seq<char>) -> int
    decreases s.len(),
{
    if s.len() == 0 {
        -1
    } else if same_key(s.last(), t, n) {
        s.len() - 1
    } else {
        last_index(s.drop_last(), t, n)
    }
}

/// The action of the last entry of a resource in a plan, if it has one.
pub open spec fn last_action(s: Seq<ChangeView>, t: Seq<char>, n: Seq<char>) -> Option<Seq<char>> {
    if last_index(s, t, n) < 0 {
        None
    } else {
        Some(s[last_index(s, t, n)].action)
    }
}

/// Whether changes are in strictly increasing (type, name) order; so no
/// resource occurs twice.
pub open spec fn strictly_sorted(s: Seq<ChangeView>) -> bool {
    forall|i: int, j: int|
        0 <= i < j < s.len() ==> pair_order(
            #[trigger] s[i].resource_type,
            s[i].resource_name,
            #[trigger] s[j].resource_type,
            s[j].resource_name,
        ) < 0
}

/// Whether changed resources are in strictly increasing (type, name) order.
pub open spec fn changed_strictly_sorted(s: Seq<ChangedView>) -> bool {
    forall|i: int, j: int|
        0 <= i < j < s.len() ==> pair_order(
            #[trigger] s[i].resource_type,
            s[i].resource_name,
            #[trigger] s[j].resource_type,
            s[j].resource_name,
        ) < 0
}

/// Whether `d` lists exactly the resources of `from` that `other` does not
/// have, with their last action in `from`, in (type, name) order.
pub open spec fn is_one_sided(d: Seq<ChangeView>, from: Seq<ChangeView>, other: Seq<ChangeView>) -> bool {
    &&& strictly_sorted(d)
    &&& forall|i: int|
        0 <= i < d.len() ==> last_action(from, #[trigger] d[i].resource_type, d[i].resource_name)
            == Some(d[i].action) && last_action(other, d[i].resource_type, d[i].resource_name)
            is None
    &&& forall|k: int|
        0 <= k < from.len() && last_action(
            other,
            #[trigger] from[k].resource_type,
            from[k].resource_name,
        ) is None ==> exists|i: int|
            0 <= i < d.len() && same_key(#[trigger] d[i], from[k].resource_type, from[k].resource_name)
}

/// Whether a resource's last actions in both plans exist and differ.
pub open spec fn action_changed(old: Seq<ChangeView>, new: Seq<ChangeView>, t: Seq<char>, n: Seq<char>) -> bool {
    &&& last_action(old, t, n) is Some
    &&& last_action(new, t, n) is Some
    &&& last_action(old, t, n) != last_action(new, t, n)
}

/// Whether `d` lists exactly the resources of both plans whose last actions
/// differ, with both actions, in (type, name) order.
pub open spec fn is_changed_list(d: Seq<ChangedView>, old: Seq<ChangeView>, new: Seq<ChangeView>) -> bool {
    &&& changed_strictly_sorted(d)
    &&& forall|i: int|
        0 <= i < d.len() ==> last_action(old, #[trigger] d[i].resource_type, d[i].resource_name)
            == Some(d[i].old_action) && last_action(new, d[i].resource_type, d[i].resource_name)
            == Some(d[i].new_action) && d[i].old_action != d[i].new_action
    &&& forall|k: int|
        0 <= k < new.len() && action_changed(
            old,
            new,
            #[trigger] new[k].resource_type,
            new[k].resource_name,
        ) ==> exists|i: int|
            0 <= i < d.len() && (#[trigger] d[i]).resource_type == new[k].resource_type
                && d[i].resource_name == new[k].resource_name
}

/// Whether a diff is the comparison of two plans: the added, removed and
/// changed resources, each list in (type, name) order.
pub open spec fn is_plan_diff(diff: PlanDiff, old: Seq<ChangeView>, new: Seq<ChangeView>) -> bool {
    &&& is_one_sided(changes_view(diff.added@), new, old)
    &&& is_one_sided(changes_view(diff.removed@), old, new)
    &&& is_changed_list(changed_view(diff.changed@), old, new)
}

/// Lemma: what the last index of a resource says.
pub proof fn lemma_last_index(s: Seq<ChangeView>, t: Seq<char>, n: Seq<char>)
    ensures
        -1 <= last_index(s, t, n) < s.len(),
        last_index(s, t, n) >= 0 ==> same_key(s[last_index(s, t, n)], t, n),
        forall|j: int| last_index(s, t, n) < j < s.len() ==> !same_key(#[trigger] s[j], t, n),
    decreases s.len(),
{
    if s.len() > 0 {
        lemma_last_index(s.drop_last(), t, n);
        if !same_key(s.last(), t, n) {
            assert forall|j: int| last_index(s, t, n) < j < s.len() implies !same_key(#[trigger] s[j], t, n) by {
                if j < s.len() - 1 {
                    assert(s[j] == s.drop_last()[j]);
                }
            }
        }
    }
}

/// Lemma: the entry at the last index of its own resource's key is that index,
/// and every entry has a last index at or after it.
pub proof fn lemma_last_index_of_entry(s: Seq<ChangeView>, k: int)
    requires
        0 <= k < s.len(),
    ensures
        k <= last_index(s, s[k].resource_type, s[k].resource_name),
        last_index(s, s[k].resource_type, s[k].resource_name) < s.len(),
        same_key(
            s[last_index(s, s[k].resource_type, s[k].resource_name)],
            s[k].resource_type,
            s[k].resource_name,
        ),
{
    lemma_last_index(s, s[k].resource_type, s[k].resource_name);
}

/// Lemma: the (type, name) order is antisymmetric, and only equal keys compare
/// equal.
pub proof fn lemma_pair_order_antisym(t1: Seq<char>, n1: Seq<char>, t2: Seq<char>, n2: Seq<char>)
    ensures
        pair_order(t1, n1, t2, n2) == -pair_order(t2, n2, t1, n1),
        pair_order(t1, n1, t2, n2) == 0 <==> (t1 == t2 && n1 == n2),
{
    lemma_lex_order_antisym(t1, t2);
    lemma_lex_order_antisym(n1, n2);
    lemma_lex_order_zero(t1, t2);
    lemma_lex_order_zero(n1, n2);
}

proof fn lemma_pair_order_trans(
    t1: Seq<char>,
    n1: Seq<char>,
    t2: Seq<char>,
    n2: Seq<char>,
    t3: Seq<char>,
    n3: Seq<char>,
)
    requires
        pair_order(t1, n1, t2, n2) < 0,
        pair_order(t2, n2, t3, n3) < 0,
    ensures
        pair_order(t1, n1, t3, n3) < 0,
{
    lemma_lex_order_antisym(t1, t2);
    lemma_lex_order_antisym(t2, t3);
    lemma_lex_order_antisym(t1, t3);
    lemma_lex_order_antisym(n1, n2);
    lemma_lex_order_antisym(n2, n3);
    lemma_lex_order_antisym(n1, n3);
    lemma_lex_order_zero(t1, t2);
    lemma_lex_order_zero(t2, t3);
    lemma_lex_order_zero(t1, t3);
    lemma_lex_order_zero(n1, n2);
    lemma_lex_order_zero(n2, n3);
    lemma_lex_order_zero(n1, n3);
    lemma_lex_order_trans(t1, t2, t3);
    if lex_order(t1, t3) == 0 {
        lemma_lex_order_trans(t2, t3, t1);
        lemma_lex_order_trans(t3, t1, t2);
        assert(t1 == t2);
        lemma_lex_order_trans(n1, n2, n3);
        if lex_order(n1, n3) == 0 {
            lemma_lex_order_trans(n2, n3, n1);
            assert(n2 == n3);
        }
    }
}

/// Three-way (type, name) comparison of two keys (see [`pair_order`]).
fn compare_keys(t1: &str, n1: &str, t2: &str, n2: &str) -> (res: i8)
    ensures
        res as int == pair_order(t1@, n1@, t2@, n2@),
{
    let first = compare_chars(&chars_of(t1), &chars_of(t2));
    if first != 0 {
        return first;
    }
    compare_chars(&chars_of(n1), &chars_of(n2))
}

/// The position of the last entry of a resource (see [`last_index`]).
fn find_last(s: &[ResourceChange], t: &str, n: &str) -> (res: Option<usize>)
    ensures
        match res {
            Some(k) => k as int == last_index(changes_view(s@), t@, n@),
            None => last_index(changes_view(s@), t@, n@) == -1,
        },
{
    let ghost all = changes_view(s@);
    let mut i = s.len();
    assert(all.take(i as int) == all);
    while i > 0
        invariant
            i <= s.len(),
            all == changes_view(s@),
            last_index(all, t@, n@) == last_index(all.take(i as int), t@, n@),
        decreases i,
    {
        let c = &s[i - 1];
        proof {
            assert(all.take(i as int).last() == c@);
            assert(all.take(i as int).drop_last() == all.take(i - 1));
        }
        if text_eq(c.resource_type.as_str(), t) && text_eq(c.resource_name.as_str(), n) {
            return Some(i - 1);
        }
        i = i - 1;
    }
    None
}

/// Inserts a change into a list in strictly increasing (type, name) order that
/// does not hold its resource yet.
fn insert_change_sorted(v: &mut Vec<ResourceChange>, c: ResourceChange)
    requires
        strictly_sorted(changes_view(old(v)@)),
        forall|i: int|
            0 <= i < old(v)@.len() ==> !same_key(
                #[trigger] changes_view(old(v)@)[i],
                c@.resource_type,
                c@.resource_name,
            ),
    ensures
        strictly_sorted(changes_view(final(v)@)),
        exists|p: int| 0 <= p <= old(v)@.len() && final(v)@ == old(v)@.insert(p, c),
{
    let ghost v0 = changes_view(v@);
    let mut p: usize = 0;
    while p < v.len() && compare_keys(
        v[p].resource_type.as_str(),
        v[p].resource_name.as_str(),
        c.resource_type.as_str(),
        c.resource_name.as_str(),
    ) < 0
        invariant
            p <= v.len(),
            v0 == changes_view(v@),
            forall|k: int|
                0 <= k < p ==> pair_order(
                    #[trigger] v0[k].resource_type,
                    v0[k].resource_name,
                    c@.resource_type,
                    c@.resource_name,
                ) < 0,
        decreases v.len() - p,
    {
        p = p + 1;
    }
    let ghost before = v@;
    proof {
        if p < v.len() {
            lemma_pair_order_antisym(
                v0[p as int].resource_type,
                v0[p as int].resource_name,
                c@.resource_type,
                c@.resource_name,
            );
            assert(!same_key(v0[p as int], c@.resource_type, c@.resource_name));
        }
    }
    v.insert(p, c);
    proof {
        let now = changes_view(v@);
        assert(v@ == before.insert(p as int, c));
        assert forall|i: int, j: int| 0 <= i < j < now.len() implies pair_order(
            #[trigger] now[i].resource_type,
            now[i].resource_name,
            #[trigger] now[j].resource_type,
            now[j].resource_name,
        ) < 0 by {
            if j < p {
                assert(now[i] == v0[i] && now[j] == v0[j]);
            } else if j == p {
                assert(now[i] == v0[i] && now[j] == c@);
            } else if i == p {
                assert(now[i] == c@ && now[j] == v0[j - 1]);
                lemma_pair_order_antisym(
                    v0[p as int].resource_type,
                    v0[p as int].resource_name,
                    c@.resource_type,
                    c@.resource_name,
                );
                if j - 1 > p {
                    lemma_pair_order_trans(
                        c@.resource_type,
                        c@.resource_name,
                        v0[p as int].resource_type,
                        v0[p as int].resource_name,
                        v0[j - 1].resource_type,
                        v0[j - 1].resource_name,
                    );
                }
            } else if i < p {
                assert(now[i] == v0[i] && now[j] == v0[j - 1]);
                lemma_pair_order_antisym(
                    v0[p as int].resource_type,
                    v0[p as int].resource_name,
                    c@.resource_type,
                    c@.resource_name,
                );
                if j - 1 > p {
                    lemma_pair_order_trans(
                        c@.resource_type,
                        c@.resource_name,
                        v0[p as int].resource_type,
                        v0[p as int].resource_name,
                        v0[j - 1].resource_type,
                        v0[j - 1].resource_name,
                    );
                }
                lemma_pair_order_trans(
                    v0[i].resource_type,
                    v0[i].resource_name,
                    c@.resource_type,
                    c@.resource_name,
                    v0[j - 1].resource_type,
                    v0[j - 1].resource_name,
                );
            } else {
                assert(now[i] == v0[i - 1] && now[j] == v0[j - 1]);
            }
        }
    }
}

/// Inserts a changed resource into a list in strictly increasing (type, name)
/// order that does not hold its resource yet.
fn insert_changed_sorted(v: &mut Vec<ChangedResource>, c: ChangedResource)
    requires
        changed_strictly_sorted(changed_view(old(v)@)),
        forall|i: int|
            0 <= i < old(v)@.len() ==> !((#[trigger] changed_view(old(v)@)[i]).resource_type
                == c@.resource_type && changed_view(old(v)@)[i].resource_name == c@.resource_name),
    ensures
        changed_strictly_sorted(changed_view(final(v)@)),
        exists|p: int| 0 <= p <= old(v)@.len() && final(v)@ == old(v)@.insert(p, c),
{
    let ghost v0 = changed_view(v@);
    let mut p: usize = 0;
    while p < v.len() && compare_keys(
        v[p].resource_type.as_str(),
        v[p].resource_name.as_str(),
        c.resource_type.as_str(),
        c.resource_name.as_str(),
    ) < 0
        invariant
            p <= v.len(),
            v0 == changed_view(v@),
            forall|k: int|
                0 <= k < p ==> pair_order(
                    #[trigger] v0[k].resource_type,
                    v0[k].resource_name,
                    c@.resource_type,
                    c@.resource_name,
                ) < 0,
        decreases v.len() - p,
    {
        p = p + 1;
    }
    let ghost before = v@;
    proof {
        if p < v.len() {
            lemma_pair_order_antisym(
                v0[p as int].resource_type,
                v0[p as int].resource_name,
                c@.resource_type,
                c@.resource_name,
            );
            assert(!(v0[p as int].resource_type == c@.resource_type && v0[p as int].resource_name == c@.resource_name));
        }
    }
    v.insert(p, c);
    proof {
        let now = changed_view(v@);
        assert(v@ == before.insert(p as int, c));
        assert forall|i: int, j: int| 0 <= i < j < now.len() implies pair_order(
            #[trigger] now[i].resource_type,
            now[i].resource_name,
            #[trigger] now[j].resource_type,
            now[j].resource_name,
        ) < 0 by {
            if j < p {
                assert(now[i] == v0[i] && now[j] == v0[j]);
            } else if j == p {
                assert(now[i] == v0[i] && now[j] == c@);
            } else if i == p {
                assert(now[i] == c@ && now[j] == v0[j - 1]);
                lemma_pair_order_antisym(
                    v0[p as int].resource_type,
                    v0[p as int].resource_name,
                    c@.resource_type,
                    c@.resource_name,
                );
                if j - 1 > p {
                    lemma_pair_order_trans(
                        c@.resource_type,
                        c@.resource_name,
                        v0[p as int].resource_type,
                        v0[p as int].resource_name,
                        v0[j - 1].resource_type,
                        v0[j - 1].resource_name,
                    );
                }
            } else if i < p {
                assert(now[i] == v0[i] && now[j] == v0[j - 1]);
                lemma_pair_order_antisym(
                    v0[p as int].resource_type,
                    v0[p as int].resource_name,
                    c@.resource_type,
                    c@.resource_name,
                );
                if j - 1 > p {
                    lemma_pair_order_trans(
                        c@.resource_type,
                        c@.resource_name,
                        v0[p as int].resource_type,
                        v0[p as int].resource_name,
                        v0[j - 1].resource_type,
                        v0[j - 1].resource_name,
                    );
                }
                lemma_pair_order_trans(
                    v0[i].resource_type,
                    v0[i].resource_name,
                    c@.resource_type,
                    c@.resource_name,
                    v0[j - 1].resource_type,
                    v0[j - 1].resource_name,
                );
            } else {
                assert(now[i] == v0[i - 1] && now[j] == v0[j - 1]);
            }
        }
    }
}

/// The resources of `from` that `other` does not have, with their last action
/// in `from`, in (type, name) order.
fn one_sided(from: &[ResourceChange], other: &[ResourceChange]) -> (res: Vec<ResourceChange>)
    ensures
        is_one_sided(changes_view(res@), changes_view(from@), changes_view(other@)),
{
    let ghost fv = changes_view(from@);
    let ghost ov = changes_view(other@);
    let mut out: Vec<ResourceChange> = Vec::new();
    let mut i: usize = 0;
    while i < from.len()
        invariant
            i <= from.len(),
            fv == changes_view(from@),
            ov == changes_view(other@),
            strictly_sorted(changes_view(out@)),
            forall|q: int|
                0 <= q < out@.len() ==> last_action(
                    fv,
                    #[trigger] changes_view(out@)[q].resource_type,
                    changes_view(out@)[q].resource_name,
                ) == Some(changes_view(out@)[q].action) && last_action(
                    ov,
                    changes_view(out@)[q].resource_type,
                    changes_view(out@)[q].resource_name,
                ) is None && last_index(
                    fv,
                    changes_view(out@)[q].resource_type,
                    changes_view(out@)[q].resource_name,
                ) < i,
            forall|k: int|
                0 <= k < i && last_index(fv, fv[k].resource_type, fv[k].resource_name) == k
                    && last_action(ov, #[trigger] fv[k].resource_type, fv[k].resource_name)
                    is None ==> exists|q: int|
                    0 <= q < out@.len() && same_key(
                        #[trigger] changes_view(out@)[q],
                        fv[k].resource_type,
                        fv[k].resource_name,
                    ),
        decreases from.len() - i,
    {
        let c = &from[i];
        let last_here = find_last(from, c.resource_type.as_str(), c.resource_name.as_str());
        let is_last = match last_here {
            Some(k) => k == i,
            None => false,
        };
        let ghost out0 = out@;
        proof {
            lemma_last_index_of_entry(fv, i as int);
            assert(fv[i as int] == c@);
        }
        if is_last {
            let in_other = find_last(other, c.resource_type.as_str(), c.resource_name.as_str());
            if in_other.is_none() {
                proof {
                    assert forall|q: int| 0 <= q < out0.len() implies !same_key(
                        #[trigger] changes_view(out0)[q],
                        c@.resource_type,
                        c@.resource_name,
                    ) by {
                        let e = changes_view(out0)[q];
                        if same_key(e, c@.resource_type, c@.resource_name) {
                            assert(last_index(fv, e.resource_type, e.resource_name) == i);
                        }
                    }
                }
                insert_change_sorted(&mut out, c.clone());
                proof {
                    let p = choose|p: int| 0 <= p <= out0.len() && out@ == out0.insert(p, *c);
                    let now = changes_view(out@);
                    let was = changes_view(out0);
                    assert forall|q: int| 0 <= q < out@.len() implies last_action(
                        fv,
                        #[trigger] now[q].resource_type,
                        now[q].resource_name,
                    ) == Some(now[q].action) && last_action(
                        ov,
                        now[q].resource_type,
                        now[q].resource_name,
                    ) is None && last_index(fv, now[q].resource_type, now[q].resource_name) < i
                        + 1 by {
                        if q < p {
                            assert(now[q] == was[q]);
                        } else if q == p {
                            assert(now[q] == c@);
                        } else {
                            assert(now[q] == was[q - 1]);
                        }
                    }
                    assert forall|k: int|
                        0 <= k < i + 1 && last_index(fv, fv[k].resource_type, fv[k].resource_name)
                            == k && last_action(ov, #[trigger] fv[k].resource_type, fv[k].resource_name)
                            is None implies exists|q: int|
                        0 <= q < out@.len() && same_key(
                            #[trigger] changes_view(out@)[q],
                            fv[k].resource_type,
                            fv[k].resource_name,
                        ) by {
                        if k == i {
                            assert(now[p] == c@);
                        } else {
                            let q0 = choose|q: int|
                                0 <= q < out0.len() && same_key(
                                    #[trigger] changes_view(out0)[q],
                                    fv[k].resource_type,
                                    fv[k].resource_name,
                                );
                            if q0 < p {
                                assert(now[q0] == was[q0]);
                            } else {
                                assert(now[q0 + 1] == was[q0]);
                            }
                        }
                    }
                }
            } else {
                proof {
                    assert forall|k: int|
                        0 <= k < i + 1 && last_index(fv, fv[k].resource_type, fv[k].resource_name)
                            == k && last_action(ov, #[trigger] fv[k].resource_type, fv[k].resource_name)
                            is None implies exists|q: int|
                        0 <= q < out@.len() && same_key(
                            #[trigger] changes_view(out@)[q],
                            fv[k].resource_type,
                            fv[k].resource_name,
                        ) by {
                        if k == i {
                            assert(false);
                        }
                    }
                }
            }
        } else {
            proof {
                assert forall|k: int|
                    0 <= k < i + 1 && last_index(fv, fv[k].resource_type, fv[k].resource_name)
                        == k && last_action(ov, #[trigger] fv[k].resource_type, fv[k].resource_name)
                        is None implies exists|q: int|
                    0 <= q < out@.len() && same_key(
                        #[trigger] changes_view(out@)[q],
                        fv[k].resource_type,
                        fv[k].resource_name,
                    ) by {
                    if k == i {
                        assert(false);
                    }
                }
            }
        }
        i = i + 1;
    }
    proof {
        assert forall|k: int|
            0 <= k < fv.len() && last_action(ov, #[trigger] fv[k].resource_type, fv[k].resource_name)
                is None implies exists|q: int|
            0 <= q < out@.len() && same_key(
                #[trigger] changes_view(out@)[q],
                fv[k].resource_type,
                fv[k].resource_name,
            ) by {
            lemma_last_index_of_entry(fv, k);
            let m = last_index(fv, fv[k].resource_type, fv[k].resource_name);
            assert(same_key(fv[m], fv[k].resource_type, fv[k].resource_name));
            assert(fv[m].resource_type == fv[k].resource_type);
            assert(fv[m].resource_name == fv[k].resource_name);
            assert(last_index(fv, fv[m].resource_type, fv[m].resource_name) == m);
        }
    }
    out
}

/// The resources of both plans whose last actions differ, with both actions,
/// in (type, name) order.
fn changed_list(old: &[ResourceChange], new: &[ResourceChange]) -> (res: Vec<ChangedResource>)
    ensures
        is_changed_list(changed_view(res@), changes_view(old@), changes_view(new@)),
{
    let ghost ov = changes_view(old@);
    let ghost nv = changes_view(new@);
    let mut out: Vec<ChangedResource> = Vec::new();
    let mut i: usize = 0;
    while i < new.len()
        invariant
            i <= new.len(),
            ov == changes_view(old@),
            nv == changes_view(new@),
            changed_strictly_sorted(changed_view(out@)),
            forall|q: int|
                0 <= q < out@.len() ==> last_action(
                    ov,
                    #[trigger] changed_view(out@)[q].resource_type,
                    changed_view(out@)[q].resource_name,
                ) == Some(changed_view(out@)[q].old_action) && last_action(
                    nv,
                    changed_view(out@)[q].resource_type,
                    changed_view(out@)[q].resource_name,
                ) == Some(changed_view(out@)[q].new_action) && changed_view(out@)[q].old_action
                    != changed_view(out@)[q].new_action && last_index(
                    nv,
                    changed_view(out@)[q].resource_type,
                    changed_view(out@)[q].resource_name,
                ) < i,
            forall|k: int|
                0 <= k < i && last_index(nv, nv[k].resource_type, nv[k].resource_name) == k
                    && action_changed(ov, nv, #[trigger] nv[k].resource_type, nv[k].resource_name)
                    ==> exists|q: int|
                    0 <= q < out@.len() && (#[trigger] changed_view(out@)[q]).resource_type
                        == nv[k].resource_type && changed_view(out@)[q].resource_name
                        == nv[k].resource_name,
        decreases new.len() - i,
    {
        let c = &new[i];
        let last_here = find_last(new, c.resource_type.as_str(), c.resource_name.as_str());
        let is_last = match last_here {
            Some(k) => k == i,
            None => false,
        };
        let ghost out0 = out@;
        proof {
            lemma_last_index_of_entry(nv, i as int);
            assert(nv[i as int] == c@);
        }
        let mut inserted = false;
        if is_last {
            let in_old = find_last(old, c.resource_type.as_str(), c.resource_name.as_str());
            proof {
                lemma_last_index(ov, c@.resource_type, c@.resource_name);
            }
            match in_old {
                Some(j) => {
                    if !text_eq(old[j].action.as_str(), c.action.as_str()) {
                        let entry = ChangedResource {
                            resource_type: c.resource_type.clone(),
                            resource_name: c.resource_name.clone(),
                            old_action: old[j].action.clone(),
                            new_action: c.action.clone(),
                        };
                        proof {
                            assert(ov[j as int] == old@[j as int]@);
                            assert forall|q: int| 0 <= q < out0.len() implies !((
                            #[trigger] changed_view(out0)[q]).resource_type == entry@.resource_type
                                && changed_view(out0)[q].resource_name
                                == entry@.resource_name) by {
                                let e = changed_view(out0)[q];
                                if e.resource_type == entry@.resource_type && e.resource_name
                                    == entry@.resource_name {
                                    assert(last_index(nv, e.resource_type, e.resource_name) == i);
                                }
                            }
                        }
                        insert_changed_sorted(&mut out, entry);
                        inserted = true;
                        proof {
                            let p = choose|p: int|
                                0 <= p <= out0.len() && out@ == out0.insert(p, entry);
                            let now = changed_view(out@);
                            let was = changed_view(out0);
                            assert forall|q: int| 0 <= q < out@.len() implies last_action(
                                ov,
                                #[trigger] now[q].resource_type,
                                now[q].resource_name,
                            ) == Some(now[q].old_action) && last_action(
                                nv,
                                now[q].resource_type,
                                now[q].resource_name,
                            ) == Some(now[q].new_action) && now[q].old_action != now[q].new_action
                                && last_index(nv, now[q].resource_type, now[q].resource_name) < i
                                + 1 by {
                                if q < p {
                                    assert(now[q] == was[q]);
                                } else if q == p {
                                    assert(now[q] == entry@);
                                } else {
                                    assert(now[q] == was[q - 1]);
                                }
                            }
                            assert forall|k: int|
                                0 <= k < i + 1 && last_index(
                                    nv,
                                    nv[k].resource_type,
                                    nv[k].resource_name,
                                ) == k && action_changed(
                                    ov,
                                    nv,
                                    #[trigger] nv[k].resource_type,
                                    nv[k].resource_name,
                                ) implies exists|q: int|
                                0 <= q < out@.len() && (#[trigger] changed_view(
                                    out@,
                                )[q]).resource_type == nv[k].resource_type && changed_view(
                                    out@,
                                )[q].resource_name == nv[k].resource_name by {
                                if k == i {
                                    assert(now[p] == entry@);
                                } else {
                                    let q0 = choose|q: int|
                                        0 <= q < out0.len() && (#[trigger] changed_view(
                                            out0,
                                        )[q]).resource_type == nv[k].resource_type && changed_view(
                                            out0,
                                        )[q].resource_name == nv[k].resource_name;
                                    if q0 < p {
                                        assert(now[q0] == was[q0]);
                                    } else {
                                        assert(now[q0 + 1] == was[q0]);
                                    }
                                }
                            }
                        }
                    } else {
                        proof {
                            assert(ov[j as int] == old@[j as int]@);
                        }
                    }
                },
                None => {},
            }
        }
        proof {
            if !inserted {
                assert(out@ == out0);
                assert forall|k: int|
                    0 <= k < i + 1 && last_index(nv, nv[k].resource_type, nv[k].resource_name)
                        == k && action_changed(
                        ov,
                        nv,
                        #[trigger] nv[k].resource_type,
                        nv[k].resource_name,
                    ) implies exists|q: int|
                    0 <= q < out@.len() && (#[trigger] changed_view(out@)[q]).resource_type
                        == nv[k].resource_type && changed_view(out@)[q].resource_name
                        == nv[k].resource_name by {
                    if k == i {
                        assert(false);
                    }
                }
            }
        }
        i = i + 1;
    }
    proof {
        assert forall|k: int|
            0 <= k < nv.len() && action_changed(
                ov,
                nv,
                #[trigger] nv[k].resource_type,
                nv[k].resource_name,
            ) implies exists|q: int|
            0 <= q < out@.len() && (#[trigger] changed_view(out@)[q]).resource_type
                == nv[k].resource_type && changed_view(out@)[q].resource_name
                == nv[k].resource_name by {
            lemma_last_index_of_entry(nv, k);
            let m = last_index(nv, nv[k].resource_type, nv[k].resource_name);
            assert(nv[m].resource_type == nv[k].resource_type);
            assert(nv[m].resource_name == nv[k].resource_name);
            assert(last_index(nv, nv[m].resource_type, nv[m].resource_name) == m);
        }
    }
    out
}

/// Compares two plans (see [`is_plan_diff`]): the resources that only the new
/// plan has, those that only the old plan has, and those whose last actions
/// differ, each list in (type, name) order.
pub fn compare_plans(old: &[ResourceChange], new: &[ResourceChange]) -> (res: PlanDiff)
    ensures
        is_plan_diff(res, changes_view(old@), changes_view(new@)),
{
    PlanDiff {
        added: one_sided(new, old),
        removed: one_sided(old, new),
        changed: changed_list(old, new),
    }
}

} // verus!
