//! The goal tree: sibling order, the visible rows, descendants and moves.

use crate::collections::StrSet;
use crate::schema::{Goal, GoalStatus};
use crate::text::{law_order_is_total, law_order_is_transitive, less, opt, opt_is, str_eq, str_less};
use vstd::prelude::*;

verus! {

// ---------- sibling order ----------

/// Siblings are ordered by their sort order, and by their creation time where
/// that is equal.
pub open spec fn before(a: Goal, b: Goal) -> bool {
    a.sort_order < b.sort_order || (a.sort_order == b.sort_order && str_less(
        a.created_at@,
        b.created_at@,
    ))
}

/// A goal put into an ordered sequence, behind all that it does not precede.
pub open spec fn insert_goal(s: Seq<Goal>, g: Goal) -> Seq<Goal>
    decreases s.len(),
{
    if s.len() == 0 || !before(g, s.last()) {
        s.push(g)
    } else {
        insert_goal(s.drop_last(), g).push(s.last())
    }
}

/// The goals in sibling order; equals keep the order they came in.
pub open spec fn sorted(s: Seq<Goal>) -> Seq<Goal>
    decreases s.len(),
{
    if s.len() == 0 {
        s
    } else {
        insert_goal(sorted(s.drop_last()), s.last())
    }
}

/// Whether no goal precedes an earlier one.
pub open spec fn in_order(s: Seq<Goal>) -> bool {
    forall|i: int, j: int| 0 <= i < j < s.len() ==> !before(#[trigger] s[j], #[trigger] s[i])
}

fn precedes(a: &Goal, b: &Goal) -> (r: bool)
    ensures
        r == before(*a, *b),
{
    a.sort_order < b.sort_order || (a.sort_order == b.sort_order && less(
        a.created_at.as_str(),
        b.created_at.as_str(),
    ))
}

/// A copy of the goals.
pub fn copy_goals(goals: &Vec<Goal>) -> (r: Vec<Goal>)
    ensures
        r@ == goals@,
{
    let mut out: Vec<Goal> = Vec::new();
    for i in 0..goals.len()
        invariant
            out@ =~= goals@.take(i as int),
    {
        out.push(goals[i].clone());
    }
    assert(out@ =~= goals@);
    out
}

proof fn lemma_insert_at(s: Seq<Goal>, g: Goal, i: int)
    requires
        0 <= i <= s.len(),
        forall|k: int| i <= k < s.len() ==> before(g, #[trigger] s[k]),
        i > 0 ==> !before(g, s[i - 1]),
    ensures
        insert_goal(s, g) == s.insert(i, g),
    decreases s.len(),
{
    if i == s.len() {
        assert(s.insert(i, g) =~= s.push(g));
    } else {
        let t = s.drop_last();
        assert(before(g, s[s.len() - 1]));
        assert forall|k: int| i <= k < t.len() implies before(g, #[trigger] t[k]) by {
            assert(before(g, s[k]));
        }
        lemma_insert_at(t, g, i);
        assert(s.insert(i, g) =~= t.insert(i, g).push(s.last()));
    }
}

/// Puts a goal into an ordered vector, behind all that it does not precede.
fn insert_in_order(s: &mut Vec<Goal>, g: Goal)
    ensures
        final(s)@ == insert_goal(old(s)@, g),
{
    let mut i: usize = s.len();
    while i > 0 && precedes(&g, &s[i - 1])
        invariant
            i <= s@.len(),
            s@ == old(s)@,
            forall|k: int| i <= k < s@.len() ==> before(g, #[trigger] s@[k]),
        decreases i,
    {
        i = i - 1;
    }
    proof {
        lemma_insert_at(s@, g, i as int);
    }
    s.insert(i, g);
}

/// The goals in sibling order.
pub fn sort_goals(goals: &Vec<Goal>) -> (r: Vec<Goal>)
    ensures
        r@ == sorted(goals@),
{
    let mut out: Vec<Goal> = Vec::new();
    for i in 0..goals.len()
        invariant
            out@ =~= sorted(goals@.take(i as int)),
    {
        assert(goals@.take(i + 1).drop_last() =~= goals@.take(i as int));
        insert_in_order(&mut out, goals[i].clone());
    }
    assert(goals@.take(goals@.len() as int) =~= goals@);
    out
}

proof fn lemma_insert_goal(s: Seq<Goal>, g: Goal)
    requires
        in_order(s),
    ensures
        in_order(insert_goal(s, g)),
        insert_goal(s, g).to_multiset() == s.to_multiset().insert(g),
        insert_goal(s, g).len() == s.len() + 1,
        s.len() > 0 ==> insert_goal(s, g).last() == g || insert_goal(s, g).last() == s.last(),
        s.len() == 0 ==> insert_goal(s, g).last() == g,
    decreases s.len(),
{
    broadcast use vstd::seq_lib::group_to_multiset_ensures;

    if s.len() == 0 || !before(g, s.last()) {
        let r = s.push(g);
        assert forall|i: int, j: int| 0 <= i < j < r.len() implies !before(
            #[trigger] r[j],
            #[trigger] r[i],
        ) by {
            if j == s.len() && before(g, s[i]) {
                let l = s[s.len() - 1];
                if i < s.len() - 1 {
                    assert(!before(l, s[i]));
                }
                lemma_before_not_between(g, s[i], l);
            }
        }
    } else {
        let t = s.drop_last();
        let l = s.last();
        assert(in_order(t)) by {
            assert forall|i: int, j: int| 0 <= i < j < t.len() implies !before(
                #[trigger] t[j],
                #[trigger] t[i],
            ) by {
                assert(!before(s[j], s[i]));
            }
        }
        lemma_insert_goal(t, g);
        let u = insert_goal(t, g);
        let r = u.push(l);
        assert(s =~= t.push(l));
        assert forall|i: int, j: int| 0 <= i < j < r.len() implies !before(
            #[trigger] r[j],
            #[trigger] r[i],
        ) by {
            if j == u.len() {
                assert(u.to_multiset().count(u[i]) > 0) by {
                    assert(u.contains(u[i]));
                }
                if u[i] != g {
                    assert(t.to_multiset().count(u[i]) > 0);
                    assert(t.contains(u[i]));
                    let k = choose|k: int| 0 <= k < t.len() && t[k] == u[i];
                    assert(!before(s[s.len() - 1], s[k]));
                } else {
                    lemma_before_is_strict(g, l);
                }
            } else {
                assert(!before(u[j], u[i]));
            }
        }
        assert(r.to_multiset() =~= s.to_multiset().insert(g));
    }
}

proof fn lemma_before_is_strict(a: Goal, b: Goal)
    ensures
        before(a, b) ==> !before(b, a),
        !before(a, a),
{
    law_order_is_total(a.created_at@, b.created_at@);
}

/// What precedes `x` precedes `l` too, where `l` does not precede `x`.
proof fn lemma_before_not_between(g: Goal, x: Goal, l: Goal)
    requires
        before(g, x),
        !before(l, x),
    ensures
        before(g, l),
{
    law_order_is_total(x.created_at@, l.created_at@);
    if str_less(g.created_at@, x.created_at@) && str_less(x.created_at@, l.created_at@) {
        law_order_is_transitive(g.created_at@, x.created_at@, l.created_at@);
    }
}

/// Sorting loses and invents no goal, and leaves none before an earlier one.
pub proof fn law_sorted_is_an_ordered_permutation(s: Seq<Goal>)
    ensures
        in_order(sorted(s)),
        sorted(s).to_multiset() == s.to_multiset(),
        sorted(s).len() == s.len(),
    decreases s.len(),
{
    broadcast use vstd::seq_lib::group_to_multiset_ensures;

    if s.len() > 0 {
        law_sorted_is_an_ordered_permutation(s.drop_last());
        lemma_insert_goal(sorted(s.drop_last()), s.last());
        assert(s =~= s.drop_last().push(s.last()));
    }
}

/// Sorting keeps membership.
pub proof fn lemma_sorted_contains(s: Seq<Goal>, g: Goal)
    ensures
        sorted(s).contains(g) <==> s.contains(g),
{
    broadcast use vstd::seq_lib::group_to_multiset_ensures;

    law_sorted_is_an_ordered_permutation(s);
    assert(sorted(s).contains(g) <==> sorted(s).to_multiset().count(g) > 0);
    assert(s.contains(g) <==> s.to_multiset().count(g) > 0);
}

// ---------- rows ----------

/// A visible row of the tree.
#[derive(Debug)]
pub struct FlatRow {
    pub goal: Goal,
    pub depth: usize,
    pub has_children: bool,
    pub expanded: bool,
}

impl Clone for FlatRow {
    fn clone(&self) -> (r: FlatRow)
        ensures
            r == *self,
    {
        FlatRow {
            goal: self.goal.clone(),
            depth: self.depth,
            has_children: self.has_children,
            expanded: self.expanded,
        }
    }
}

/// What a visible row shows.
pub struct Row {
    pub goal: Goal,
    pub depth: nat,
    pub has_children: bool,
    pub expanded: bool,
}

impl View for FlatRow {
    type V = Row;

    open spec fn view(&self) -> Row {
        Row {
            goal: self.goal,
            depth: self.depth as nat,
            has_children: self.has_children,
            expanded: self.expanded,
        }
    }
}

/// What a sequence of visible rows shows.
pub open spec fn rows_view(s: Seq<FlatRow>) -> Seq<Row> {
    s.map_values(|r: FlatRow| r@)
}

/// The goals of a sheet, or all of them where no sheet is chosen.
pub open spec fn on_sheet(goals: Seq<Goal>, sheet: Option<Seq<char>>) -> Seq<Goal> {
    match sheet {
        Some(id) => goals.filter(|g: Goal| opt(g.sheet_id) == Some(id)),
        None => goals,
    }
}

/// The goals below a parent, in the order they are stored; the root goals
/// where there is none.
pub open spec fn below(goals: Seq<Goal>, parent: Option<Seq<char>>) -> Seq<Goal> {
    goals.filter(|g: Goal| opt(g.parent_id) == parent)
}

/// The goals below a parent, in sibling order.
pub open spec fn children(goals: Seq<Goal>, parent: Option<Seq<char>>) -> Seq<Goal> {
    sorted(below(goals, parent))
}

/// The characters of an optional text.
pub open spec fn key(s: Option<&str>) -> Option<Seq<char>> {
    match s {
        Some(t) => Some(t@),
        None => None,
    }
}

/// The rows of some siblings and of what is unfolded below them, to a depth of
/// at most `fuel` more levels.
pub open spec fn walk(
    goals: Seq<Goal>,
    nodes: Seq<Goal>,
    depth: nat,
    unfolded: Set<Seq<char>>,
    fuel: nat,
) -> Seq<Row>
    decreases fuel, nodes.len(),
{
    if nodes.len() == 0 {
        Seq::empty()
    } else {
        let node = nodes.last();
        let kids = children(goals, Some(node.id@));
        let open = unfolded.contains(node.id@);
        let row = Row { goal: node, depth, has_children: kids.len() > 0, expanded: open };
        let below = if kids.len() > 0 && open && fuel > 0 {
            walk(goals, kids, depth + 1, unfolded, (fuel - 1) as nat)
        } else {
            Seq::empty()
        };
        walk(goals, nodes.drop_last(), depth, unfolded, fuel).push(row) + below
    }
}

/// The visible rows of the tree: the root goals of the chosen sheet, and below
/// each unfolded goal its children. No branch is deeper than there are goals.
pub open spec fn visible_rows(
    goals: Seq<Goal>,
    sheet: Option<Seq<char>>,
    unfolded: Set<Seq<char>>,
) -> Seq<Row> {
    let shown = on_sheet(goals, sheet);
    walk(shown, children(shown, None), 0, unfolded, shown.len())
}

/// The goals below a parent, in the order they are stored.
pub fn goals_below(goals: &Vec<Goal>, parent: Option<&str>) -> (r: Vec<Goal>)
    ensures
        r@ == below(goals@, key(parent)),
{
    let ghost pred = |g: Goal| opt(g.parent_id) == key(parent);
    let mut out: Vec<Goal> = Vec::new();
    for i in 0..goals.len()
        invariant
            out@ =~= goals@.take(i as int).filter(pred),
            pred == (|g: Goal| opt(g.parent_id) == key(parent)),
    {
        let hit = match (&goals[i].parent_id, parent) {
            (Some(a), Some(b)) => str_eq(a.as_str(), b),
            (None, None) => true,
            _ => false,
        };
        proof {
            assert(goals@.take(i + 1) =~= goals@.take(i as int).push(goals@[i as int]));
            goals@.take(i as int).lemma_filter_push(goals@[i as int], pred);
            assert(hit == pred(goals@[i as int]));
        }
        if hit {
            out.push(goals[i].clone());
        }
    }
    assert(goals@.take(goals@.len() as int) =~= goals@);
    out
}

/// The children of a goal in sibling order.
fn children_of(goals: &Vec<Goal>, id: &str) -> (r: Vec<Goal>)
    ensures
        r@ == children(goals@, Some(id@)),
{
    let found = goals_below(goals, Some(id));
    sort_goals(&found)
}

/// The root goals in sibling order.
fn roots_of(goals: &Vec<Goal>) -> (r: Vec<Goal>)
    ensures
        r@ == children(goals@, None),
{
    let found = goals_below(goals, None);
    sort_goals(&found)
}

/// The goals of a sheet.
fn goals_on_sheet(goals: &Vec<Goal>, sheet: &Option<String>) -> (r: Vec<Goal>)
    ensures
        r@ == on_sheet(goals@, opt(*sheet)),
{
    match sheet {
        None => copy_goals(goals),
        Some(id) => {
            let ghost pred = |g: Goal| opt(g.sheet_id) == Some(id@);
            let mut out: Vec<Goal> = Vec::new();
            for i in 0..goals.len()
                invariant
                    out@ =~= goals@.take(i as int).filter(pred),
                    pred == (|g: Goal| opt(g.sheet_id) == Some(id@)),
            {
                proof {
                    assert(goals@.take(i + 1) =~= goals@.take(i as int).push(goals@[i as int]));
                    goals@.take(i as int).lemma_filter_push(goals@[i as int], pred);
                }
                if opt_is(&goals[i].sheet_id, id.as_str()) {
                    out.push(goals[i].clone());
                }
            }
            assert(goals@.take(goals@.len() as int) =~= goals@);
            out
        },
    }
}

/// Adds the rows of some siblings and of what is unfolded below them.
fn walk_rows(
    goals: &Vec<Goal>,
    nodes: &Vec<Goal>,
    depth: usize,
    unfolded: &StrSet,
    fuel: usize,
    rows: &mut Vec<FlatRow>,
)
    requires
        depth + fuel <= usize::MAX,
    ensures
        rows_view(final(rows)@) == rows_view(old(rows)@) + walk(
            goals@,
            nodes@,
            depth as nat,
            unfolded@,
            fuel as nat,
        ),
    decreases fuel,
{
    let ghost start = rows_view(rows@);
    for i in 0..nodes.len()
        invariant
            depth + fuel <= usize::MAX,
            rows_view(rows@) =~= start + walk(
                goals@,
                nodes@.take(i as int),
                depth as nat,
                unfolded@,
                fuel as nat,
            ),
        decreases nodes.len() - i,
    {
        let ghost done = rows_view(rows@);
        let kids = children_of(goals, nodes[i].id.as_str());
        let open = unfolded.contains(nodes[i].id.as_str());
        let has_children = kids.len() > 0;
        let ghost part = nodes@.take(i + 1);
        assert(part.drop_last() =~= nodes@.take(i as int));
        assert(part.last() == nodes@[i as int]);
        let row = FlatRow { goal: nodes[i].clone(), depth, has_children, expanded: open };
        let ghost shown = row@;
        rows.push(row);
        assert(rows_view(rows@) =~= done.push(shown));
        if has_children && open && fuel > 0 {
            walk_rows(goals, &kids, depth + 1, unfolded, fuel - 1, rows);
        } else {
            assert(done.push(shown) =~= done.push(shown) + Seq::<Row>::empty());
        }
    }
    assert(nodes@.take(nodes@.len() as int) =~= nodes@);
}

/// The visible rows of the tree.
pub fn rows_of(goals: &Vec<Goal>, sheet: &Option<String>, unfolded: &StrSet) -> (r: Vec<FlatRow>)
    ensures
        rows_view(r@) == visible_rows(goals@, opt(*sheet), unfolded@),
{
    let shown = goals_on_sheet(goals, sheet);
    let roots = roots_of(&shown);
    let mut rows: Vec<FlatRow> = Vec::new();
    walk_rows(&shown, &roots, 0, unfolded, shown.len(), &mut rows);
    assert(rows_view(Seq::<FlatRow>::empty()) =~= Seq::<Row>::empty());
    assert(rows_view(rows@) =~= visible_rows(goals@, opt(*sheet), unfolded@));
    rows
}

// ---------- descendants ----------

/// Whether some goal with the id `b` stands directly below the id `a`.
pub open spec fn is_child(goals: Seq<Goal>, a: Seq<char>, b: Seq<char>) -> bool {
    exists|i: int|
        0 <= i < goals.len() && (#[trigger] goals[i]).id@ == b && opt(goals[i].parent_id) == Some(a)
}

/// Whether `n` steps from parent to child lead from the id `a` to the id `b`.
pub open spec fn leads(goals: Seq<Goal>, a: Seq<char>, b: Seq<char>, n: nat) -> bool
    decreases n,
{
    if n == 0 {
        a == b
    } else {
        exists|c: Seq<char>| #[trigger] is_child(goals, a, c) && leads(goals, c, b, (n - 1) as nat)
    }
}

/// Whether the id `b` stands somewhere below the id `a`.
pub open spec fn is_descendant(goals: Seq<Goal>, a: Seq<char>, b: Seq<char>) -> bool {
    exists|n: nat| n > 0 && #[trigger] leads(goals, a, b, n)
}

/// Whether no goal stands below itself.
pub open spec fn acyclic(goals: Seq<Goal>) -> bool {
    forall|x: Seq<char>| !is_descendant(goals, x, x)
}

proof fn lemma_leads_then(goals: Seq<Goal>, a: Seq<char>, b: Seq<char>, c: Seq<char>, m: nat, n: nat)
    requires
        leads(goals, a, b, m),
        leads(goals, b, c, n),
    ensures
        leads(goals, a, c, m + n),
    decreases m,
{
    if m > 0 {
        let x = choose|x: Seq<char>| #[trigger]
            is_child(goals, a, x) && leads(goals, x, b, (m - 1) as nat);
        lemma_leads_then(goals, x, b, c, (m - 1) as nat, n);
        assert((m + n - 1) as nat == ((m - 1) as nat + n) as nat);
        assert(is_child(goals, a, x) && leads(goals, x, c, (m + n - 1) as nat));
    }
}

proof fn lemma_child_leads(goals: Seq<Goal>, a: Seq<char>, b: Seq<char>)
    requires
        is_child(goals, a, b),
    ensures
        leads(goals, a, b, 1),
        is_descendant(goals, a, b),
{
    assert(leads(goals, b, b, 0));
    assert(leads(goals, a, b, 1));
}

/// What stands below a child, or is one, stands below the parent.
proof fn lemma_descendant_step(goals: Seq<Goal>, a: Seq<char>, b: Seq<char>, c: Seq<char>)
    requires
        is_descendant(goals, a, b),
        is_child(goals, b, c),
    ensures
        is_descendant(goals, a, c),
{
    let n = choose|n: nat| n > 0 && #[trigger] leads(goals, a, b, n);
    lemma_child_leads(goals, b, c);
    lemma_leads_then(goals, a, b, c, n, 1);
    assert(leads(goals, a, c, n + 1));
}

/// How many flags are not set.
spec fn unset(flags: Seq<bool>) -> nat
    decreases flags.len(),
{
    if flags.len() == 0 {
        0
    } else {
        unset(flags.drop_last()) + (if flags.last() {
            0nat
        } else {
            1nat
        })
    }
}

proof fn lemma_unset_drops(flags: Seq<bool>, i: int)
    requires
        0 <= i < flags.len(),
        !flags[i],
    ensures
        unset(flags.update(i, true)) + 1 == unset(flags),
    decreases flags.len(),
{
    let next = flags.update(i, true);
    if i < flags.len() - 1 {
        lemma_unset_drops(flags.drop_last(), i);
        assert(next.drop_last() =~= flags.drop_last().update(i, true));
    } else {
        assert(next.drop_last() =~= flags.drop_last());
    }
}

/// Whether a goal stands directly below `root` or below a flagged goal.
spec fn hangs_on(goals: Seq<Goal>, flags: Seq<bool>, root: Seq<char>, i: int) -> bool {
    ||| opt(goals[i].parent_id) == Some(root)
    ||| exists|j: int|
        0 <= j < goals.len() && #[trigger] flags[j] && opt(goals[i].parent_id) == Some(goals[j].id@)
}

fn hangs(goals: &Vec<Goal>, flags: &Vec<bool>, root: &str, i: usize) -> (r: bool)
    requires
        i < goals.len(),
        flags@.len() == goals@.len(),
    ensures
        r == hangs_on(goals@, flags@, root@, i as int),
{
    match &goals[i].parent_id {
        None => false,
        Some(p) => {
            if str_eq(p.as_str(), root) {
                return true;
            }
            let mut j: usize = 0;
            while j < goals.len()
                invariant
                    j <= goals@.len(),
                    flags@.len() == goals@.len(),
                    i < goals@.len(),
                    opt(goals@[i as int].parent_id) == Some(p@),
                    p@ != root@,
                    forall|k: int|
                        0 <= k < j ==> !(#[trigger] flags@[k] && p@ == goals@[k].id@),
                decreases goals@.len() - j,
            {
                if flags[j] && str_eq(p.as_str(), goals[j].id.as_str()) {
                    return true;
                }
                j = j + 1;
            }
            false
        },
    }
}

proof fn lemma_closed_reaches(
    goals: Seq<Goal>,
    flags: Seq<bool>,
    root: Seq<char>,
    from: Seq<char>,
    to: Seq<char>,
    n: nat,
)
    requires
        flags.len() == goals.len(),
        forall|i: int| 0 <= i < goals.len() && hangs_on(goals, flags, root, i) ==> #[trigger] flags[i],
        from == root || exists|j: int|
            0 <= j < goals.len() && #[trigger] flags[j] && goals[j].id@ == from,
        leads(goals, from, to, n),
        n > 0,
    ensures
        exists|i: int| 0 <= i < goals.len() && #[trigger] flags[i] && goals[i].id@ == to,
    decreases n,
{
    let c = choose|c: Seq<char>| #[trigger]
        is_child(goals, from, c) && leads(goals, c, to, (n - 1) as nat);
    let i = choose|i: int|
        0 <= i < goals.len() && (#[trigger] goals[i]).id@ == c && opt(goals[i].parent_id) == Some(
            from,
        );
    assert(hangs_on(goals, flags, root, i));
    assert(flags[i]);
    if n > 1 {
        lemma_closed_reaches(goals, flags, root, c, to, (n - 1) as nat);
    } else {
        assert(c == to);
    }
}

/// Marks goals below an id: only such goals, and one for every id below it.
fn mark_descendants(goals: &Vec<Goal>, root: &str) -> (flags: Vec<bool>)
    ensures
        flags@.len() == goals@.len(),
        forall|i: int|
            0 <= i < goals@.len() && #[trigger] flags@[i] ==> is_descendant(
                goals@,
                root@,
                goals@[i].id@,
            ),
        forall|x: Seq<char>| #[trigger]
            is_descendant(goals@, root@, x) ==> exists|i: int|
                0 <= i < goals@.len() && #[trigger] flags@[i] && goals@[i].id@ == x,
{
    let mut flags: Vec<bool> = Vec::new();
    for i in 0..goals.len()
        invariant
            flags@.len() == i,
            forall|k: int| 0 <= k < i ==> !flags@[k],
    {
        flags.push(false);
    }
    let mut changed = true;
    while changed
        invariant
            flags@.len() == goals@.len(),
            forall|k: int|
                0 <= k < goals@.len() && #[trigger] flags@[k] ==> is_descendant(
                    goals@,
                    root@,
                    goals@[k].id@,
                ),
            !changed ==> forall|k: int|
                0 <= k < goals@.len() && hangs_on(goals@, flags@, root@, k) ==> #[trigger] flags@[k],
        decreases unset(flags@) + (if changed {
            1nat
        } else {
            0nat
        }),
    {
        changed = false;
        let ghost start = unset(flags@);
        let ghost first = flags@;
        let mut i: usize = 0;
        while i < goals.len()
            invariant
                i <= goals@.len(),
                flags@.len() == goals@.len(),
                forall|k: int|
                    0 <= k < goals@.len() && #[trigger] flags@[k] ==> is_descendant(
                        goals@,
                        root@,
                        goals@[k].id@,
                    ),
                changed ==> unset(flags@) < start,
                !changed ==> flags@ == first && unset(flags@) == start && forall|k: int|
                    0 <= k < i && hangs_on(goals@, flags@, root@, k) ==> #[trigger] flags@[k],
            decreases goals@.len() - i,
        {
            if !flags[i] && hangs(goals, &flags, root, i) {
                proof {
                    lemma_unset_drops(flags@, i as int);
                    let me = goals@[i as int];
                    if opt(me.parent_id) == Some(root@) {
                        assert(is_child(goals@, root@, me.id@));
                        lemma_child_leads(goals@, root@, me.id@);
                    } else {
                        let j = choose|j: int|
                            0 <= j < goals@.len() && #[trigger] flags@[j] && opt(me.parent_id)
                                == Some(goals@[j].id@);
                        assert(is_child(goals@, goals@[j].id@, me.id@));
                        lemma_descendant_step(goals@, root@, goals@[j].id@, me.id@);
                    }
                }
                flags.set(i, true);
                changed = true;
            }
            i = i + 1;
        }
    }
    assert forall|x: Seq<char>| #[trigger] is_descendant(goals@, root@, x) implies exists|i: int|
        0 <= i < goals@.len() && #[trigger] flags@[i] && goals@[i].id@ == x by {
        let n = choose|n: nat| n > 0 && #[trigger] leads(goals@, root@, x, n);
        lemma_closed_reaches(goals@, flags@, root@, root@, x, n);
    }
    flags
}

/// The ids that stand below an id, without that id itself.
pub fn descendant_ids(goals: &Vec<Goal>, root: &str) -> (r: StrSet)
    ensures
        forall|x: Seq<char>| #[trigger]
            r@.contains(x) <==> is_descendant(goals@, root@, x) && x != root@,
{
    let flags = mark_descendants(goals, root);
    let mut out = StrSet::new();
    let mut i: usize = 0;
    while i < goals.len()
        invariant
            i <= goals@.len(),
            flags@.len() == goals@.len(),
            forall|x: Seq<char>| #[trigger]
                out@.contains(x) <==> x != root@ && exists|j: int|
                    0 <= j < i && #[trigger] flags@[j] && goals@[j].id@ == x,
        decreases goals@.len() - i,
    {
        let ghost prev = out@;
        if flags[i] && !str_eq(goals[i].id.as_str(), root) {
            out.insert(goals[i].id.clone());
        }
        proof {
            assert forall|x: Seq<char>| #[trigger]
                out@.contains(x) <==> x != root@ && exists|j: int|
                    0 <= j < i + 1 && #[trigger] flags@[j] && goals@[j].id@ == x by {
                if prev.contains(x) {
                    let j = choose|j: int| 0 <= j < i && #[trigger] flags@[j] && goals@[j].id@ == x;
                    assert(flags@[j]);
                }
                if flags@[i as int] && goals@[i as int].id@ == x {
                    assert(flags@[i as int]);
                }
            }
        }
        i = i + 1;
    }
    assert forall|x: Seq<char>| #[trigger]
        out@.contains(x) <==> is_descendant(goals@, root@, x) && x != root@ by {
        if out@.contains(x) {
            let j = choose|j: int|
                0 <= j < goals@.len() && #[trigger] flags@[j] && goals@[j].id@ == x;
            assert(is_descendant(goals@, root@, goals@[j].id@));
        }
    }
    out
}

/// Whether a goal is done while something below it is not.
pub open spec fn partially_complete(goals: Seq<Goal>, g: Goal) -> bool {
    g.status == GoalStatus::Completed && exists|i: int|
        0 <= i < goals.len() && (#[trigger] goals[i]).status != GoalStatus::Completed
            && is_descendant(goals, g.id@, goals[i].id@)
}

/// Whether ids are unique.
pub open spec fn unique_ids(goals: Seq<Goal>) -> bool {
    forall|i: int, j: int|
        0 <= i < j < goals.len() ==> (#[trigger] goals[i]).id@ != (#[trigger] goals[j]).id@
}

/// Tests whether ids are unique.
pub fn ids_are_unique(goals: &Vec<Goal>) -> (r: bool)
    ensures
        r == unique_ids(goals@),
{
    let mut i: usize = 0;
    while i < goals.len()
        invariant
            i <= goals@.len(),
            forall|a: int, b: int|
                0 <= a < b < i ==> (#[trigger] goals@[a]).id@ != (#[trigger] goals@[b]).id@,
        decreases goals@.len() - i,
    {
        let mut j: usize = 0;
        while j < i
            invariant
                j <= i < goals@.len(),
                forall|a: int| 0 <= a < j ==> (#[trigger] goals@[a]).id@ != goals@[i as int].id@,
            decreases i - j,
        {
            if str_eq(goals[j].id.as_str(), goals[i].id.as_str()) {
                return false;
            }
            j = j + 1;
        }
        i = i + 1;
    }
    true
}

/// The completed goals below which something is not completed.
pub fn partial_ids(goals: &Vec<Goal>) -> (r: StrSet)
    requires
        unique_ids(goals@),
    ensures
        forall|x: Seq<char>| #[trigger]
            r@.contains(x) <==> exists|i: int|
                0 <= i < goals@.len() && (#[trigger] goals@[i]).id@ == x && partially_complete(
                    goals@,
                    goals@[i],
                ),
{
    let mut out = StrSet::new();
    let mut i: usize = 0;
    while i < goals.len()
        invariant
            i <= goals@.len(),
            unique_ids(goals@),
            forall|x: Seq<char>| #[trigger]
                out@.contains(x) <==> exists|k: int|
                    0 <= k < i && (#[trigger] goals@[k]).id@ == x && partially_complete(
                        goals@,
                        goals@[k],
                    ),
        decreases goals@.len() - i,
    {
        let ghost me = goals@[i as int];
        let mut hit = false;
        if goals[i].status == GoalStatus::Completed {
            let flags = mark_descendants(goals, goals[i].id.as_str());
            let mut j: usize = 0;
            while j < goals.len()
                invariant
                    j <= goals@.len(),
                    flags@.len() == goals@.len(),
                    unique_ids(goals@),
                    hit <==> exists|k: int|
                        0 <= k < j && #[trigger] flags@[k] && goals@[k].status
                            != GoalStatus::Completed,
                decreases goals@.len() - j,
            {
                if flags[j] && goals[j].status != GoalStatus::Completed {
                    hit = true;
                    assert(flags@[j as int]);
                }
                j = j + 1;
            }
            proof {
                if hit {
                    let k = choose|k: int|
                        0 <= k < goals@.len() && #[trigger] flags@[k] && goals@[k].status
                            != GoalStatus::Completed;
                    assert(goals@[k].status != GoalStatus::Completed);
                    assert(partially_complete(goals@, me));
                }
                if partially_complete(goals@, me) {
                    let k = choose|k: int|
                        0 <= k < goals@.len() && (#[trigger] goals@[k]).status
                            != GoalStatus::Completed && is_descendant(goals@, me.id@, goals@[k].id@);
                    let f = choose|f: int|
                        0 <= f < goals@.len() && #[trigger] flags@[f] && goals@[f].id@
                            == goals@[k].id@;
                    assert(f == k);
                }
            }
        }
        let ghost prev = out@;
        if hit {
            out.insert(goals[i].id.clone());
        }
        proof {
            assert forall|x: Seq<char>| #[trigger]
                out@.contains(x) <==> exists|k: int|
                    0 <= k < i + 1 && (#[trigger] goals@[k]).id@ == x && partially_complete(
                        goals@,
                        goals@[k],
                    ) by {
                if prev.contains(x) {
                    let k = choose|k: int|
                        0 <= k < i && (#[trigger] goals@[k]).id@ == x && partially_complete(
                            goals@,
                            goals@[k],
                        );
                    assert(goals@[k].id@ == x);
                }
                if hit && x == me.id@ {
                    assert(goals@[i as int].id@ == x);
                }
            }
        }
        i = i + 1;
    }
    out
}

// ---------- laws of the rows ----------

/// Whether a goal stands `d` levels below a root goal.
pub open spec fn at_depth(goals: Seq<Goal>, g: Goal, d: nat) -> bool
    decreases d,
{
    if d == 0 {
        g.parent_id is None
    } else {
        g.parent_id is Some && exists|i: int|
            0 <= i < goals.len() && (#[trigger] goals[i]).id@ == g.parent_id->0@ && at_depth(
                goals,
                goals[i],
                (d - 1) as nat,
            )
    }
}

pub(crate) proof fn lemma_filter_member(goals: Seq<Goal>, pred: spec_fn(Goal) -> bool, k: int)
    requires
        0 <= k < goals.filter(pred).len(),
    ensures
        goals.contains(goals.filter(pred)[k]),
    decreases goals.len(),
{
    broadcast use vstd::seq_lib::group_filter_ensures;

    let t = goals.drop_last();
    assert(goals =~= t.push(goals.last()));
    t.lemma_filter_push(goals.last(), pred);
    if k < t.filter(pred).len() {
        lemma_filter_member(t, pred, k);
        let i = choose|i: int| 0 <= i < t.len() && t[i] == t.filter(pred)[k];
        assert(goals[i] == goals.filter(pred)[k]);
    } else {
        assert(goals[goals.len() - 1] == goals.filter(pred)[k]);
    }
}

pub(crate) proof fn lemma_children(goals: Seq<Goal>, parent: Option<Seq<char>>, g: Goal)
    ensures
        children(goals, parent).contains(g) <==> goals.contains(g) && opt(g.parent_id) == parent,
{
    broadcast use vstd::seq_lib::group_filter_ensures;

    let pred = |x: Goal| opt(x.parent_id) == parent;
    lemma_sorted_contains(below(goals, parent), g);
    if goals.contains(g) && pred(g) {
        let i = choose|i: int| 0 <= i < goals.len() && goals[i] == g;
        assert(goals.filter(pred).contains(goals[i]));
    }
    if goals.filter(pred).contains(g) {
        let k = choose|k: int| 0 <= k < goals.filter(pred).len() && goals.filter(pred)[k] == g;
        assert(pred(goals.filter(pred)[k]));
        lemma_filter_member(goals, pred, k);
    }
}

proof fn lemma_depth_is_one(goals: Seq<Goal>, g: Goal, d: nat, e: nat)
    requires
        unique_ids(goals),
        at_depth(goals, g, d),
        at_depth(goals, g, e),
    ensures
        d == e,
    decreases d,
{
    if d > 0 && e > 0 {
        let i = choose|i: int|
            0 <= i < goals.len() && (#[trigger] goals[i]).id@ == g.parent_id->0@ && at_depth(
                goals,
                goals[i],
                (d - 1) as nat,
            );
        let j = choose|j: int|
            0 <= j < goals.len() && (#[trigger] goals[j]).id@ == g.parent_id->0@ && at_depth(
                goals,
                goals[j],
                (e - 1) as nat,
            );
        assert(i == j);
        lemma_depth_is_one(goals, goals[i], (d - 1) as nat, (e - 1) as nat);
    }
}

/// The positions of a goal and its ancestors, the root first.
spec fn line(goals: Seq<Goal>, i: int, d: nat) -> Seq<int>
    decreases d,
{
    if d == 0 {
        seq![i]
    } else {
        let p = choose|p: int|
            0 <= p < goals.len() && (#[trigger] goals[p]).id@ == goals[i].parent_id->0@ && at_depth(
                goals,
                goals[p],
                (d - 1) as nat,
            );
        line(goals, p, (d - 1) as nat).push(i)
    }
}

proof fn lemma_line(goals: Seq<Goal>, i: int, d: nat)
    requires
        0 <= i < goals.len(),
        at_depth(goals, goals[i], d),
    ensures
        line(goals, i, d).len() == d + 1,
        forall|k: int|
            0 <= k <= d ==> 0 <= #[trigger] line(goals, i, d)[k] < goals.len() && at_depth(
                goals,
                goals[line(goals, i, d)[k]],
                k as nat,
            ),
    decreases d,
{
    if d > 0 {
        let p = choose|p: int|
            0 <= p < goals.len() && (#[trigger] goals[p]).id@ == goals[i].parent_id->0@ && at_depth(
                goals,
                goals[p],
                (d - 1) as nat,
            );
        lemma_line(goals, p, (d - 1) as nat);
        let up = line(goals, p, (d - 1) as nat);
        assert forall|k: int| 0 <= k <= d implies 0 <= #[trigger] line(goals, i, d)[k] < goals.len()
            && at_depth(goals, goals[line(goals, i, d)[k]], k as nat) by {
            if k < d {
                assert(line(goals, i, d)[k] == up[k]);
            }
        }
    }
}

/// No goal stands as deep as there are goals.
proof fn lemma_depth_bound(goals: Seq<Goal>, i: int, d: nat)
    requires
        unique_ids(goals),
        0 <= i < goals.len(),
        at_depth(goals, goals[i], d),
    ensures
        d < goals.len(),
{
    lemma_line(goals, i, d);
    let l = line(goals, i, d);
    assert(l.no_duplicates()) by {
        assert forall|a: int, b: int| 0 <= a < l.len() && 0 <= b < l.len() && a != b implies l[a]
            != l[b] by {
            if l[a] == l[b] {
                lemma_depth_is_one(goals, goals[l[a]], a as nat, b as nat);
            }
        }
    }
    l.unique_seq_to_set();
    let all = vstd::set_lib::set_int_range(0, goals.len() as int);
    vstd::set_lib::lemma_int_range(0, goals.len() as int);
    assert(l.to_set().subset_of(all)) by {
        assert forall|x: int| l.to_set().contains(x) implies all.contains(x) by {
            let k = choose|k: int| 0 <= k < l.len() && l[k] == x;
            assert(0 <= l[k] < goals.len());
        }
    }
    vstd::set_lib::lemma_len_subset(l.to_set(), all);
}

/// Whether every node is one of the goals and stands at this depth.
spec fn all_at(goals: Seq<Goal>, nodes: Seq<Goal>, d: nat) -> bool {
    forall|i: int|
        0 <= i < nodes.len() ==> goals.contains(#[trigger] nodes[i]) && at_depth(goals, nodes[i], d)
}

proof fn lemma_children_at(goals: Seq<Goal>, node: Goal, d: nat)
    requires
        goals.contains(node),
        at_depth(goals, node, d),
    ensures
        all_at(goals, children(goals, Some(node.id@)), d + 1),
{
    let kids = children(goals, Some(node.id@));
    let p = choose|p: int| 0 <= p < goals.len() && goals[p] == node;
    assert forall|i: int| 0 <= i < kids.len() implies goals.contains(#[trigger] kids[i]) && at_depth(
        goals,
        kids[i],
        d + 1,
    ) by {
        assert(kids.contains(kids[i]));
        lemma_children(goals, Some(node.id@), kids[i]);
        assert(goals[p].id@ == kids[i].parent_id->0@ && at_depth(
            goals,
            goals[p],
            (d + 1 - 1) as nat,
        ));
    }
}

/// The limit on the depth of the walk never cuts a branch off.
proof fn lemma_fuel(
    goals: Seq<Goal>,
    nodes: Seq<Goal>,
    d: nat,
    unfolded: Set<Seq<char>>,
    f: nat,
    g: nat,
)
    requires
        unique_ids(goals),
        all_at(goals, nodes, d),
        d + f >= goals.len(),
        d + g >= goals.len(),
    ensures
        walk(goals, nodes, d, unfolded, f) == walk(goals, nodes, d, unfolded, g),
    decreases f, nodes.len(),
{
    if nodes.len() > 0 {
        let node = nodes.last();
        let kids = children(goals, Some(node.id@));
        assert(goals.contains(nodes[nodes.len() - 1]));
        assert(all_at(goals, nodes.drop_last(), d)) by {
            assert forall|i: int| 0 <= i < nodes.drop_last().len() implies goals.contains(
                #[trigger] nodes.drop_last()[i],
            ) && at_depth(goals, nodes.drop_last()[i], d) by {
                assert(goals.contains(nodes[i]));
            }
        }
        lemma_fuel(goals, nodes.drop_last(), d, unfolded, f, g);
        if kids.len() > 0 {
            lemma_children_at(goals, node, d);
            assert(goals.contains(kids[0]));
            let i = choose|i: int| 0 <= i < goals.len() && goals[i] == kids[0];
            lemma_depth_bound(goals, i, d + 1);
            lemma_fuel(goals, kids, d + 1, unfolded, (f - 1) as nat, (g - 1) as nat);
        }
    }
}

proof fn lemma_roots_at(goals: Seq<Goal>)
    ensures
        all_at(goals, children(goals, None), 0),
{
    let roots = children(goals, None);
    assert forall|i: int| 0 <= i < roots.len() implies goals.contains(#[trigger] roots[i])
        && at_depth(goals, roots[i], 0) by {
        assert(roots.contains(roots[i]));
        lemma_children(goals, None, roots[i]);
    }
}

/// The visible rows do not depend on how deep the walk may go: as deep as there
/// are goals is as good as any deeper limit.
pub proof fn law_rows_are_complete(
    goals: Seq<Goal>,
    sheet: Option<Seq<char>>,
    unfolded: Set<Seq<char>>,
    limit: nat,
)
    requires
        unique_ids(on_sheet(goals, sheet)),
        limit >= on_sheet(goals, sheet).len(),
    ensures
        visible_rows(goals, sheet, unfolded) == walk(
            on_sheet(goals, sheet),
            children(on_sheet(goals, sheet), None),
            0,
            unfolded,
            limit,
        ),
{
    let shown = on_sheet(goals, sheet);
    lemma_roots_at(shown);
    lemma_fuel(shown, children(shown, None), 0, unfolded, shown.len(), limit);
}

proof fn lemma_indent(goals: Seq<Goal>, nodes: Seq<Goal>, d: nat, unfolded: Set<Seq<char>>, f: nat)
    ensures
        walk(goals, nodes, d, unfolded, f).len() >= nodes.len(),
        nodes.len() == 0 ==> walk(goals, nodes, d, unfolded, f).len() == 0,
        nodes.len() > 0 ==> walk(goals, nodes, d, unfolded, f)[0].depth == d,
        forall|i: int|
            0 <= i < walk(goals, nodes, d, unfolded, f).len() ==> (#[trigger] walk(
                goals,
                nodes,
                d,
                unfolded,
                f,
            )[i]).depth >= d,
        forall|i: int, j: int|
            0 <= i && j == i + 1 && j < walk(goals, nodes, d, unfolded, f).len() ==> (
            #[trigger] walk(goals, nodes, d, unfolded, f)[j]).depth <= (#[trigger] walk(
                goals,
                nodes,
                d,
                unfolded,
                f,
            )[i]).depth + 1,
    decreases f, nodes.len(),
{
    if nodes.len() > 0 {
        let node = nodes.last();
        let kids = children(goals, Some(node.id@));
        lemma_indent(goals, nodes.drop_last(), d, unfolded, f);
        if kids.len() > 0 && unfolded.contains(node.id@) && f > 0 {
            lemma_indent(goals, kids, d + 1, unfolded, (f - 1) as nat);
        }
    }
}

/// The first row is not indented, and no row is indented by more than one level
/// against the row above it.
pub proof fn law_rows_indent_step_by_step(
    goals: Seq<Goal>,
    sheet: Option<Seq<char>>,
    unfolded: Set<Seq<char>>,
)
    ensures
        ({
            let rows = visible_rows(goals, sheet, unfolded);
            &&& rows.len() > 0 ==> rows[0].depth == 0
            &&& forall|i: int, j: int|
                0 <= i && j == i + 1 && j < rows.len() ==> (#[trigger] rows[j]).depth <= (
                #[trigger] rows[i]).depth + 1
        }),
{
    let shown = on_sheet(goals, sheet);
    lemma_indent(shown, children(shown, None), 0, unfolded, shown.len());
}

proof fn lemma_last_step(goals: Seq<Goal>, a: Seq<char>, b: Seq<char>, n: nat) -> (c: Seq<char>)
    requires
        leads(goals, a, b, n),
        n > 0,
    ensures
        leads(goals, a, c, (n - 1) as nat),
        is_child(goals, c, b),
    decreases n,
{
    let x = choose|x: Seq<char>| #[trigger]
        is_child(goals, a, x) && leads(goals, x, b, (n - 1) as nat);
    if n == 1 {
        a
    } else {
        let c = lemma_last_step(goals, x, b, (n - 1) as nat);
        lemma_child_leads(goals, a, x);
        lemma_leads_then(goals, a, x, c, 1, (n - 2) as nat);
        c
    }
}

/// With unique ids a goal has one ancestor at each distance.
proof fn lemma_one_ancestor(goals: Seq<Goal>, a: Seq<char>, b: Seq<char>, c: Seq<char>, n: nat)
    requires
        unique_ids(goals),
        leads(goals, a, c, n),
        leads(goals, b, c, n),
    ensures
        a == b,
    decreases n,
{
    if n > 0 {
        let x = lemma_last_step(goals, a, c, n);
        let y = lemma_last_step(goals, b, c, n);
        let i = choose|i: int|
            0 <= i < goals.len() && (#[trigger] goals[i]).id@ == c && opt(goals[i].parent_id)
                == Some(x);
        let j = choose|j: int|
            0 <= j < goals.len() && (#[trigger] goals[j]).id@ == c && opt(goals[j].parent_id)
                == Some(y);
        assert(i == j);
        lemma_one_ancestor(goals, a, b, x, (n - 1) as nat);
    }
}

/// Whether a row shows a goal that stands below one of the nodes, as deep as
/// the row says.
spec fn grows_from(goals: Seq<Goal>, nodes: Seq<Goal>, d: nat, r: Row) -> bool {
    &&& goals.contains(r.goal)
    &&& at_depth(goals, r.goal, r.depth)
    &&& r.depth >= d
    &&& exists|x: int|
        0 <= x < nodes.len() && leads(
            goals,
            (#[trigger] nodes[x]).id@,
            r.goal.id@,
            (r.depth - d) as nat,
        )
}

proof fn lemma_rows_grow(
    goals: Seq<Goal>,
    nodes: Seq<Goal>,
    d: nat,
    unfolded: Set<Seq<char>>,
    f: nat,
)
    requires
        all_at(goals, nodes, d),
    ensures
        forall|i: int|
            0 <= i < walk(goals, nodes, d, unfolded, f).len() ==> grows_from(
                goals,
                nodes,
                d,
                #[trigger] walk(goals, nodes, d, unfolded, f)[i],
            ),
    decreases f, nodes.len(),
{
    if nodes.len() > 0 {
        let node = nodes.last();
        let kids = children(goals, Some(node.id@));
        let less = nodes.drop_last();
        assert(goals.contains(nodes[nodes.len() - 1]));
        assert(all_at(goals, less, d)) by {
            assert forall|i: int| 0 <= i < less.len() implies goals.contains(#[trigger] less[i])
                && at_depth(goals, less[i], d) by {
                assert(goals.contains(nodes[i]));
            }
        }
        lemma_rows_grow(goals, less, d, unfolded, f);
        lemma_children_at(goals, node, d);
        let first = walk(goals, less, d, unfolded, f);
        let open = kids.len() > 0 && unfolded.contains(node.id@) && f > 0;
        let rest = if open {
            walk(goals, kids, d + 1, unfolded, (f - 1) as nat)
        } else {
            Seq::empty()
        };
        if open {
            lemma_rows_grow(goals, kids, d + 1, unfolded, (f - 1) as nat);
        }
        let all = walk(goals, nodes, d, unfolded, f);
        assert forall|i: int| 0 <= i < all.len() implies grows_from(
            goals,
            nodes,
            d,
            #[trigger] all[i],
        ) by {
            if i < first.len() {
                assert(all[i] == first[i]);
                let x = choose|x: int|
                    0 <= x < less.len() && leads(
                        goals,
                        (#[trigger] less[x]).id@,
                        first[i].goal.id@,
                        (first[i].depth - d) as nat,
                    );
                assert(nodes[x] == less[x]);
            } else if i == first.len() {
                assert(leads(goals, nodes[nodes.len() - 1].id@, node.id@, 0));
            } else {
                let r = rest[i - first.len() - 1];
                assert(all[i] == r);
                assert(grows_from(goals, kids, d + 1, r));
                let x = choose|x: int|
                    0 <= x < kids.len() && leads(
                        goals,
                        (#[trigger] kids[x]).id@,
                        r.goal.id@,
                        (r.depth - (d + 1)) as nat,
                    );
                assert(kids.contains(kids[x]));
                lemma_children(goals, Some(node.id@), kids[x]);
                let q = choose|q: int| 0 <= q < goals.len() && goals[q] == kids[x];
                assert(goals[q].id@ == kids[x].id@);
                assert(is_child(goals, node.id@, kids[x].id@));
                lemma_child_leads(goals, node.id@, kids[x].id@);
                lemma_leads_then(
                    goals,
                    node.id@,
                    kids[x].id@,
                    r.goal.id@,
                    1,
                    (r.depth - (d + 1)) as nat,
                );
                assert(leads(goals, nodes[nodes.len() - 1].id@, r.goal.id@, (r.depth - d) as nat));
            }
        }
    }
}

/// Whether no two rows show the same goal.
pub open spec fn shown_once(rows: Seq<Row>) -> bool {
    forall|i: int, j: int|
        0 <= i < j < rows.len() ==> (#[trigger] rows[i]).goal.id@ != (#[trigger] rows[j]).goal.id@
}

proof fn lemma_same_goal(goals: Seq<Goal>, a: Goal, b: Goal)
    requires
        unique_ids(goals),
        goals.contains(a),
        goals.contains(b),
        a.id@ == b.id@,
    ensures
        a == b,
{
    let i = choose|i: int| 0 <= i < goals.len() && goals[i] == a;
    let j = choose|j: int| 0 <= j < goals.len() && goals[j] == b;
    assert(i == j);
}

proof fn lemma_sorted_unique(s: Seq<Goal>)
    requires
        unique_ids(s),
    ensures
        unique_ids(sorted(s)),
{
    broadcast use vstd::seq_lib::group_to_multiset_ensures;

    law_sorted_is_an_ordered_permutation(s);
    let r = sorted(s);
    assert(s.no_duplicates()) by {
        assert forall|i: int, j: int| 0 <= i < s.len() && 0 <= j < s.len() && i != j implies s[i]
            != s[j] by {
            if i < j {
                assert(s[i].id@ != s[j].id@);
            } else {
                assert(s[j].id@ != s[i].id@);
            }
        }
    }
    s.lemma_multiset_has_no_duplicates();
    r.lemma_multiset_has_no_duplicates_conv();
    assert forall|i: int, j: int| 0 <= i < j < r.len() implies (#[trigger] r[i]).id@ != (
    #[trigger] r[j]).id@ by {
        if r[i].id@ == r[j].id@ {
            assert(r.contains(r[i]) && r.contains(r[j]));
            lemma_sorted_contains(s, r[i]);
            lemma_sorted_contains(s, r[j]);
            lemma_same_goal(s, r[i], r[j]);
        }
    }
}

proof fn lemma_filter_unique(goals: Seq<Goal>, pred: spec_fn(Goal) -> bool)
    requires
        unique_ids(goals),
    ensures
        unique_ids(goals.filter(pred)),
    decreases goals.len(),
{
    broadcast use vstd::seq_lib::group_filter_ensures;

    if goals.len() > 0 {
        let t = goals.drop_last();
        let l = goals.last();
        assert(goals =~= t.push(l));
        assert(unique_ids(t)) by {
            assert forall|i: int, j: int| 0 <= i < j < t.len() implies (#[trigger] t[i]).id@ != (
            #[trigger] t[j]).id@ by {
                assert(goals[i].id@ != goals[j].id@);
            }
        }
        lemma_filter_unique(t, pred);
        t.lemma_filter_push(l, pred);
        let f = t.filter(pred);
        let r = goals.filter(pred);
        assert forall|i: int, j: int| 0 <= i < j < r.len() implies (#[trigger] r[i]).id@ != (
        #[trigger] r[j]).id@ by {
            if j < f.len() {
                assert(f[i].id@ != f[j].id@);
            } else {
                assert(r[j] == l);
                lemma_filter_member(t, pred, i);
                let k = choose|k: int| 0 <= k < t.len() && t[k] == f[i];
                assert(goals[k].id@ != goals[goals.len() - 1].id@);
            }
        }
    } else {
        assert(goals.filter(pred).len() == 0);
    }
}

proof fn lemma_shown_once(
    goals: Seq<Goal>,
    nodes: Seq<Goal>,
    d: nat,
    unfolded: Set<Seq<char>>,
    f: nat,
)
    requires
        unique_ids(goals),
        unique_ids(nodes),
        all_at(goals, nodes, d),
    ensures
        shown_once(walk(goals, nodes, d, unfolded, f)),
    decreases f, nodes.len(),
{
    if nodes.len() > 0 {
        let node = nodes.last();
        let kids = children(goals, Some(node.id@));
        let less = nodes.drop_last();
        assert(goals.contains(nodes[nodes.len() - 1]));
        assert(all_at(goals, less, d)) by {
            assert forall|i: int| 0 <= i < less.len() implies goals.contains(#[trigger] less[i])
                && at_depth(goals, less[i], d) by {
                assert(goals.contains(nodes[i]));
            }
        }
        assert(unique_ids(less)) by {
            assert forall|i: int, j: int| 0 <= i < j < less.len() implies (#[trigger] less[i]).id@
                != (#[trigger] less[j]).id@ by {
                assert(nodes[i].id@ != nodes[j].id@);
            }
        }
        lemma_shown_once(goals, less, d, unfolded, f);
        lemma_rows_grow(goals, less, d, unfolded, f);
        lemma_children_at(goals, node, d);
        let first = walk(goals, less, d, unfolded, f);
        let open = kids.len() > 0 && unfolded.contains(node.id@) && f > 0;
        let rest = if open {
            walk(goals, kids, d + 1, unfolded, (f - 1) as nat)
        } else {
            Seq::empty()
        };
        if open {
            let pred = |g: Goal| opt(g.parent_id) == Some(node.id@);
            lemma_filter_unique(goals, pred);
            assert(below(goals, Some(node.id@)) == goals.filter(pred));
            lemma_sorted_unique(below(goals, Some(node.id@)));
            lemma_shown_once(goals, kids, d + 1, unfolded, (f - 1) as nat);
            lemma_rows_grow(goals, kids, d + 1, unfolded, (f - 1) as nat);
        }
        let all = walk(goals, nodes, d, unfolded, f);
        let one = seq![node];
        let mine = seq![all[first.len() as int]] + rest;
        assert(all =~= first + mine);
        // The rows of the last node and below it all stem from that node.
        assert forall|k: int| 0 <= k < mine.len() implies goals.contains((#[trigger] mine[k]).goal)
            && at_depth(goals, mine[k].goal, mine[k].depth) && mine[k].depth >= d && leads(
            goals,
            node.id@,
            mine[k].goal.id@,
            (mine[k].depth - d) as nat,
        ) && (k > 0 ==> mine[k].depth > d) by {
            if k > 0 {
                let r = rest[k - 1];
                assert(mine[k] == r);
                assert(grows_from(goals, kids, d + 1, r));
                let x = choose|x: int|
                    0 <= x < kids.len() && leads(
                        goals,
                        (#[trigger] kids[x]).id@,
                        r.goal.id@,
                        (r.depth - (d + 1)) as nat,
                    );
                assert(kids.contains(kids[x]));
                lemma_children(goals, Some(node.id@), kids[x]);
                let q = choose|q: int| 0 <= q < goals.len() && goals[q] == kids[x];
                assert(goals[q].id@ == kids[x].id@);
                assert(is_child(goals, node.id@, kids[x].id@));
                lemma_child_leads(goals, node.id@, kids[x].id@);
                lemma_leads_then(
                    goals,
                    node.id@,
                    kids[x].id@,
                    r.goal.id@,
                    1,
                    (r.depth - (d + 1)) as nat,
                );
            } else {
                assert(leads(goals, node.id@, node.id@, 0));
            }
        }
        assert forall|i: int, j: int| 0 <= i < j < all.len() implies (#[trigger] all[i]).goal.id@
            != (#[trigger] all[j]).goal.id@ by {
            if j < first.len() {
                assert(first[i].goal.id@ != first[j].goal.id@);
            } else if i >= first.len() {
                let a = i - first.len();
                let b = j - first.len();
                assert(mine[a] == all[i] && mine[b] == all[j]);
                if a > 0 {
                    assert(rest[a - 1].goal.id@ != rest[b - 1].goal.id@);
                } else if all[i].goal.id@ == all[j].goal.id@ {
                    assert(mine[0].goal == node);
                    lemma_same_goal(goals, mine[0].goal, mine[b].goal);
                    lemma_depth_is_one(goals, node, mine[0].depth, mine[b].depth);
                }
            } else {
                let b = j - first.len();
                assert(mine[b] == all[j]);
                if all[i].goal.id@ == all[j].goal.id@ {
                    assert(grows_from(goals, less, d, first[i]));
                    lemma_same_goal(goals, first[i].goal, mine[b].goal);
                    lemma_depth_is_one(goals, first[i].goal, first[i].depth, mine[b].depth);
                    let x = choose|x: int|
                        0 <= x < less.len() && leads(
                            goals,
                            (#[trigger] less[x]).id@,
                            first[i].goal.id@,
                            (first[i].depth - d) as nat,
                        );
                    lemma_one_ancestor(
                        goals,
                        less[x].id@,
                        node.id@,
                        first[i].goal.id@,
                        (first[i].depth - d) as nat,
                    );
                    assert(nodes[x].id@ != nodes[nodes.len() - 1].id@);
                }
            }
        }
    }
}

/// No goal is shown twice, and every row shows a goal of the chosen sheet.
pub proof fn law_rows_show_each_goal_once(
    goals: Seq<Goal>,
    sheet: Option<Seq<char>>,
    unfolded: Set<Seq<char>>,
)
    requires
        unique_ids(goals),
    ensures
        shown_once(visible_rows(goals, sheet, unfolded)),
        forall|i: int|
            0 <= i < visible_rows(goals, sheet, unfolded).len() ==> on_sheet(
                goals,
                sheet,
            ).contains((#[trigger] visible_rows(goals, sheet, unfolded)[i]).goal),
{
    let shown = on_sheet(goals, sheet);
    if sheet is Some {
        lemma_filter_unique(goals, |g: Goal| opt(g.sheet_id) == Some(sheet->0));
    }
    lemma_roots_at(shown);
    lemma_filter_unique(shown, |g: Goal| opt(g.parent_id) == None::<Seq<char>>);
    assert(below(shown, None) == shown.filter(|g: Goal| opt(g.parent_id) == None::<Seq<char>>));
    lemma_sorted_unique(below(shown, None));
    lemma_shown_once(shown, children(shown, None), 0, unfolded, shown.len());
    lemma_rows_grow(shown, children(shown, None), 0, unfolded, shown.len());
}

/// A row of the walk for a goal.
spec fn has_row(rows: Seq<Row>, g: Goal) -> bool {
    exists|i: int| 0 <= i < rows.len() && (#[trigger] rows[i]).goal == g
}

proof fn lemma_walk_covers(
    goals: Seq<Goal>,
    nodes: Seq<Goal>,
    d: nat,
    unfolded: Set<Seq<char>>,
    f: nat,
)
    requires
        unique_ids(goals),
        all_at(goals, nodes, d),
        d + f >= goals.len(),
    ensures
        forall|i: int|
            0 <= i < nodes.len() ==> has_row(
                walk(goals, nodes, d, unfolded, f),
                #[trigger] nodes[i],
            ),
        forall|i: int, c: Goal|
            0 <= i < walk(goals, nodes, d, unfolded, f).len() && (#[trigger] walk(
                goals,
                nodes,
                d,
                unfolded,
                f,
            )[i]).expanded && #[trigger] children(
                goals,
                Some(walk(goals, nodes, d, unfolded, f)[i].goal.id@),
            ).contains(c) ==> has_row(walk(goals, nodes, d, unfolded, f), c),
    decreases f, nodes.len(),
{
    if nodes.len() > 0 {
        let node = nodes.last();
        let kids = children(goals, Some(node.id@));
        let less = nodes.drop_last();
        assert(goals.contains(nodes[nodes.len() - 1]));
        assert(all_at(goals, less, d)) by {
            assert forall|i: int| 0 <= i < less.len() implies goals.contains(#[trigger] less[i])
                && at_depth(goals, less[i], d) by {
                assert(goals.contains(nodes[i]));
            }
        }
        lemma_walk_covers(goals, less, d, unfolded, f);
        let first = walk(goals, less, d, unfolded, f);
        let all = walk(goals, nodes, d, unfolded, f);
        let open = kids.len() > 0 && unfolded.contains(node.id@);
        if kids.len() > 0 {
            lemma_children_at(goals, node, d);
            assert(goals.contains(kids[0]));
            let i = choose|i: int| 0 <= i < goals.len() && goals[i] == kids[0];
            lemma_depth_bound(goals, i, d + 1);
            if open {
                lemma_walk_covers(goals, kids, d + 1, unfolded, (f - 1) as nat);
            }
        }
        let rest = if open {
            walk(goals, kids, d + 1, unfolded, (f - 1) as nat)
        } else {
            Seq::empty()
        };
        assert(all =~= first.push(all[first.len() as int]) + rest);
        assert(has_row(all, node)) by {
            assert(all[first.len() as int].goal == node);
        }
        assert forall|g: Goal| #[trigger] has_row(first, g) implies has_row(all, g) by {
            let k = choose|k: int| 0 <= k < first.len() && (#[trigger] first[k]).goal == g;
            assert(all[k].goal == g);
        }
        assert forall|g: Goal| #[trigger] has_row(rest, g) implies has_row(all, g) by {
            let k = choose|k: int| 0 <= k < rest.len() && (#[trigger] rest[k]).goal == g;
            assert(all[first.len() + 1 + k].goal == g);
        }
        assert forall|i: int| 0 <= i < nodes.len() implies has_row(all, #[trigger] nodes[i]) by {
            if i < less.len() {
                assert(less[i] == nodes[i]);
                assert(has_row(first, less[i]));
            } else {
                assert(nodes[i] == node);
            }
        }
        assert forall|i: int, c: Goal|
            0 <= i < all.len() && (#[trigger] all[i]).expanded && #[trigger] children(
                goals,
                Some(all[i].goal.id@),
            ).contains(c) implies has_row(all, c) by {
            if i < first.len() {
                assert(first[i].expanded);
                assert(all[i] == first[i]);
                assert(children(goals, Some(first[i].goal.id@)).contains(c));
                assert(has_row(first, c));
                assert(has_row(all, c));
            } else if i == first.len() {
                assert(all[i].goal == node);
                assert(kids.contains(c));
                let k = choose|k: int| 0 <= k < kids.len() && kids[k] == c;
                assert(has_row(rest, kids[k]));
            } else {
                let k = i - first.len() - 1;
                assert(rest[k] == all[i]);
                assert(rest[k].expanded);
                assert(children(goals, Some(rest[k].goal.id@)).contains(c));
                assert(has_row(rest, c));
            }
        }
    }
}

/// Every root goal of the chosen sheet is shown, and with an unfolded goal
/// every child of it on that sheet.
pub proof fn law_rows_show_what_is_unfolded(
    goals: Seq<Goal>,
    sheet: Option<Seq<char>>,
    unfolded: Set<Seq<char>>,
    g: Goal,
)
    requires
        unique_ids(goals),
        on_sheet(goals, sheet).contains(g),
        g.parent_id is None || exists|i: int|
            0 <= i < visible_rows(goals, sheet, unfolded).len() && (#[trigger] visible_rows(
                goals,
                sheet,
                unfolded,
            )[i]).expanded && opt(g.parent_id) == Some(
                visible_rows(goals, sheet, unfolded)[i].goal.id@,
            ),
    ensures
        exists|i: int|
            0 <= i < visible_rows(goals, sheet, unfolded).len() && (#[trigger] visible_rows(
                goals,
                sheet,
                unfolded,
            )[i]).goal == g,
{
    let shown = on_sheet(goals, sheet);
    let rows = visible_rows(goals, sheet, unfolded);
    let roots = children(shown, None);
    if sheet is Some {
        lemma_filter_unique(goals, |x: Goal| opt(x.sheet_id) == Some(sheet->0));
    }
    lemma_roots_at(shown);
    lemma_walk_covers(shown, roots, 0, unfolded, shown.len());
    if g.parent_id is None {
        lemma_children(shown, None, g);
        let k = choose|k: int| 0 <= k < roots.len() && roots[k] == g;
        assert(has_row(rows, roots[k]));
    } else {
        let i = choose|i: int|
            0 <= i < rows.len() && (#[trigger] rows[i]).expanded && opt(g.parent_id) == Some(
                rows[i].goal.id@,
            );
        lemma_children(shown, Some(rows[i].goal.id@), g);
        assert(has_row(rows, g));
    }
}

/// A goal is shown on a sheet exactly where it names that sheet; without a sheet every
/// goal is shown.
pub proof fn law_a_sheet_holds_its_goals(goals: Seq<Goal>, sheet: Option<Seq<char>>, g: Goal)
    ensures
        on_sheet(goals, sheet).contains(g) <==> goals.contains(g) && (sheet is None || opt(
            g.sheet_id,
        ) == sheet),
{
    broadcast use vstd::seq_lib::group_filter_ensures;

    if sheet is Some {
        let pred = |x: Goal| opt(x.sheet_id) == Some(sheet->0);
        if goals.contains(g) && pred(g) {
            let i = choose|i: int| 0 <= i < goals.len() && goals[i] == g;
            assert(goals.filter(pred).contains(goals[i]));
        }
        if goals.filter(pred).contains(g) {
            let k = choose|k: int| 0 <= k < goals.filter(pred).len() && goals.filter(pred)[k] == g;
            assert(pred(goals.filter(pred)[k]));
            lemma_filter_member(goals, pred, k);
        }
    }
}

/// Whether a row is marked by what stands below its goal: as one with children exactly
/// where some goal names it as its parent, and as unfolded exactly where it is.
pub open spec fn marked_rightly(goals: Seq<Goal>, unfolded: Set<Seq<char>>, row: Row) -> bool {
    &&& row.has_children <==> exists|j: int|
        0 <= j < goals.len() && opt((#[trigger] goals[j]).parent_id) == Some(row.goal.id@)
    &&& row.expanded <==> unfolded.contains(row.goal.id@)
}

/// Whether one row hangs on another: it shows a child of it, one level deeper, with
/// nothing between them that is less deep.
pub open spec fn hangs_below(rows: Seq<Row>, i: int, j: int) -> bool {
    &&& 0 <= i < j < rows.len()
    &&& rows[j].depth == rows[i].depth + 1
    &&& opt(rows[j].goal.parent_id) == Some(rows[i].goal.id@)
    &&& rows[i].expanded
    &&& forall|k: int| i < k < j ==> (#[trigger] rows[k]).depth >= rows[j].depth
}

spec fn is_held(rows: Seq<Row>, j: int) -> bool {
    exists|i: int| #[trigger] hangs_below(rows, i, j)
}

proof fn lemma_marked(goals: Seq<Goal>, nodes: Seq<Goal>, d: nat, unfolded: Set<Seq<char>>, f: nat)
    ensures
        forall|i: int|
            0 <= i < walk(goals, nodes, d, unfolded, f).len() ==> marked_rightly(
                goals,
                unfolded,
                #[trigger] walk(goals, nodes, d, unfolded, f)[i],
            ),
    decreases f, nodes.len(),
{
    if nodes.len() > 0 {
        let node = nodes.last();
        let kids = children(goals, Some(node.id@));
        let less = nodes.drop_last();
        lemma_marked(goals, less, d, unfolded, f);
        let first = walk(goals, less, d, unfolded, f);
        let open = kids.len() > 0 && unfolded.contains(node.id@) && f > 0;
        let rest = if open {
            walk(goals, kids, d + 1, unfolded, (f - 1) as nat)
        } else {
            Seq::empty()
        };
        if open {
            lemma_marked(goals, kids, d + 1, unfolded, (f - 1) as nat);
        }
        let all = walk(goals, nodes, d, unfolded, f);
        let n = first.len() as int;
        assert(all =~= first.push(all[n]) + rest);
        assert(marked_rightly(goals, unfolded, all[n])) by {
            if kids.len() > 0 {
                assert(kids.contains(kids[0]));
                lemma_children(goals, Some(node.id@), kids[0]);
                let j = choose|j: int| 0 <= j < goals.len() && goals[j] == kids[0];
                assert(opt(goals[j].parent_id) == Some(node.id@));
            }
            assert forall|j: int|
                0 <= j < goals.len() && opt((#[trigger] goals[j]).parent_id) == Some(node.id@) implies
                kids.len() > 0 by {
                assert(goals.contains(goals[j]));
                lemma_children(goals, Some(node.id@), goals[j]);
            }
        }
        assert forall|i: int| 0 <= i < all.len() implies marked_rightly(
            goals,
            unfolded,
            #[trigger] all[i],
        ) by {
            if i < n {
                assert(all[i] == first[i]);
            } else if i > n {
                assert(all[i] == rest[i - n - 1]);
            }
        }
    }
}

/// Whether a row stands at its place: one of the nodes, or on a row above it.
spec fn placed(rows: Seq<Row>, nodes: Seq<Goal>, d: nat, i: int) -> bool {
    rows[i].depth >= d && if rows[i].depth == d {
        nodes.contains(rows[i].goal)
    } else {
        is_held(rows, i)
    }
}

spec fn all_placed(rows: Seq<Row>, nodes: Seq<Goal>, d: nat) -> bool {
    forall|i: int| 0 <= i < rows.len() ==> #[trigger] placed(rows, nodes, d, i)
}

/// A row that hangs on another still does among more rows.
proof fn lemma_held_within(part: Seq<Row>, all: Seq<Row>, off: int, i: int)
    requires
        0 <= off,
        off + part.len() <= all.len(),
        part == all.subrange(off, off + part.len()),
        0 <= i < part.len(),
        is_held(part, i),
    ensures
        is_held(all, off + i),
{
    let h = choose|h: int| #[trigger] hangs_below(part, h, i);
    assert(all[off + h] == part[h]);
    assert(all[off + i] == part[i]);
    assert forall|k: int| off + h < k < off + i implies (#[trigger] all[k]).depth >= all[off
        + i].depth by {
        assert(all[k] == part[k - off]);
    }
    assert(hangs_below(all, off + h, off + i));
}

proof fn lemma_placed(goals: Seq<Goal>, nodes: Seq<Goal>, d: nat, unfolded: Set<Seq<char>>, f: nat)
    ensures
        all_placed(walk(goals, nodes, d, unfolded, f), nodes, d),
    decreases f, nodes.len(),
{
    if nodes.len() > 0 {
        let node = nodes.last();
        let kids = children(goals, Some(node.id@));
        let less = nodes.drop_last();
        lemma_placed(goals, less, d, unfolded, f);
        let first = walk(goals, less, d, unfolded, f);
        let open = kids.len() > 0 && unfolded.contains(node.id@) && f > 0;
        let rest = if open {
            walk(goals, kids, d + 1, unfolded, (f - 1) as nat)
        } else {
            Seq::empty()
        };
        if open {
            lemma_placed(goals, kids, d + 1, unfolded, (f - 1) as nat);
        }
        let all = walk(goals, nodes, d, unfolded, f);
        let n = first.len() as int;
        assert(all =~= first.push(all[n]) + rest);
        assert(first =~= all.subrange(0, n));
        assert(rest =~= all.subrange(n + 1, n + 1 + rest.len()));
        assert forall|i: int| 0 <= i < all.len() implies #[trigger] placed(all, nodes, d, i) by {
            if i < n {
                assert(all[i] == first[i]);
                assert(placed(first, less, d, i));
                if first[i].depth == d {
                    let x = choose|x: int| 0 <= x < less.len() && less[x] == first[i].goal;
                    assert(nodes[x] == first[i].goal);
                } else {
                    lemma_held_within(first, all, 0, i);
                }
            } else if i == n {
                assert(nodes[nodes.len() - 1] == all[i].goal);
            } else {
                let r = i - n - 1;
                assert(all[i] == rest[r]);
                assert(placed(rest, kids, d + 1, r));
                if rest[r].depth == d + 1 {
                    lemma_children(goals, Some(node.id@), rest[r].goal);
                    assert forall|k: int| n < k < i implies (#[trigger] all[k]).depth
                        >= all[i].depth by {
                        assert(all[k] == rest[k - n - 1]);
                        assert(placed(rest, kids, d + 1, k - n - 1));
                    }
                    assert(hangs_below(all, n, i));
                } else {
                    lemma_held_within(rest, all, n + 1, r);
                }
            }
        }
    }
}

/// A row carries the mark of a goal with children exactly where some goal of the sheet
/// names its goal as the parent, and shows as unfolded exactly where its goal is.
pub proof fn law_rows_are_marked(
    goals: Seq<Goal>,
    sheet: Option<Seq<char>>,
    unfolded: Set<Seq<char>>,
    i: int,
)
    requires
        0 <= i < visible_rows(goals, sheet, unfolded).len(),
    ensures
        ({
            let row = visible_rows(goals, sheet, unfolded)[i];
            &&& row.has_children <==> exists|g: Goal| #[trigger]
                goals.contains(g) && (sheet is None || opt(g.sheet_id) == sheet) && opt(g.parent_id)
                    == Some(row.goal.id@)
            &&& row.expanded <==> unfolded.contains(row.goal.id@)
        }),
{
    let shown = on_sheet(goals, sheet);
    lemma_marked(shown, children(shown, None), 0, unfolded, shown.len());
    let row = visible_rows(goals, sheet, unfolded)[i];
    assert(marked_rightly(shown, unfolded, row));
    if row.has_children {
        let j = choose|j: int|
            0 <= j < shown.len() && opt((#[trigger] shown[j]).parent_id) == Some(row.goal.id@);
        assert(shown.contains(shown[j]));
        law_a_sheet_holds_its_goals(goals, sheet, shown[j]);
        assert(goals.contains(shown[j]));
    }
    assert forall|g: Goal| #[trigger]
        goals.contains(g) && (sheet is None || opt(g.sheet_id) == sheet) && opt(g.parent_id) == Some(
            row.goal.id@,
        ) implies row.has_children by {
        law_a_sheet_holds_its_goals(goals, sheet, g);
        let j = choose|j: int| 0 <= j < shown.len() && shown[j] == g;
        assert(opt(shown[j].parent_id) == Some(row.goal.id@));
    }
}

/// The rows that are not indented show goals without a parent; every other row hangs on
/// the row of its parent, which is unfolded, one level deeper and with only rows of the
/// same branch between them. Every row shows a goal of the sheet.
pub proof fn law_rows_hang_below_their_parents(
    goals: Seq<Goal>,
    sheet: Option<Seq<char>>,
    unfolded: Set<Seq<char>>,
    j: int,
)
    requires
        0 <= j < visible_rows(goals, sheet, unfolded).len(),
    ensures
        ({
            let rows = visible_rows(goals, sheet, unfolded);
            &&& goals.contains(rows[j].goal) && (sheet is None || opt(rows[j].goal.sheet_id) == sheet)
            &&& rows[j].depth == 0 <==> rows[j].goal.parent_id is None
            &&& rows[j].depth > 0 ==> exists|i: int| #[trigger] hangs_below(rows, i, j)
            &&& rows[j].depth > 0 ==> unfolded.contains(rows[j].goal.parent_id->0@)
        }),
{
    let shown = on_sheet(goals, sheet);
    let roots = children(shown, None);
    let rows = visible_rows(goals, sheet, unfolded);
    lemma_placed(shown, roots, 0, unfolded, shown.len());
    lemma_marked(shown, roots, 0, unfolded, shown.len());
    assert(placed(rows, roots, 0, j));
    lemma_roots_at(shown);
    lemma_rows_grow(shown, roots, 0, unfolded, shown.len());
    assert(grows_from(shown, roots, 0, rows[j]));
    law_a_sheet_holds_its_goals(goals, sheet, rows[j].goal);
    if rows[j].depth == 0 {
        assert(roots.contains(rows[j].goal));
        lemma_children(shown, None, rows[j].goal);
    } else {
        assert(is_held(rows, j));
        let i = choose|i: int| #[trigger] hangs_below(rows, i, j);
        assert(marked_rightly(shown, unfolded, rows[i]));
    }
}

/// Whether one goal may stand above another among siblings: by their sort order, and
/// where that is equal by their creation time, and where that is equal too by the order
/// in which they are stored.
pub open spec fn may_precede(goals: Seq<Goal>, a: int, b: int) -> bool {
    let (x, y) = (goals[a], goals[b]);
    ||| x.sort_order < y.sort_order
    ||| x.sort_order == y.sort_order && str_less(x.created_at@, y.created_at@)
    ||| x.sort_order == y.sort_order && x.created_at@ == y.created_at@ && a < b
}

/// Where a goal goes among ordered ones.
proof fn lemma_insert_position(s: Seq<Goal>, g: Goal) -> (i: int)
    ensures
        0 <= i <= s.len(),
        insert_goal(s, g) == s.insert(i, g),
        i > 0 ==> !before(g, s[i - 1]),
        forall|k: int| i <= k < s.len() ==> before(g, #[trigger] s[k]),
    decreases s.len(),
{
    if s.len() == 0 || !before(g, s.last()) {
        assert(s.insert(s.len() as int, g) =~= s.push(g));
        s.len() as int
    } else {
        let t = s.drop_last();
        let i = lemma_insert_position(t, g);
        assert(s.insert(i, g) =~= t.insert(i, g).push(s.last()));
        assert forall|k: int| i <= k < s.len() implies before(g, #[trigger] s[k]) by {
            if k < t.len() {
                assert(before(g, t[k]));
            }
        }
        i
    }
}

/// Sorting puts each goal behind those that may precede it, as they are stored.
pub proof fn law_sorting_is_stable(s: Seq<Goal>, i: int, j: int)
    requires
        0 <= i < j < sorted(s).len(),
    ensures
        exists|a: int, b: int|
            0 <= a < s.len() && 0 <= b < s.len() && a != b && sorted(s)[i] == #[trigger] s[a]
                && sorted(s)[j] == #[trigger] s[b] && may_precede(s, a, b),
    decreases s.len(),
{
    law_sorted_is_an_ordered_permutation(s);
    let t = s.drop_last();
    let g = s.last();
    let last = s.len() - 1;
    law_sorted_is_an_ordered_permutation(t);
    let u = sorted(t);
    let p = lemma_insert_position(u, g);
    let r = sorted(s);
    assert(r == u.insert(p, g));
    law_order_is_total(r[i].created_at@, r[j].created_at@);
    assert(!before(r[j], r[i]));
    if i != p && j != p {
        let x = if i < p {
            i
        } else {
            i - 1
        };
        let y = if j < p {
            j
        } else {
            j - 1
        };
        law_sorting_is_stable(t, x, y);
        let (a, b) = choose|a: int, b: int|
            0 <= a < t.len() && 0 <= b < t.len() && a != b && u[x] == #[trigger] t[a] && u[y]
                == #[trigger] t[b] && may_precede(t, a, b);
        assert(s[a] == t[a] && s[b] == t[b]);
        assert(may_precede(s, a, b));
    } else if j == p {
        lemma_sorted_contains(t, u[i]);
        assert(u.contains(u[i]));
        let a = choose|a: int| 0 <= a < t.len() && t[a] == u[i];
        assert(s[a] == r[i] && s[last] == r[j]);
        assert(may_precede(s, a, last));
    } else {
        assert(before(g, u[j - 1]));
        lemma_sorted_contains(t, u[j - 1]);
        assert(u.contains(u[j - 1]));
        let b = choose|b: int| 0 <= b < t.len() && t[b] == u[j - 1];
        assert(s[b] == r[j] && s[last] == r[i]);
        assert(may_precede(s, last, b));
    }
}

proof fn lemma_filter_order(goals: Seq<Goal>, pred: spec_fn(Goal) -> bool, i: int, j: int) -> (r: (
    int,
    int,
))
    requires
        0 <= i < j < goals.filter(pred).len(),
    ensures
        0 <= r.0 < r.1 < goals.len(),
        goals[r.0] == goals.filter(pred)[i],
        goals[r.1] == goals.filter(pred)[j],
    decreases goals.len(),
{
    broadcast use vstd::seq_lib::group_filter_ensures;

    let t = goals.drop_last();
    assert(goals =~= t.push(goals.last()));
    t.lemma_filter_push(goals.last(), pred);
    if j < t.filter(pred).len() {
        lemma_filter_order(t, pred, i, j)
    } else {
        lemma_filter_member(t, pred, i);
        let a = choose|a: int| 0 <= a < t.len() && t[a] == t.filter(pred)[i];
        (a, goals.len() - 1)
    }
}

proof fn lemma_same_index(goals: Seq<Goal>, a: int, b: int)
    requires
        unique_ids(goals),
        0 <= a < goals.len(),
        0 <= b < goals.len(),
        goals[a] == goals[b],
    ensures
        a == b,
{
    if a < b {
        assert(goals[a].id@ != goals[b].id@);
    } else if b < a {
        assert(goals[b].id@ != goals[a].id@);
    }
}

/// Whether two goals stand in sibling order.
spec fn ordered(goals: Seq<Goal>, x: Goal, y: Goal) -> bool {
    forall|a: int, b: int|
        0 <= a < goals.len() && 0 <= b < goals.len() && #[trigger] goals[a] == x
            && #[trigger] goals[b] == y ==> may_precede(goals, a, b)
}

spec fn all_ordered(goals: Seq<Goal>, nodes: Seq<Goal>) -> bool {
    forall|i: int, j: int|
        0 <= i < j < nodes.len() ==> ordered(goals, #[trigger] nodes[i], #[trigger] nodes[j])
}

proof fn lemma_children_ordered(goals: Seq<Goal>, parent: Option<Seq<char>>)
    requires
        unique_ids(goals),
    ensures
        all_ordered(goals, children(goals, parent)),
{
    let pred = |g: Goal| opt(g.parent_id) == parent;
    let f = below(goals, parent);
    assert(f == goals.filter(pred));
    let kids = children(goals, parent);
    assert forall|i: int, j: int| 0 <= i < j < kids.len() implies ordered(
        goals,
        #[trigger] kids[i],
        #[trigger] kids[j],
    ) by {
        law_sorting_is_stable(f, i, j);
        let (a, b) = choose|a: int, b: int|
            0 <= a < f.len() && 0 <= b < f.len() && a != b && kids[i] == #[trigger] f[a] && kids[j]
                == #[trigger] f[b] && may_precede(f, a, b);
        assert forall|x: int, y: int|
            0 <= x < goals.len() && 0 <= y < goals.len() && #[trigger] goals[x] == kids[i]
                && #[trigger] goals[y] == kids[j] implies may_precede(goals, x, y) by {
            if a < b {
                let r = lemma_filter_order(goals, pred, a, b);
                lemma_same_index(goals, r.0, x);
                lemma_same_index(goals, r.1, y);
            } else {
                let r = lemma_filter_order(goals, pred, b, a);
                lemma_same_index(goals, r.0, y);
                lemma_same_index(goals, r.1, x);
            }
        }
    }
}

spec fn siblings_ordered(goals: Seq<Goal>, rows: Seq<Row>) -> bool {
    forall|i: int, j: int|
        0 <= i < j < rows.len() && (#[trigger] rows[i]).depth == (#[trigger] rows[j]).depth && opt(
            rows[i].goal.parent_id,
        ) == opt(rows[j].goal.parent_id) ==> ordered(goals, rows[i].goal, rows[j].goal)
}

proof fn lemma_siblings_ordered(
    goals: Seq<Goal>,
    nodes: Seq<Goal>,
    d: nat,
    unfolded: Set<Seq<char>>,
    f: nat,
)
    requires
        unique_ids(goals),
        unique_ids(nodes),
        all_at(goals, nodes, d),
        all_ordered(goals, nodes),
    ensures
        siblings_ordered(goals, walk(goals, nodes, d, unfolded, f)),
    decreases f, nodes.len(),
{
    if nodes.len() > 0 {
        let node = nodes.last();
        let kids = children(goals, Some(node.id@));
        let less = nodes.drop_last();
        assert(goals.contains(nodes[nodes.len() - 1]));
        assert(all_at(goals, less, d)) by {
            assert forall|i: int| 0 <= i < less.len() implies goals.contains(#[trigger] less[i])
                && at_depth(goals, less[i], d) by {
                assert(goals.contains(nodes[i]));
            }
        }
        assert(unique_ids(less)) by {
            assert forall|i: int, j: int| 0 <= i < j < less.len() implies (#[trigger] less[i]).id@
                != (#[trigger] less[j]).id@ by {
                assert(nodes[i].id@ != nodes[j].id@);
            }
        }
        assert(all_ordered(goals, less)) by {
            assert forall|i: int, j: int| 0 <= i < j < less.len() implies ordered(
                goals,
                #[trigger] less[i],
                #[trigger] less[j],
            ) by {
                assert(ordered(goals, nodes[i], nodes[j]));
            }
        }
        lemma_siblings_ordered(goals, less, d, unfolded, f);
        lemma_placed(goals, less, d, unfolded, f);
        lemma_shown_once(goals, nodes, d, unfolded, f);
        lemma_children_at(goals, node, d);
        let first = walk(goals, less, d, unfolded, f);
        let open = kids.len() > 0 && unfolded.contains(node.id@) && f > 0;
        let rest = if open {
            walk(goals, kids, d + 1, unfolded, (f - 1) as nat)
        } else {
            Seq::empty()
        };
        if open {
            let pred = |g: Goal| opt(g.parent_id) == Some(node.id@);
            lemma_filter_unique(goals, pred);
            assert(below(goals, Some(node.id@)) == goals.filter(pred));
            lemma_sorted_unique(below(goals, Some(node.id@)));
            lemma_children_ordered(goals, Some(node.id@));
            lemma_siblings_ordered(goals, kids, d + 1, unfolded, (f - 1) as nat);
            lemma_placed(goals, kids, d + 1, unfolded, (f - 1) as nat);
        }
        let all = walk(goals, nodes, d, unfolded, f);
        let n = first.len() as int;
        assert(all =~= first.push(all[n]) + rest);
        assert forall|i: int, j: int|
            0 <= i < j < all.len() && (#[trigger] all[i]).depth == (#[trigger] all[j]).depth && opt(
                all[i].goal.parent_id,
            ) == opt(all[j].goal.parent_id) implies ordered(goals, all[i].goal, all[j].goal) by {
            if j < n {
                assert(all[i] == first[i] && all[j] == first[j]);
            } else if i > n {
                assert(all[i] == rest[i - n - 1] && all[j] == rest[j - n - 1]);
            } else if j == n {
                assert(all[i] == first[i]);
                assert(placed(first, less, d, i));
                let x = choose|x: int| 0 <= x < less.len() && less[x] == first[i].goal;
                assert(nodes[x] == less[x]);
                assert(ordered(goals, nodes[x], nodes[nodes.len() - 1]));
            } else if i == n {
                assert(all[j] == rest[j - n - 1]);
                assert(placed(rest, kids, d + 1, j - n - 1));
            } else {
                // Each row hangs on a row of its own part, and these are not the same.
                let r = j - n - 1;
                assert(all[i] == first[i] && all[j] == rest[r]);
                assert(placed(rest, kids, d + 1, r));
                assert(placed(first, less, d, i));
                let h = choose|h: int| #[trigger] hangs_below(first, h, i);
                assert(all[h] == first[h]);
                if rest[r].depth == d + 1 {
                    assert(kids.contains(rest[r].goal));
                    lemma_children(goals, Some(node.id@), rest[r].goal);
                    assert(all[h].goal.id@ != all[n].goal.id@);
                } else {
                    let k = choose|k: int| #[trigger] hangs_below(rest, k, r);
                    assert(all[k + n + 1] == rest[k]);
                    assert(all[h].goal.id@ != all[k + n + 1].goal.id@);
                }
            }
        }
    }
}

/// Of two rows with the same parent, the upper one has the smaller sort order; where
/// that is equal the earlier creation time; and where that is equal too, it is stored
/// first.
pub proof fn law_siblings_are_in_order(
    goals: Seq<Goal>,
    sheet: Option<Seq<char>>,
    unfolded: Set<Seq<char>>,
    i: int,
    j: int,
    a: int,
    b: int,
)
    requires
        unique_ids(goals),
        0 <= i < j < visible_rows(goals, sheet, unfolded).len(),
        0 <= a < goals.len(),
        0 <= b < goals.len(),
        goals[a] == visible_rows(goals, sheet, unfolded)[i].goal,
        goals[b] == visible_rows(goals, sheet, unfolded)[j].goal,
        opt(goals[a].parent_id) == opt(goals[b].parent_id),
    ensures
        may_precede(goals, a, b),
{
    let shown = on_sheet(goals, sheet);
    let roots = children(shown, None);
    let rows = visible_rows(goals, sheet, unfolded);
    let pred = |g: Goal| opt(g.sheet_id) == Some(sheet->0);
    if sheet is Some {
        lemma_filter_unique(goals, pred);
        assert(shown == goals.filter(pred));
    }
    lemma_roots_at(shown);
    lemma_filter_unique(shown, |g: Goal| opt(g.parent_id) == None::<Seq<char>>);
    assert(below(shown, None) == shown.filter(|g: Goal| opt(g.parent_id) == None::<Seq<char>>));
    lemma_sorted_unique(below(shown, None));
    lemma_children_ordered(shown, None);
    lemma_siblings_ordered(shown, roots, 0, unfolded, shown.len());
    lemma_shown_once(shown, roots, 0, unfolded, shown.len());
    law_rows_hang_below_their_parents(goals, sheet, unfolded, i);
    law_rows_hang_below_their_parents(goals, sheet, unfolded, j);
    if rows[i].depth > 0 {
        let h = choose|h: int| #[trigger] hangs_below(rows, h, i);
        let k = choose|k: int| #[trigger] hangs_below(rows, k, j);
        if h < k {
            assert(rows[h].goal.id@ != rows[k].goal.id@);
        } else if k < h {
            assert(rows[k].goal.id@ != rows[h].goal.id@);
        }
    }
    assert(rows[i].depth == rows[j].depth);
    assert(ordered(shown, rows[i].goal, rows[j].goal));
    law_a_sheet_holds_its_goals(goals, sheet, goals[a]);
    law_a_sheet_holds_its_goals(goals, sheet, goals[b]);
    lemma_rows_grow(shown, roots, 0, unfolded, shown.len());
    assert(grows_from(shown, roots, 0, rows[i]));
    assert(grows_from(shown, roots, 0, rows[j]));
    let x = choose|x: int| 0 <= x < shown.len() && shown[x] == goals[a];
    let y = choose|y: int| 0 <= y < shown.len() && shown[y] == goals[b];
    assert(may_precede(shown, x, y));
    if x < y && sheet is Some {
        let r = lemma_filter_order(goals, pred, x, y);
        lemma_same_index(goals, r.0, a);
        lemma_same_index(goals, r.1, b);
    } else if sheet is None {
        lemma_same_index(goals, x, a);
        lemma_same_index(goals, y, b);
    }
}

/// Whether a goal is one of the goals and names another as its parent.
pub open spec fn is_parent(goals: Seq<Goal>, parent: Goal, child: Goal) -> bool {
    goals.contains(child) && opt(child.parent_id) == Some(parent.id@)
}

/// Whether some goals lead from one down to another, each the parent of the next.
pub open spec fn is_branch(goals: Seq<Goal>, path: Seq<Goal>) -> bool {
    &&& path.len() > 1
    &&& forall|i: int, j: int|
        0 <= i && j == i + 1 && j < path.len() ==> is_parent(
            goals,
            #[trigger] path[i],
            #[trigger] path[j],
        )
}

proof fn lemma_branch_leads(goals: Seq<Goal>, path: Seq<Goal>)
    requires
        is_branch(goals, path),
    ensures
        leads(goals, path[0].id@, path.last().id@, (path.len() - 1) as nat),
    decreases path.len(),
{
    let n = path.len() - 1;
    assert(is_parent(goals, path[n - 1], path[n]));
    let k = choose|k: int| 0 <= k < goals.len() && goals[k] == path[n];
    assert(goals[k].id@ == path[n].id@);
    assert(is_child(goals, path[n - 1].id@, path[n].id@));
    lemma_child_leads(goals, path[n - 1].id@, path[n].id@);
    if path.len() > 2 {
        let up = path.drop_last();
        assert forall|i: int, j: int| 0 <= i && j == i + 1 && j < up.len() implies is_parent(
            goals,
            #[trigger] up[i],
            #[trigger] up[j],
        ) by {
            assert(is_parent(goals, path[i], path[j]));
        }
        lemma_branch_leads(goals, up);
        lemma_leads_then(
            goals,
            path[0].id@,
            path[n - 1].id@,
            path[n].id@,
            (path.len() - 2) as nat,
            1,
        );
    }
}

proof fn lemma_leads_branch(goals: Seq<Goal>, g: Goal, h: Goal, n: nat) -> (path: Seq<Goal>)
    requires
        unique_ids(goals),
        n > 0,
        goals.contains(h),
        leads(goals, g.id@, h.id@, n),
    ensures
        is_branch(goals, path),
        path[0] == g,
        path.last() == h,
    decreases n,
{
    let c = lemma_last_step(goals, g.id@, h.id@, n);
    let k = choose|k: int|
        0 <= k < goals.len() && (#[trigger] goals[k]).id@ == h.id@ && opt(goals[k].parent_id) == Some(
            c,
        );
    assert(goals.contains(goals[k]));
    lemma_same_goal(goals, goals[k], h);
    if n == 1 {
        assert(c == g.id@);
        let path = seq![g, h];
        assert(is_branch(goals, path));
        path
    } else {
        let b = lemma_last_step(goals, g.id@, c, (n - 1) as nat);
        let m = choose|m: int|
            0 <= m < goals.len() && (#[trigger] goals[m]).id@ == c && opt(goals[m].parent_id) == Some(
                b,
            );
        assert(goals.contains(goals[m]));
        let up = lemma_leads_branch(goals, g, goals[m], (n - 1) as nat);
        let path = up.push(h);
        assert forall|i: int, j: int| 0 <= i && j == i + 1 && j < path.len() implies is_parent(
            goals,
            #[trigger] path[i],
            #[trigger] path[j],
        ) by {
            if j < up.len() {
                assert(is_parent(goals, up[i], up[j]));
            } else {
                assert(path[i] == up.last());
            }
        }
        path
    }
}

/// A goal counts as partly done exactly where it is done and a branch of goals, however
/// long, leads from it down to one that is not.
pub proof fn law_partly_done_looks_all_the_way_down(goals: Seq<Goal>, g: Goal)
    requires
        unique_ids(goals),
    ensures
        partially_complete(goals, g) <==> g.status == GoalStatus::Completed && exists|
            path: Seq<Goal>,
        | #[trigger]
            is_branch(goals, path) && path[0].id@ == g.id@ && path.last().status
                != GoalStatus::Completed,
{
    if partially_complete(goals, g) {
        let i = choose|i: int|
            0 <= i < goals.len() && (#[trigger] goals[i]).status != GoalStatus::Completed
                && is_descendant(goals, g.id@, goals[i].id@);
        let n = choose|n: nat| n > 0 && #[trigger] leads(goals, g.id@, goals[i].id@, n);
        assert(goals.contains(goals[i]));
        let path = lemma_leads_branch(goals, g, goals[i], n);
        assert(is_branch(goals, path));
    }
    assert forall|path: Seq<Goal>| #[trigger]
        is_branch(goals, path) && path[0].id@ == g.id@ && path.last().status
            != GoalStatus::Completed && g.status == GoalStatus::Completed implies partially_complete(
        goals,
        g,
    ) by {
        lemma_branch_leads(goals, path);
        assert(is_parent(goals, path[path.len() - 2], path[path.len() - 1]));
        let i = choose|i: int| 0 <= i < goals.len() && goals[i] == path.last();
        assert(goals[i].status != GoalStatus::Completed);
        assert(leads(goals, g.id@, goals[i].id@, (path.len() - 1) as nat));
        assert(is_descendant(goals, g.id@, goals[i].id@));
    }
}

/// What stands below a goal is exactly what a branch of goals leads to.
pub proof fn law_descendants_are_all_that_hangs_below(goals: Seq<Goal>, g: Goal, h: Goal)
    requires
        unique_ids(goals),
        goals.contains(h),
    ensures
        is_descendant(goals, g.id@, h.id@) <==> exists|path: Seq<Goal>| #[trigger]
            is_branch(goals, path) && path[0].id@ == g.id@ && path.last() == h,
{
    if is_descendant(goals, g.id@, h.id@) {
        let n = choose|n: nat| n > 0 && #[trigger] leads(goals, g.id@, h.id@, n);
        let path = lemma_leads_branch(goals, g, h, n);
        assert(is_branch(goals, path));
    }
    assert forall|path: Seq<Goal>| #[trigger]
        is_branch(goals, path) && path[0].id@ == g.id@ && path.last() == h implies is_descendant(
        goals,
        g.id@,
        h.id@,
    ) by {
        lemma_branch_leads(goals, path);
        assert(leads(goals, g.id@, h.id@, (path.len() - 1) as nat));
    }
}

// ---------- moves ----------

/// The goals after one of them has been put below another parent.
pub open spec fn moved(goals: Seq<Goal>, id: Seq<char>, parent: Option<String>) -> Seq<Goal> {
    goals.map_values(
        |g: Goal|
            if g.id@ == id {
                Goal { parent_id: parent, ..g }
            } else {
                g
            },
    )
}

/// A path after a move is a path from before it, or it passes through the moved
/// goal and its new parent.
proof fn lemma_moved_path(
    goals: Seq<Goal>,
    id: Seq<char>,
    parent: Option<String>,
    a: Seq<char>,
    b: Seq<char>,
    n: nat,
)
    requires
        leads(moved(goals, id, parent), a, b, n),
    ensures
        leads(goals, a, b, n) || (parent is Some && (exists|k: nat| #[trigger] leads(goals, id, b, k))
            && (exists|j: nat| #[trigger] leads(goals, a, parent->0@, j))),
    decreases n,
{
    let after = moved(goals, id, parent);
    if n > 0 {
        let c = choose|c: Seq<char>| #[trigger]
            is_child(after, a, c) && leads(after, c, b, (n - 1) as nat);
        lemma_moved_path(goals, id, parent, c, b, (n - 1) as nat);
        let i = choose|i: int|
            0 <= i < after.len() && (#[trigger] after[i]).id@ == c && opt(after[i].parent_id) == Some(
                a,
            );
        assert(goals[i].id@ == c);
        if c == id {
            assert(parent is Some && parent->0@ == a);
            assert(leads(goals, a, parent->0@, 0));
            if leads(goals, c, b, (n - 1) as nat) {
                assert(leads(goals, id, b, (n - 1) as nat));
            }
        } else {
            assert(is_child(goals, a, c));
            if !leads(goals, c, b, (n - 1) as nat) {
                let j = choose|j: nat| #[trigger] leads(goals, c, parent->0@, j);
                lemma_child_leads(goals, a, c);
                lemma_leads_then(goals, a, c, parent->0@, 1, j);
                assert(leads(goals, a, parent->0@, 1 + j));
            }
        }
    }
}

/// A goal may move below any goal but itself and those below it: a tree without
/// cycles stays one.
pub proof fn law_move_keeps_the_tree_acyclic(
    goals: Seq<Goal>,
    id: Seq<char>,
    parent: Option<String>,
)
    requires
        acyclic(goals),
        parent is Some ==> parent->0@ != id && !is_descendant(goals, id, parent->0@),
    ensures
        acyclic(moved(goals, id, parent)),
{
    let after = moved(goals, id, parent);
    assert forall|x: Seq<char>| !is_descendant(after, x, x) by {
        if is_descendant(after, x, x) {
            let n = choose|n: nat| n > 0 && #[trigger] leads(after, x, x, n);
            lemma_moved_path(goals, id, parent, x, x, n);
            if leads(goals, x, x, n) {
                assert(is_descendant(goals, x, x));
            } else {
                let k = choose|k: nat| #[trigger] leads(goals, id, x, k);
                let j = choose|j: nat| #[trigger] leads(goals, x, parent->0@, j);
                lemma_leads_then(goals, id, x, parent->0@, k, j);
                assert(leads(goals, id, parent->0@, k + j));
            }
        }
    }
}

} // verus!
