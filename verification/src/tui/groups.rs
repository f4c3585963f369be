//! Grouping the viewed day's habits by routine.
//!
//! Every routine that some habit belongs to gets a group, in the order of the
//! routine list followed by routines met only on habits; a habit in several
//! routines appears in each of their groups, and habits without a routine
//! form a final `ungrouped` group.

use vstd::prelude::*;

use crate::habit::{routine_views, ProjectedHabit, Routine, RoutineView, TodayHabit};
use crate::text::append_str;

verus! {

/// A habit that belongs to routines.
pub trait GroupedHabit {
    spec fn routine_list(&self) -> Seq<RoutineView>;

    fn routines(&self) -> (r: &Vec<Routine>)
        ensures
            routine_views(r@) == self.routine_list(),
    ;
}

impl GroupedHabit for TodayHabit {
    open spec fn routine_list(&self) -> Seq<RoutineView> {
        routine_views(self.routines@)
    }

    fn routines(&self) -> (r: &Vec<Routine>) {
        &self.routines
    }
}

impl GroupedHabit for ProjectedHabit {
    open spec fn routine_list(&self) -> Seq<RoutineView> {
        routine_views(self.routines@)
    }

    fn routines(&self) -> (r: &Vec<Routine>) {
        &self.routines
    }
}

/// One routine's habits (or the habits without a routine), by index into the
/// day's habits.
#[derive(Debug)]
pub struct HabitGroup {
    pub name: String,
    pub routine_id: Option<i64>,
    pub habit_indices: Vec<usize>,
}

pub struct GroupView {
    pub name: Seq<char>,
    pub routine_id: Option<i64>,
    pub habit_indices: Seq<usize>,
}

impl View for HabitGroup {
    type V = GroupView;

    open spec fn view(&self) -> GroupView {
        GroupView { name: self.name@, routine_id: self.routine_id, habit_indices: self.habit_indices@ }
    }
}

/// A selectable row of the today panel: a habit within one of its groups.
#[derive(Debug, Clone, Copy, PartialEq, Eq, Structural)]
pub struct HabitEntry {
    pub habit_index: usize,
    pub routine_id: Option<i64>,
}

pub open spec fn has_routine(rs: Seq<RoutineView>, id: i64) -> bool {
    exists|k: int| 0 <= k < rs.len() && (#[trigger] rs[k]).id == id
}

/// The routine list extended, in order, by each routine of `extra` whose id
/// is not yet listed.
pub open spec fn known_routines(base: Seq<RoutineView>, extra: Seq<RoutineView>) -> Seq<RoutineView>
    decreases extra.len(),
{
    if extra.len() == 0 {
        base
    } else {
        let known = known_routines(base, extra.drop_last());
        if has_routine(known, extra.last().id) {
            known
        } else {
            known.push(extra.last())
        }
    }
}

/// The routines of the habits, one habit after another.
pub open spec fn flat_routines<H: GroupedHabit>(habits: Seq<H>) -> Seq<RoutineView>
    decreases habits.len(),
{
    if habits.len() == 0 {
        Seq::empty()
    } else {
        flat_routines(habits.drop_last()) + habits.last().routine_list()
    }
}

/// The indices, ascending, of the first `n` habits that belong to routine `id`.
pub open spec fn members<H: GroupedHabit>(habits: Seq<H>, id: i64, n: int) -> Seq<usize>
    decreases n,
{
    if n <= 0 {
        Seq::empty()
    } else {
        let m = members(habits, id, n - 1);
        if has_routine(habits[n - 1].routine_list(), id) {
            m.push((n - 1) as usize)
        } else {
            m
        }
    }
}

/// The indices, ascending, of the first `n` habits that belong to no routine.
pub open spec fn ungrouped_members<H: GroupedHabit>(habits: Seq<H>, n: int) -> Seq<usize>
    decreases n,
{
    if n <= 0 {
        Seq::empty()
    } else {
        let m = ungrouped_members(habits, n - 1);
        if habits[n - 1].routine_list().len() == 0 {
            m.push((n - 1) as usize)
        } else {
            m
        }
    }
}

/// The non-empty groups of the listed routines, in the listed order.
pub open spec fn groups_over<H: GroupedHabit>(habits: Seq<H>, known: Seq<RoutineView>) -> Seq<
    GroupView,
>
    decreases known.len(),
{
    if known.len() == 0 {
        Seq::empty()
    } else {
        let g = groups_over(habits, known.drop_last());
        let r = known.last();
        let m = members(habits, r.id, habits.len() as int);
        if m.len() > 0 {
            g.push(GroupView { name: r.name, routine_id: Some(r.id), habit_indices: m })
        } else {
            g
        }
    }
}

/// The groups of the today panel.
pub open spec fn grouped<H: GroupedHabit>(habits: Seq<H>, routines: Seq<RoutineView>) -> Seq<
    GroupView,
> {
    let known = known_routines(routines, flat_routines(habits));
    let g = groups_over(habits, known);
    let u = ungrouped_members(habits, habits.len() as int);
    if u.len() > 0 {
        g.push(GroupView { name: "ungrouped"@, routine_id: None, habit_indices: u })
    } else {
        g
    }
}

/// The rows of the groups, group after group.
pub open spec fn entries_of(groups: Seq<GroupView>) -> Seq<HabitEntry>
    decreases groups.len(),
{
    if groups.len() == 0 {
        Seq::empty()
    } else {
        let g = groups.last();
        entries_of(groups.drop_last()) + Seq::new(
            g.habit_indices.len(),
            |j: int| HabitEntry { habit_index: g.habit_indices[j], routine_id: g.routine_id },
        )
    }
}

pub open spec fn group_views(groups: Seq<HabitGroup>) -> Seq<GroupView> {
    groups.map_values(|g: HabitGroup| g@)
}

proof fn lemma_views_push(rs: Seq<Routine>, r: Routine)
    ensures
        routine_views(rs.push(r)) == routine_views(rs).push(r@),
{
    assert(routine_views(rs.push(r)) =~= routine_views(rs).push(r@));
}

pub fn listed(known: &Vec<Routine>, id: i64) -> (r: bool)
    ensures
        r == has_routine(routine_views(known@), id),
{
    let mut i: usize = 0;
    while i < known.len()
        invariant
            i <= known@.len(),
            forall|k: int| 0 <= k < i ==> (#[trigger] known@[k]).id != id,
        decreases known@.len() - i,
    {
        if known[i].id == id {
            assert(routine_views(known@)[i as int].id == id);
            return true;
        }
        i = i + 1;
    }
    assert forall|k: int| 0 <= k < routine_views(known@).len() implies (#[trigger] routine_views(
        known@,
    )[k]).id != id by {
        assert(routine_views(known@)[k] == known@[k]@);
    }
    false
}

proof fn lemma_flat_routines_step<H: GroupedHabit>(habits: Seq<H>, i: int)
    requires
        0 <= i < habits.len(),
    ensures
        flat_routines(habits.take(i + 1)) == flat_routines(habits.take(i)) + habits[i].routine_list(),
{
    assert(habits.take(i + 1).drop_last() =~= habits.take(i));
}

proof fn lemma_members_bounded<H: GroupedHabit>(habits: Seq<H>, id: i64, n: int)
    requires
        0 <= n <= habits.len(),
    ensures
        forall|k: int|
            0 <= k < members(habits, id, n).len() ==> #[trigger] members(habits, id, n)[k] < n,
    decreases n,
{
    if n > 0 {
        lemma_members_bounded(habits, id, n - 1);
        let m = members(habits, id, n - 1);
        assert forall|k: int|
            0 <= k < members(habits, id, n).len() implies #[trigger] members(habits, id, n)[k]
            < n by {
            if k < m.len() {
                assert(members(habits, id, n)[k] == m[k]);
            }
        }
    }
}

proof fn lemma_ungrouped_bounded<H: GroupedHabit>(habits: Seq<H>, n: int)
    requires
        0 <= n <= habits.len(),
    ensures
        forall|k: int|
            0 <= k < ungrouped_members(habits, n).len() ==> #[trigger] ungrouped_members(habits, n)[k]
                < n,
    decreases n,
{
    if n > 0 {
        lemma_ungrouped_bounded(habits, n - 1);
        let m = ungrouped_members(habits, n - 1);
        assert forall|k: int|
            0 <= k < ungrouped_members(habits, n).len() implies #[trigger] ungrouped_members(
            habits,
            n,
        )[k] < n by {
            if k < m.len() {
                assert(ungrouped_members(habits, n)[k] == m[k]);
            }
        }
    }
}

fn routine_members<H: GroupedHabit>(habits: &Vec<H>, id: i64) -> (r: Vec<usize>)
    ensures
        r@ == members(habits@, id, habits@.len() as int),
{
    let mut m: Vec<usize> = Vec::new();
    let mut i: usize = 0;
    while i < habits.len()
        invariant
            i <= habits@.len(),
            m@ == members(habits@, id, i as int),
        decreases habits@.len() - i,
    {
        if listed(habits[i].routines(), id) {
            m.push(i);
        }
        i = i + 1;
    }
    m
}

/// The groups of the today panel for `habits` and the routine list.
pub fn habit_groups<H: GroupedHabit>(habits: &Vec<H>, routines: &Vec<Routine>) -> (r: Vec<
    HabitGroup,
>)
    ensures
        group_views(r@) == grouped(habits@, routine_views(routines@)),
{
    let mut known: Vec<Routine> = Vec::new();
    let mut i: usize = 0;
    while i < routines.len()
        invariant
            i <= routines@.len(),
            routine_views(known@) == routine_views(routines@.take(i as int)),
        decreases routines@.len() - i,
    {
        let ghost before = known@;
        known.push(routines[i].clone());
        proof {
            lemma_views_push(before, known@.last());
            assert(routines@.take(i + 1) =~= routines@.take(i as int).push(routines@[i as int]));
            lemma_views_push(routines@.take(i as int), routines@[i as int]);
        }
        i = i + 1;
    }
    assert(routines@.take(routines@.len() as int) =~= routines@);
    let ghost base = routine_views(routines@);
    let mut h: usize = 0;
    while h < habits.len()
        invariant
            h <= habits@.len(),
            base == routine_views(routines@),
            routine_views(known@) == known_routines(base, flat_routines(habits@.take(h as int))),
        decreases habits@.len() - h,
    {
        let assigned = habits[h].routines();
        let ghost before = flat_routines(habits@.take(h as int));
        let mut j: usize = 0;
        while j < assigned.len()
            invariant
                j <= assigned@.len(),
                h < habits@.len(),
                routine_views(assigned@) == habits@[h as int].routine_list(),
                routine_views(known@) == known_routines(
                    base,
                    before + routine_views(assigned@).take(j as int),
                ),
            decreases assigned@.len() - j,
        {
            let ghost extra = before + routine_views(assigned@).take(j as int);
            let ghost next = before + routine_views(assigned@).take(j + 1);
            assert(next.drop_last() =~= extra);
            assert(next.last() == assigned@[j as int]@);
            if !listed(&known, assigned[j].id) {
                let ghost prior = known@;
                known.push(assigned[j].clone());
                proof {
                    lemma_views_push(prior, known@.last());
                }
                assert(routine_views(known@) =~= known_routines(base, extra).push(
                    assigned@[j as int]@,
                ));
            }
            j = j + 1;
        }
        proof {
            assert(routine_views(assigned@).take(assigned@.len() as int) =~= routine_views(
                assigned@,
            ));
            lemma_flat_routines_step(habits@, h as int);
        }
        h = h + 1;
    }
    assert(habits@.take(habits@.len() as int) =~= habits@);
    let ghost all_known = routine_views(known@);
    let mut groups: Vec<HabitGroup> = Vec::new();
    let mut k: usize = 0;
    while k < known.len()
        invariant
            k <= known@.len(),
            all_known == routine_views(known@),
            group_views(groups@) == groups_over(habits@, all_known.take(k as int)),
        decreases known@.len() - k,
    {
        let m = routine_members(habits, known[k].id);
        assert(all_known.take(k + 1).drop_last() =~= all_known.take(k as int));
        assert(all_known.take(k + 1).last() == known@[k as int]@);
        if m.len() > 0 {
            let group = HabitGroup {
                name: known[k].name.clone(),
                routine_id: Some(known[k].id),
                habit_indices: m,
            };
            groups.push(group);
            assert(group_views(groups@) =~= groups_over(habits@, all_known.take(k as int)).push(
                group@,
            ));
        }
        k = k + 1;
    }
    assert(all_known.take(known@.len() as int) =~= all_known);
    let mut ungrouped: Vec<usize> = Vec::new();
    let mut i: usize = 0;
    while i < habits.len()
        invariant
            i <= habits@.len(),
            ungrouped@ == ungrouped_members(habits@, i as int),
        decreases habits@.len() - i,
    {
        if habits[i].routines().len() == 0 {
            ungrouped.push(i);
        }
        i = i + 1;
    }
    if ungrouped.len() > 0 {
        let mut name = String::new();
        append_str(&mut name, "ungrouped");
        let group = HabitGroup { name, routine_id: None, habit_indices: ungrouped };
        let ghost before = group_views(groups@);
        groups.push(group);
        assert(group_views(groups@) =~= before.push(group@));
    }
    groups
}

/// Every row of the grouped habits points at a habit of the day.
pub proof fn lemma_entries_in_range<H: GroupedHabit>(habits: Seq<H>, routines: Seq<RoutineView>)
    ensures
        forall|k: int|
            0 <= k < entries_of(grouped(habits, routines)).len() ==> (#[trigger] entries_of(
                grouped(habits, routines),
            )[k]).habit_index < habits.len(),
{
    let known = known_routines(routines, flat_routines(habits));
    lemma_groups_over_in_range(habits, known);
    let g = groups_over(habits, known);
    let u = ungrouped_members(habits, habits.len() as int);
    lemma_ungrouped_bounded(habits, habits.len() as int);
    if u.len() > 0 {
        let all = g.push(GroupView { name: "ungrouped"@, routine_id: None, habit_indices: u });
        assert(all.drop_last() =~= g);
    }
}

proof fn lemma_groups_over_in_range<H: GroupedHabit>(habits: Seq<H>, known: Seq<RoutineView>)
    ensures
        forall|k: int|
            0 <= k < entries_of(groups_over(habits, known)).len() ==> (#[trigger] entries_of(
                groups_over(habits, known),
            )[k]).habit_index < habits.len(),
    decreases known.len(),
{
    if known.len() > 0 {
        lemma_groups_over_in_range(habits, known.drop_last());
        let g = groups_over(habits, known.drop_last());
        let r = known.last();
        let m = members(habits, r.id, habits.len() as int);
        lemma_members_bounded(habits, r.id, habits.len() as int);
        if m.len() > 0 {
            let all = g.push(GroupView { name: r.name, routine_id: Some(r.id), habit_indices: m });
            assert(all.drop_last() =~= g);
        }
    }
}

proof fn lemma_known_keeps(base: Seq<RoutineView>, extra: Seq<RoutineView>, id: i64)
    ensures
        has_routine(base, id) ==> has_routine(known_routines(base, extra), id),
        has_routine(extra, id) ==> has_routine(known_routines(base, extra), id),
    decreases extra.len(),
{
    if extra.len() > 0 {
        let rest = extra.drop_last();
        lemma_known_keeps(base, rest, id);
        let known = known_routines(base, rest);
        if has_routine(extra, id) {
            let k = choose|k: int| 0 <= k < extra.len() && (#[trigger] extra[k]).id == id;
            if k < extra.len() - 1 {
                assert(rest[k] == extra[k]);
                assert(has_routine(rest, id));
            }
        }
        if !has_routine(known, extra.last().id) {
            let pushed = known.push(extra.last());
            if has_routine(known, id) {
                let k = choose|k: int| 0 <= k < known.len() && (#[trigger] known[k]).id == id;
                assert(pushed[k] == known[k]);
            }
            if extra.last().id == id {
                assert(pushed[known.len() as int] == extra.last());
            }
        }
    }
}

proof fn lemma_flat_has<H: GroupedHabit>(habits: Seq<H>, i: int, id: i64)
    requires
        0 <= i < habits.len(),
        has_routine(habits[i].routine_list(), id),
    ensures
        has_routine(flat_routines(habits), id),
    decreases habits.len(),
{
    let rest = habits.drop_last();
    let tail = habits.last().routine_list();
    let all = flat_routines(habits);
    assert(all == flat_routines(rest) + tail);
    if i < habits.len() - 1 {
        assert(rest[i] == habits[i]);
        lemma_flat_has(rest, i, id);
        let k = choose|k: int| 0 <= k < flat_routines(rest).len() && (#[trigger] flat_routines(
            rest,
        )[k]).id == id;
        assert(all[k] == flat_routines(rest)[k]);
    } else {
        let k = choose|k: int| 0 <= k < tail.len() && (#[trigger] tail[k]).id == id;
        assert(all[flat_routines(rest).len() + k] == tail[k]);
    }
}

proof fn lemma_members_has<H: GroupedHabit>(habits: Seq<H>, id: i64, n: int, i: int)
    requires
        0 <= i < n <= habits.len(),
        habits.len() <= usize::MAX,
        has_routine(habits[i].routine_list(), id),
    ensures
        exists|k: int|
            0 <= k < members(habits, id, n).len() && #[trigger] members(habits, id, n)[k] == i,
    decreases n,
{
    let m = members(habits, id, n - 1);
    if i < n - 1 {
        lemma_members_has(habits, id, n - 1, i);
        let k = choose|k: int| 0 <= k < m.len() && #[trigger] m[k] == i;
        if has_routine(habits[n - 1].routine_list(), id) {
            assert(members(habits, id, n)[k] == m[k]);
        } else {
            assert(members(habits, id, n) == m);
        }
        assert(members(habits, id, n)[k] == i);
    } else {
        assert(members(habits, id, n)[m.len() as int] == i);
    }
}

proof fn lemma_ungrouped_has<H: GroupedHabit>(habits: Seq<H>, n: int, i: int)
    requires
        0 <= i < n <= habits.len(),
        habits.len() <= usize::MAX,
        habits[i].routine_list().len() == 0,
    ensures
        exists|k: int|
            0 <= k < ungrouped_members(habits, n).len() && #[trigger] ungrouped_members(habits, n)[k]
                == i,
    decreases n,
{
    let m = ungrouped_members(habits, n - 1);
    if i < n - 1 {
        lemma_ungrouped_has(habits, n - 1, i);
        let k = choose|k: int| 0 <= k < m.len() && #[trigger] m[k] == i;
        if habits[n - 1].routine_list().len() == 0 {
            assert(ungrouped_members(habits, n)[k] == m[k]);
        } else {
            assert(ungrouped_members(habits, n) == m);
        }
        assert(ungrouped_members(habits, n)[k] == i);
    } else {
        assert(ungrouped_members(habits, n)[m.len() as int] == i);
    }
}

proof fn lemma_groups_over_has<H: GroupedHabit>(habits: Seq<H>, known: Seq<RoutineView>, j: int)
    requires
        0 <= j < known.len(),
        members(habits, known[j].id, habits.len() as int).len() > 0,
    ensures
        exists|g: int|
            0 <= g < groups_over(habits, known).len() && (#[trigger] groups_over(habits, known)[g]).habit_indices
                == members(habits, known[j].id, habits.len() as int),
    decreases known.len(),
{
    let rest = known.drop_last();
    let earlier = groups_over(habits, rest);
    if j < known.len() - 1 {
        assert(rest[j] == known[j]);
        lemma_groups_over_has(habits, rest, j);
        let g = choose|g: int|
            0 <= g < earlier.len() && (#[trigger] earlier[g]).habit_indices == members(
                habits,
                known[j].id,
                habits.len() as int,
            );
        let r = known.last();
        if members(habits, r.id, habits.len() as int).len() > 0 {
            assert(groups_over(habits, known)[g] == earlier[g]);
        }
    } else {
        assert(groups_over(habits, known)[earlier.len() as int].habit_indices == members(
            habits,
            known[j].id,
            habits.len() as int,
        ));
    }
}

proof fn lemma_entries_have(groups: Seq<GroupView>, g: int, t: int)
    requires
        0 <= g < groups.len(),
        0 <= t < groups[g].habit_indices.len(),
    ensures
        exists|k: int|
            0 <= k < entries_of(groups).len() && (#[trigger] entries_of(groups)[k]).habit_index
                == groups[g].habit_indices[t],
    decreases groups.len(),
{
    let rest = groups.drop_last();
    let last = groups.last();
    let tail = Seq::new(
        last.habit_indices.len(),
        |j: int| HabitEntry { habit_index: last.habit_indices[j], routine_id: last.routine_id },
    );
    assert(entries_of(groups) == entries_of(rest) + tail);
    if g < groups.len() - 1 {
        assert(rest[g] == groups[g]);
        lemma_entries_have(rest, g, t);
        let k = choose|k: int|
            0 <= k < entries_of(rest).len() && (#[trigger] entries_of(rest)[k]).habit_index
                == groups[g].habit_indices[t];
        assert(entries_of(groups)[k] == entries_of(rest)[k]);
    } else {
        assert(entries_of(groups)[entries_of(rest).len() + t] == tail[t]);
    }
}

/// No habit of the day is hidden: each appears in at least one row of the
/// today panel (once per routine it belongs to, or once among the ungrouped).
pub proof fn lemma_every_habit_is_shown<H: GroupedHabit>(
    habits: Seq<H>,
    routines: Seq<RoutineView>,
    i: int,
)
    requires
        0 <= i < habits.len(),
        habits.len() <= usize::MAX,
    ensures
        exists|k: int|
            0 <= k < entries_of(grouped(habits, routines)).len() && (#[trigger] entries_of(
                grouped(habits, routines),
            )[k]).habit_index == i,
{
    let known = known_routines(routines, flat_routines(habits));
    let g = groups_over(habits, known);
    let u = ungrouped_members(habits, habits.len() as int);
    let all = grouped(habits, routines);
    let list = habits[i].routine_list();
    if list.len() == 0 {
        lemma_ungrouped_has(habits, habits.len() as int, i);
        let t = choose|t: int| 0 <= t < u.len() && #[trigger] u[t] == i;
        assert(all[g.len() as int].habit_indices == u);
        lemma_entries_have(all, g.len() as int, t);
    } else {
        let id = list[0].id;
        assert(has_routine(list, id));
        lemma_flat_has(habits, i, id);
        lemma_known_keeps(routines, flat_routines(habits), id);
        let j = choose|j: int| 0 <= j < known.len() && (#[trigger] known[j]).id == id;
        lemma_members_has(habits, id, habits.len() as int, i);
        let m = members(habits, id, habits.len() as int);
        let t = choose|t: int| 0 <= t < m.len() && #[trigger] m[t] == i;
        lemma_groups_over_has(habits, known, j);
        let gi = choose|gi: int| 0 <= gi < g.len() && (#[trigger] g[gi]).habit_indices == m;
        if u.len() > 0 {
            assert(all[gi] == g[gi]);
        }
        lemma_entries_have(all, gi, t);
    }
}

/// Whether the indices ascend strictly.
pub open spec fn strictly_increasing(s: Seq<usize>) -> bool {
    forall|a: int, b: int| 0 <= a < b < s.len() ==> s[a] < s[b]
}

/// Whether `i` is among the indices.
pub open spec fn lists(s: Seq<usize>, i: int) -> bool {
    exists|k: int| 0 <= k < s.len() && s[k] == i
}

/// Whether a group holds exactly its habits: for a routine's group, the
/// habits that carry that routine; for the group without a routine, named
/// `ungrouped`, the habits that carry none.
pub open spec fn holds_exactly<H: GroupedHabit>(habits: Seq<H>, g: GroupView) -> bool {
    match g.routine_id {
        Some(id) => forall|i: int|
            0 <= i < habits.len() ==> (lists(g.habit_indices, i) <==> has_routine(
                #[trigger] habits[i].routine_list(),
                id,
            )),
        None => g.name == "ungrouped"@ && forall|i: int|
            0 <= i < habits.len() ==> (lists(g.habit_indices, i) <==> (
            #[trigger] habits[i].routine_list()).len() == 0),
    }
}

proof fn lemma_members_sorted<H: GroupedHabit>(habits: Seq<H>, id: i64, n: int)
    requires
        0 <= n <= habits.len(),
        habits.len() <= usize::MAX,
    ensures
        strictly_increasing(members(habits, id, n)),
        forall|k: int|
            0 <= k < members(habits, id, n).len() ==> #[trigger] members(habits, id, n)[k] < n
                && has_routine(habits[members(habits, id, n)[k] as int].routine_list(), id),
    decreases n,
{
    if n > 0 {
        lemma_members_sorted(habits, id, n - 1);
        let m = members(habits, id, n - 1);
        let all = members(habits, id, n);
        assert forall|k: int| 0 <= k < all.len() implies #[trigger] all[k] < n && has_routine(
            habits[all[k] as int].routine_list(),
            id,
        ) by {
            if k < m.len() {
                assert(all[k] == m[k]);
            }
        }
        assert forall|a: int, b: int| 0 <= a < b < all.len() implies all[a] < all[b] by {
            assert(all[a] == m[a]);
            if b < m.len() {
                assert(all[b] == m[b]);
            }
        }
    }
}

proof fn lemma_ungrouped_sorted<H: GroupedHabit>(habits: Seq<H>, n: int)
    requires
        0 <= n <= habits.len(),
        habits.len() <= usize::MAX,
    ensures
        strictly_increasing(ungrouped_members(habits, n)),
        forall|k: int|
            0 <= k < ungrouped_members(habits, n).len() ==> #[trigger] ungrouped_members(habits, n)[k]
                < n && habits[ungrouped_members(habits, n)[k] as int].routine_list().len() == 0,
    decreases n,
{
    if n > 0 {
        lemma_ungrouped_sorted(habits, n - 1);
        let m = ungrouped_members(habits, n - 1);
        let all = ungrouped_members(habits, n);
        assert forall|k: int| 0 <= k < all.len() implies #[trigger] all[k] < n
            && habits[all[k] as int].routine_list().len() == 0 by {
            if k < m.len() {
                assert(all[k] == m[k]);
            }
        }
        assert forall|a: int, b: int| 0 <= a < b < all.len() implies all[a] < all[b] by {
            assert(all[a] == m[a]);
            if b < m.len() {
                assert(all[b] == m[b]);
            }
        }
    }
}

proof fn lemma_groups_over_shape<H: GroupedHabit>(habits: Seq<H>, known: Seq<RoutineView>)
    ensures
        forall|j: int|
            0 <= j < groups_over(habits, known).len() ==> {
                let g = #[trigger] groups_over(habits, known)[j];
                &&& g.routine_id is Some
                &&& g.habit_indices == members(habits, g.routine_id->0, habits.len() as int)
                &&& g.habit_indices.len() > 0
                &&& has_routine(known, g.routine_id->0)
            },
    decreases known.len(),
{
    if known.len() > 0 {
        let rest = known.drop_last();
        lemma_groups_over_shape(habits, rest);
        let earlier = groups_over(habits, rest);
        let all = groups_over(habits, known);
        assert forall|j: int| 0 <= j < all.len() implies {
            let g = #[trigger] all[j];
            &&& g.routine_id is Some
            &&& g.habit_indices == members(habits, g.routine_id->0, habits.len() as int)
            &&& g.habit_indices.len() > 0
            &&& has_routine(known, g.routine_id->0)
        } by {
            if j < earlier.len() {
                assert(all[j] == earlier[j]);
                let id = earlier[j].routine_id->0;
                let t = choose|t: int| 0 <= t < rest.len() && (#[trigger] rest[t]).id == id;
                assert(known[t] == rest[t]);
            } else {
                assert(known[known.len() - 1] == known.last());
            }
        }
    }
}

/// Every group of the today panel holds at least one habit, lists its habits
/// in ascending order, each once, and holds exactly its habits: a routine's
/// group those that carry the routine, the `ungrouped` group those that carry
/// none. So a routine without habits gets no group.
pub proof fn lemma_groups_hold_exactly_their_habits<H: GroupedHabit>(
    habits: Seq<H>,
    routines: Seq<RoutineView>,
)
    requires
        habits.len() <= usize::MAX,
    ensures
        forall|j: int|
            0 <= j < grouped(habits, routines).len() ==> {
                let g = #[trigger] grouped(habits, routines)[j];
                &&& g.habit_indices.len() > 0
                &&& strictly_increasing(g.habit_indices)
                &&& forall|k: int| 0 <= k < g.habit_indices.len() ==> g.habit_indices[k] < habits.len()
                &&& holds_exactly(habits, g)
            },
{
    let known = known_routines(routines, flat_routines(habits));
    let over = groups_over(habits, known);
    let u = ungrouped_members(habits, habits.len() as int);
    let all = grouped(habits, routines);
    lemma_groups_over_shape(habits, known);
    lemma_ungrouped_sorted(habits, habits.len() as int);
    assert forall|j: int| 0 <= j < all.len() implies {
        let g = #[trigger] all[j];
        &&& g.habit_indices.len() > 0
        &&& strictly_increasing(g.habit_indices)
        &&& forall|k: int| 0 <= k < g.habit_indices.len() ==> g.habit_indices[k] < habits.len()
        &&& holds_exactly(habits, g)
    } by {
        if j < over.len() {
            if u.len() > 0 {
                assert(all[j] == over[j]);
            }
            let g = over[j];
            let id = g.routine_id->0;
            lemma_members_sorted(habits, id, habits.len() as int);
            assert forall|i: int| 0 <= i < habits.len() implies (lists(g.habit_indices, i)
                <==> has_routine(#[trigger] habits[i].routine_list(), id)) by {
                if has_routine(habits[i].routine_list(), id) {
                    lemma_members_has(habits, id, habits.len() as int, i);
                }
                if lists(g.habit_indices, i) {
                    let k = choose|k: int| 0 <= k < g.habit_indices.len() && g.habit_indices[k] == i;
                    assert(has_routine(habits[g.habit_indices[k] as int].routine_list(), id));
                }
            }
        } else {
            assert(all[j] == GroupView { name: "ungrouped"@, routine_id: None, habit_indices: u });
            assert forall|i: int| 0 <= i < habits.len() implies (lists(u, i) <==> (
            #[trigger] habits[i].routine_list()).len() == 0) by {
                if habits[i].routine_list().len() == 0 {
                    lemma_ungrouped_has(habits, habits.len() as int, i);
                }
                if lists(u, i) {
                    let k = choose|k: int| 0 <= k < u.len() && u[k] == i;
                    assert(habits[u[k] as int].routine_list().len() == 0);
                }
            }
        }
    }
}

/// The index of the first routine with id `id`, or the length where none has
/// it.
pub open spec fn first_position(s: Seq<RoutineView>, id: i64) -> int
    decreases s.len(),
{
    if s.len() == 0 {
        0
    } else {
        let p = first_position(s.drop_last(), id);
        if p < s.len() - 1 {
            p
        } else if s.last().id == id {
            s.len() - 1
        } else {
            s.len() as int
        }
    }
}

/// Whether no two routines share an id.
pub open spec fn distinct_ids(s: Seq<RoutineView>) -> bool {
    forall|a: int, b: int| 0 <= a < b < s.len() ==> s[a].id != s[b].id
}

/// Where the groups of a routine id stand: the routines of the routine list
/// by their position in it, then the other routines by their first
/// appearance among the habits' routines, habit after habit.
pub open spec fn group_rank(routines: Seq<RoutineView>, flat: Seq<RoutineView>, id: i64) -> int {
    if has_routine(routines, id) {
        first_position(routines, id)
    } else {
        routines.len() + first_position(flat, id)
    }
}

proof fn lemma_first_position(s: Seq<RoutineView>, id: i64)
    ensures
        0 <= first_position(s, id) <= s.len(),
        has_routine(s, id) <==> first_position(s, id) < s.len(),
        first_position(s, id) < s.len() ==> s[first_position(s, id)].id == id,
        forall|k: int| 0 <= k < first_position(s, id) ==> (#[trigger] s[k]).id != id,
    decreases s.len(),
{
    if s.len() > 0 {
        let rest = s.drop_last();
        lemma_first_position(rest, id);
        let p = first_position(rest, id);
        if p < rest.len() {
            assert(s[p] == rest[p]);
        }
        assert forall|k: int| 0 <= k < first_position(s, id) implies (#[trigger] s[k]).id != id by {
            if k < rest.len() {
                assert(s[k] == rest[k]);
            }
        }
        if has_routine(s, id) {
            let k = choose|k: int| 0 <= k < s.len() && (#[trigger] s[k]).id == id;
            if k < rest.len() {
                assert(rest[k] == s[k]);
            }
        }
        if first_position(s, id) < s.len() {
            assert(has_routine(s, id));
        }
    }
}

proof fn lemma_first_position_distinct(s: Seq<RoutineView>, k: int)
    requires
        distinct_ids(s),
        0 <= k < s.len(),
    ensures
        first_position(s, s[k].id) == k,
{
    lemma_first_position(s, s[k].id);
    assert(has_routine(s, s[k].id));
}

proof fn lemma_first_position_prefix(s: Seq<RoutineView>, id: i64)
    requires
        s.len() > 0,
        has_routine(s.drop_last(), id),
    ensures
        first_position(s, id) == first_position(s.drop_last(), id),
{
    lemma_first_position(s.drop_last(), id);
}

proof fn lemma_has_routine_prefix(s: Seq<RoutineView>, id: i64)
    requires
        s.len() > 0,
        has_routine(s.drop_last(), id),
    ensures
        has_routine(s, id),
{
    let k = choose|k: int| 0 <= k < s.drop_last().len() && (#[trigger] s.drop_last()[k]).id == id;
    assert(s[k] == s.drop_last()[k]);
}

proof fn lemma_known_ranked(base: Seq<RoutineView>, extra: Seq<RoutineView>)
    requires
        distinct_ids(base),
    ensures
        forall|a: int, b: int|
            0 <= a < b < known_routines(base, extra).len() ==> group_rank(
                base,
                extra,
                (#[trigger] known_routines(base, extra)[a]).id,
            ) < group_rank(base, extra, (#[trigger] known_routines(base, extra)[b]).id),
        forall|k: int|
            0 <= k < known_routines(base, extra).len() ==> has_routine(
                base,
                (#[trigger] known_routines(base, extra)[k]).id,
            ) || has_routine(extra, known_routines(base, extra)[k].id),
    decreases extra.len(),
{
    let known = known_routines(base, extra);
    if extra.len() == 0 {
        assert forall|k: int| 0 <= k < known.len() implies has_routine(
            base,
            (#[trigger] known[k]).id,
        ) || has_routine(extra, known[k].id) by {
            assert(base[k].id == known[k].id);
        }
        assert forall|a: int, b: int| 0 <= a < b < known.len() implies group_rank(
            base,
            extra,
            (#[trigger] known[a]).id,
        ) < group_rank(base, extra, (#[trigger] known[b]).id) by {
            lemma_first_position_distinct(base, a);
            lemma_first_position_distinct(base, b);
            assert(has_routine(base, base[a].id));
            assert(has_routine(base, base[b].id));
        }
    } else {
        let rest = extra.drop_last();
        let prior = known_routines(base, rest);
        lemma_known_ranked(base, rest);
        let last = extra.last();
        // The ranks of the routines already known do not change.
        assert forall|k: int| 0 <= k < prior.len() implies group_rank(
            base,
            extra,
            (#[trigger] prior[k]).id,
        ) == group_rank(base, rest, prior[k].id) && (has_routine(base, prior[k].id) || has_routine(
            extra,
            prior[k].id,
        )) by {
            if !has_routine(base, prior[k].id) {
                assert(has_routine(rest, prior[k].id));
                lemma_first_position_prefix(extra, prior[k].id);
                lemma_has_routine_prefix(extra, prior[k].id);
            }
        }
        if has_routine(prior, last.id) {
            assert(known == prior);
        } else {
            assert(known == prior.push(last));
            lemma_known_keeps(base, rest, last.id);
            lemma_first_position(rest, last.id);
            assert(first_position(extra, last.id) == extra.len() - 1);
            assert(extra[extra.len() - 1] == last);
            assert(has_routine(extra, last.id));
            assert forall|k: int| 0 <= k < prior.len() implies group_rank(
                base,
                extra,
                (#[trigger] prior[k]).id,
            ) < group_rank(base, extra, last.id) by {
                lemma_first_position(base, prior[k].id);
                lemma_first_position(rest, prior[k].id);
            }
            assert forall|a: int, b: int| 0 <= a < b < known.len() implies group_rank(
                base,
                extra,
                (#[trigger] known[a]).id,
            ) < group_rank(base, extra, (#[trigger] known[b]).id) by {
                assert(known[a] == prior[a]);
                if b < prior.len() {
                    assert(known[b] == prior[b]);
                }
            }
            assert forall|k: int| 0 <= k < known.len() implies has_routine(
                base,
                (#[trigger] known[k]).id,
            ) || has_routine(extra, known[k].id) by {
                if k < prior.len() {
                    assert(known[k] == prior[k]);
                }
            }
        }
    }
}

proof fn lemma_groups_over_ranked<H: GroupedHabit>(
    habits: Seq<H>,
    known: Seq<RoutineView>,
    base: Seq<RoutineView>,
    extra: Seq<RoutineView>,
)
    requires
        forall|a: int, b: int|
            0 <= a < b < known.len() ==> group_rank(base, extra, (#[trigger] known[a]).id)
                < group_rank(base, extra, (#[trigger] known[b]).id),
    ensures
        forall|a: int, b: int|
            0 <= a < b < groups_over(habits, known).len() ==> group_rank(
                base,
                extra,
                (#[trigger] groups_over(habits, known)[a]).routine_id->0,
            ) < group_rank(base, extra, (#[trigger] groups_over(habits, known)[b]).routine_id->0),
    decreases known.len(),
{
    if known.len() > 0 {
        let rest = known.drop_last();
        assert forall|a: int, b: int| 0 <= a < b < rest.len() implies group_rank(
            base,
            extra,
            (#[trigger] rest[a]).id,
        ) < group_rank(base, extra, (#[trigger] rest[b]).id) by {
            assert(rest[a] == known[a]);
            assert(rest[b] == known[b]);
        }
        lemma_groups_over_ranked(habits, rest, base, extra);
        lemma_groups_over_shape(habits, rest);
        let earlier = groups_over(habits, rest);
        let all = groups_over(habits, known);
        let r = known.last();
        if members(habits, r.id, habits.len() as int).len() > 0 {
            assert forall|a: int, b: int| 0 <= a < b < all.len() implies group_rank(
                base,
                extra,
                (#[trigger] all[a]).routine_id->0,
            ) < group_rank(base, extra, (#[trigger] all[b]).routine_id->0) by {
                assert(all[a] == earlier[a]);
                if b < earlier.len() {
                    assert(all[b] == earlier[b]);
                } else {
                    let id = earlier[a].routine_id->0;
                    let t = choose|t: int| 0 <= t < rest.len() && (#[trigger] rest[t]).id == id;
                    assert(rest[t] == known[t]);
                    assert(known[known.len() - 1] == r);
                }
            }
        }
    }
}

/// The order of the groups: with distinct ids in the routine list, the
/// routine groups have distinct routines, each from the routine list or from
/// some habit, and come in the order of `group_rank`: the routine list's
/// order first, then the other routines in the order in which they first
/// appear among the habits. The group without a routine comes last.
pub proof fn lemma_groups_follow_routine_order<H: GroupedHabit>(
    habits: Seq<H>,
    routines: Seq<RoutineView>,
)
    requires
        distinct_ids(routines),
    ensures
        forall|j: int|
            0 <= j < grouped(habits, routines).len() ==> match (#[trigger] grouped(
                habits,
                routines,
            )[j]).routine_id {
                Some(id) => has_routine(routines, id) || has_routine(flat_routines(habits), id),
                None => j == grouped(habits, routines).len() - 1,
            },
        forall|a: int, b: int|
            0 <= a < b < grouped(habits, routines).len() && (#[trigger] grouped(habits, routines)[b]).routine_id
                is Some ==> ({
                let x = (#[trigger] grouped(habits, routines)[a]).routine_id->0;
                let y = grouped(habits, routines)[b].routine_id->0;
                &&& grouped(habits, routines)[a].routine_id is Some
                &&& group_rank(routines, flat_routines(habits), x) < group_rank(
                    routines,
                    flat_routines(habits),
                    y,
                )
                &&& x != y
            }),
{
    let flat = flat_routines(habits);
    let known = known_routines(routines, flat);
    let over = groups_over(habits, known);
    let u = ungrouped_members(habits, habits.len() as int);
    let all = grouped(habits, routines);
    lemma_known_ranked(routines, flat);
    lemma_groups_over_ranked(habits, known, routines, flat);
    lemma_groups_over_shape(habits, known);
    assert forall|j: int| 0 <= j < over.len() implies #[trigger] all[j] == over[j] by {
        if u.len() > 0 {
            assert(all[j] == over[j]);
        }
    }
    assert forall|j: int| 0 <= j < all.len() implies match (#[trigger] all[j]).routine_id {
        Some(id) => has_routine(routines, id) || has_routine(flat, id),
        None => j == all.len() - 1,
    } by {
        if j < over.len() {
            assert(all[j] == over[j]);
            let id = over[j].routine_id->0;
            let t = choose|t: int| 0 <= t < known.len() && (#[trigger] known[t]).id == id;
            assert(has_routine(routines, known[t].id) || has_routine(flat, known[t].id));
        }
    }
    assert forall|a: int, b: int| 0 <= a < b < all.len() && (#[trigger] all[b]).routine_id is Some implies ({
        let x = (#[trigger] all[a]).routine_id->0;
        let y = all[b].routine_id->0;
        &&& all[a].routine_id is Some
        &&& group_rank(routines, flat, x) < group_rank(routines, flat, y)
        &&& x != y
    }) by {
        if b >= over.len() {
            assert(all[b].routine_id is None);
        }
        assert(all[a] == over[a]);
        assert(all[b] == over[b]);
    }
}

/// The selectable rows of the today panel, group after group.
pub fn habit_entries(habits: &Vec<TodayHabit>, routines: &Vec<Routine>) -> (r: Vec<HabitEntry>)
    ensures
        r@ == entries_of(grouped(habits@, routine_views(routines@))),
        forall|k: int| 0 <= k < r@.len() ==> (#[trigger] r@[k]).habit_index < habits@.len(),
{
    let groups = habit_groups(habits, routines);
    let ghost gv = group_views(groups@);
    let mut entries: Vec<HabitEntry> = Vec::new();
    let mut g: usize = 0;
    while g < groups.len()
        invariant
            g <= groups@.len(),
            gv == group_views(groups@),
            entries@ == entries_of(gv.take(g as int)),
        decreases groups@.len() - g,
    {
        let group = &groups[g];
        let ghost prefix = entries@;
        let mut j: usize = 0;
        while j < group.habit_indices.len()
            invariant
                j <= group.habit_indices@.len(),
                entries@ == prefix + Seq::new(
                    j as nat,
                    |t: int|
                        HabitEntry {
                            habit_index: group.habit_indices@[t],
                            routine_id: group.routine_id,
                        },
                ),
            decreases group.habit_indices@.len() - j,
        {
            entries.push(
                HabitEntry { habit_index: group.habit_indices[j], routine_id: group.routine_id },
            );
            j = j + 1;
            assert(entries@ =~= prefix + Seq::new(
                j as nat,
                |t: int|
                    HabitEntry { habit_index: group.habit_indices@[t], routine_id: group.routine_id },
            ));
        }
        assert(gv.take(g + 1).drop_last() =~= gv.take(g as int));
        assert(gv.take(g + 1).last() == group@);
        assert(entries@ =~= entries_of(gv.take(g + 1)));
        g = g + 1;
    }
    assert(gv.take(groups@.len() as int) =~= gv);
    proof {
        lemma_entries_in_range(habits@, routine_views(routines@));
    }
    entries
}

/// The line of the today panel that shows row `selected` of the groups, each
/// group taking a heading line and then a line per member; the first line when
/// there is no such row.
pub open spec fn line_of_entry(groups: Seq<GroupView>, selected: int) -> int
    decreases groups.len(),
{
    if groups.len() == 0 {
        0
    } else {
        let before = entries_of(groups.drop_last()).len();
        if before <= selected < before + groups.last().habit_indices.len() {
            selected + groups.len()
        } else {
            line_of_entry(groups.drop_last(), selected)
        }
    }
}

proof fn lemma_entries_len_step(groups: Seq<GroupView>, g: int)
    requires
        0 <= g < groups.len(),
    ensures
        entries_of(groups.take(g + 1)).len() == entries_of(groups.take(g)).len()
            + groups[g].habit_indices.len(),
{
    assert(groups.take(g + 1).drop_last() =~= groups.take(g));
}

proof fn lemma_entries_len_monotone(groups: Seq<GroupView>, n: int)
    requires
        0 <= n <= groups.len(),
    ensures
        entries_of(groups.take(n)).len() <= entries_of(groups).len(),
    decreases groups.len() - n,
{
    if n < groups.len() {
        lemma_entries_len_step(groups, n);
        lemma_entries_len_monotone(groups, n + 1);
    } else {
        assert(groups.take(n) =~= groups);
    }
}

proof fn lemma_line_of_prefix(groups: Seq<GroupView>, n: int, selected: int)
    requires
        0 <= n <= groups.len(),
        selected < entries_of(groups.take(n)).len(),
    ensures
        line_of_entry(groups, selected) == line_of_entry(groups.take(n), selected),
    decreases groups.len() - n,
{
    if n == groups.len() {
        assert(groups.take(n) =~= groups);
    } else {
        let rest = groups.drop_last();
        assert(rest.take(n) =~= groups.take(n));
        lemma_entries_len_monotone(rest, n);
        lemma_line_of_prefix(rest, n, selected);
    }
}

proof fn lemma_line_of_missing(groups: Seq<GroupView>, selected: int)
    requires
        entries_of(groups).len() <= selected,
    ensures
        line_of_entry(groups, selected) == 0,
    decreases groups.len(),
{
    if groups.len() > 0 {
        lemma_line_of_missing(groups.drop_last(), selected);
    }
}

/// The line of the today panel, counted from its first group heading, that
/// shows row `selected`; the first line when there is no such row.
pub fn entry_line(groups: &Vec<HabitGroup>, selected: usize) -> (r: usize)
    requires
        groups@.len() + entries_of(group_views(groups@)).len() <= usize::MAX,
    ensures
        r == line_of_entry(group_views(groups@), selected as int),
{
    let ghost gv = group_views(groups@);
    let mut count: usize = 0;
    let mut g: usize = 0;
    while g < groups.len()
        invariant
            g <= groups@.len(),
            gv == group_views(groups@),
            groups@.len() + entries_of(gv).len() <= usize::MAX,
            count == entries_of(gv.take(g as int)).len(),
            count <= selected,
        decreases groups@.len() - g,
    {
        let n = groups[g].habit_indices.len();
        proof {
            lemma_entries_len_step(gv, g as int);
            assert(gv[g as int] == groups@[g as int]@);
        }
        if selected - count < n {
            proof {
                lemma_entries_len_monotone(gv, g + 1);
                lemma_line_of_prefix(gv, g + 1, selected as int);
                assert(gv.take(g + 1).drop_last() =~= gv.take(g as int));
            }
            return selected + g + 1;
        }
        count = count + n;
        g = g + 1;
    }
    proof {
        assert(gv.take(g as int) =~= gv);
        lemma_line_of_missing(gv, selected as int);
    }
    0
}

} // verus!
