//! The workspace strip: one fused pill for each screen, one segment for each
//! workspace, and the task ribbon below them.
//!
//! Groups are screens, ordered the way the monitors stand on the desk. The
//! selected segment is what that screen shows; the pill of the screen without
//! input focus dims as a whole. The ribbon tells which task is live, and its
//! bright segment which workspace holds a session that wants its owner.

use vstd::prelude::*;
use crate::order::{alphabetic, alphabetically, is_stable_sort, sort, sorted, Ranked};
use crate::sway_ipc::{OutputInfo, WorkspaceInfo};
use crate::task_state::{task_named, task_of_name, Activity, SessionState, TaskSnapshot, TaskState};
use crate::text::{
    chars_of, concat2, concat3, decimal_signed, decimal_signed_of, push_decimal, push_text, same,
    texts,
};

verus! {

// ── Sorting ────────────────────────────────────────────────────────────

impl Ranked for WorkspaceInfo {
    /// Numbered workspaces in numeric order, named-only ones last,
    /// alphabetically.
    open spec fn leq(&self, other: &Self) -> bool {
        if (self.num < 0) != (other.num < 0) {
            other.num < 0
        } else if self.num != other.num {
            self.num < other.num
        } else {
            alphabetic(self.name@, other.name@)
        }
    }

    proof fn total(a: &Self, b: &Self) {
        crate::order::lemma_alphabetic_total(a.name@, b.name@);
    }

    proof fn transitive(a: &Self, b: &Self, c: &Self) {
        if alphabetic(a.name@, b.name@) && alphabetic(b.name@, c.name@) {
            crate::order::lemma_alphabetic_transitive(a.name@, b.name@, c.name@);
        }
    }

    fn no_later(&self, other: &Self) -> (r: bool) {
        if (self.num < 0) != (other.num < 0) {
            other.num < 0
        } else if self.num != other.num {
            self.num < other.num
        } else {
            alphabetically(self.name.as_str(), other.name.as_str())
        }
    }
}

/// Numbered workspaces in numeric order, named-only ones (num -1) last,
/// alphabetically.
pub fn sort_workspaces(list: &mut Vec<WorkspaceInfo>)
    ensures
        is_stable_sort(final(list)@, old(list)@),
        final(list)@ == sorted(old(list)@),
{
    let mut all: Vec<WorkspaceInfo> = Vec::new();
    std::mem::swap(list, &mut all);
    *list = sort(all);
}

impl Ranked for OutputInfo {
    /// Left to right, then top to bottom, then by name.
    open spec fn leq(&self, other: &Self) -> bool {
        if self.x != other.x {
            self.x < other.x
        } else if self.y != other.y {
            self.y < other.y
        } else {
            alphabetic(self.name@, other.name@)
        }
    }

    proof fn total(a: &Self, b: &Self) {
        crate::order::lemma_alphabetic_total(a.name@, b.name@);
    }

    proof fn transitive(a: &Self, b: &Self, c: &Self) {
        if alphabetic(a.name@, b.name@) && alphabetic(b.name@, c.name@) {
            crate::order::lemma_alphabetic_transitive(a.name@, b.name@, c.name@);
        }
    }

    fn no_later(&self, other: &Self) -> (r: bool) {
        if self.x != other.x {
            self.x < other.x
        } else if self.y != other.y {
            self.y < other.y
        } else {
            alphabetically(self.name.as_str(), other.name.as_str())
        }
    }
}

// ── Grouping ───────────────────────────────────────────────────────────

/// One screen's workspaces, rendered as one fused pill.
#[derive(Debug, PartialEq, Eq)]
pub struct Group {
    /// sway output name.
    pub output: String,
    /// This screen holds input focus, so its pill stays undimmed.
    pub active: bool,
    pub workspaces: Vec<WorkspaceInfo>,
}

/// A [`Group`] as the contracts speak of it.
#[verifier::ext_equal]
pub struct GroupModel {
    pub output: Seq<char>,
    pub active: bool,
    pub workspaces: Seq<WorkspaceInfo>,
}

impl View for Group {
    type V = GroupModel;

    open spec fn view(&self) -> GroupModel {
        GroupModel { output: self.output@, active: self.active, workspaces: self.workspaces@ }
    }
}

/// The models of a list of groups.
pub open spec fn group_models(v: Seq<Group>) -> Seq<GroupModel> {
    v.map_values(|g: Group| g@)
}

/// Workspaces on the screen `name`.
pub open spec fn lives_on(name: Seq<char>) -> spec_fn(WorkspaceInfo) -> bool {
    |w: WorkspaceInfo| w.output@ == name
}

/// Workspaces on none of the screens.
pub open spec fn homeless(outputs: Seq<OutputInfo>) -> spec_fn(WorkspaceInfo) -> bool {
    |w: WorkspaceInfo|
        forall|i: int| 0 <= i < outputs.len() ==> (#[trigger] outputs[i]).name@ != w.output@
}

/// A workspace ranked by its screen's name alone.
pub struct Orphan {
    pub ws: WorkspaceInfo,
}

impl Ranked for Orphan {
    open spec fn leq(&self, other: &Self) -> bool {
        alphabetic(self.ws.output@, other.ws.output@)
    }

    proof fn total(a: &Self, b: &Self) {
        crate::order::lemma_alphabetic_total(a.ws.output@, b.ws.output@);
    }

    proof fn transitive(a: &Self, b: &Self, c: &Self) {
        crate::order::lemma_alphabetic_transitive(a.ws.output@, b.ws.output@, c.ws.output@);
    }

    fn no_later(&self, other: &Self) -> (r: bool) {
        alphabetically(self.ws.output.as_str(), other.ws.output.as_str())
    }
}

/// Workspaces made orphans.
pub open spec fn as_orphans(list: Seq<WorkspaceInfo>) -> Seq<Orphan> {
    list.map_values(|w: WorkspaceInfo| Orphan { ws: w })
}

/// Orphans made workspaces.
pub open spec fn as_workspaces(list: Seq<Orphan>) -> Seq<WorkspaceInfo> {
    list.map_values(|o: Orphan| o.ws)
}

/// The workspaces of each screen in turn.
pub open spec fn screen_by_screen(
    list: Seq<WorkspaceInfo>,
    outputs: Seq<OutputInfo>,
) -> Seq<WorkspaceInfo>
    decreases outputs.len(),
{
    if outputs.len() == 0 {
        Seq::empty()
    } else {
        screen_by_screen(list, outputs.drop_last()) + list.filter(lives_on(outputs.last().name@))
    }
}

/// The workspaces in the order in which the strip draws them: screen by
/// screen, the screens as they stand on the desk, then those on screens that
/// sway did not report, by screen name.
pub open spec fn drawn(list: Seq<WorkspaceInfo>, outputs: Seq<OutputInfo>) -> Seq<WorkspaceInfo> {
    let placed = sorted(outputs);
    screen_by_screen(list, placed) + as_workspaces(
        sorted(as_orphans(list.filter(homeless(placed)))),
    )
}

/// Where the group of a screen stands, or the number of groups.
pub open spec fn group_at(groups: Seq<GroupModel>, output: Seq<char>) -> int
    decreases groups.len(),
{
    if groups.len() == 0 {
        0
    } else if groups[0].output == output {
        0
    } else {
        1 + group_at(groups.drop_first(), output)
    }
}

/// The groups with one more workspace, in its screen's group.
pub open spec fn joined(groups: Seq<GroupModel>, w: WorkspaceInfo) -> Seq<GroupModel> {
    let at = group_at(groups, w.output@);
    if at < groups.len() {
        let g = groups[at];
        groups.update(
            at,
            GroupModel {
                output: g.output,
                active: g.active || w.focused,
                workspaces: g.workspaces.push(w),
            },
        )
    } else {
        groups.push(
            GroupModel { output: w.output@, active: w.focused, workspaces: seq![w] },
        )
    }
}

/// Workspaces gathered into one group for each screen, screens and workspaces
/// in the order in which they come.
pub open spec fn gathered(list: Seq<WorkspaceInfo>) -> Seq<GroupModel>
    decreases list.len(),
{
    if list.len() == 0 {
        Seq::empty()
    } else {
        joined(gathered(list.drop_last()), list.last())
    }
}

/// The strip's groups: one for each screen that has workspaces; all in one
/// where no screen is known.
pub open spec fn strip(list: Seq<WorkspaceInfo>, outputs: Seq<OutputInfo>) -> Seq<GroupModel> {
    if outputs.len() == 0 {
        seq![GroupModel { output: Seq::empty(), active: true, workspaces: list }]
    } else {
        gathered(drawn(list, outputs))
    }
}

proof fn lemma_group_at(groups: Seq<GroupModel>, output: Seq<char>, i: int)
    requires
        0 <= i <= groups.len(),
        forall|j: int| 0 <= j < i ==> (#[trigger] groups[j]).output != output,
        i < groups.len() ==> groups[i].output == output,
    ensures
        group_at(groups, output) == i,
    decreases groups.len(),
{
    if i > 0 {
        assert(groups[0].output != output);
        assert forall|j: int| 0 <= j < i - 1 implies (
        #[trigger] groups.drop_first()[j]).output != output by {
            assert(groups.drop_first()[j] == groups[j + 1]);
        }
        lemma_group_at(groups.drop_first(), output, i - 1);
    }
}

/// Puts a workspace into its screen's group.
fn join(groups: &mut Vec<Group>, w: WorkspaceInfo)
    ensures
        group_models(final(groups)@) == joined(group_models(old(groups)@), w),
{
    let ghost before = group_models(groups@);
    let mut i: usize = 0;
    while i < groups.len()
        invariant
            i <= groups@.len(),
            groups@ == old(groups)@,
            before == group_models(old(groups)@),
            forall|j: int| 0 <= j < i ==> (#[trigger] before[j]).output != w.output@,
        decreases groups@.len() - i,
    {
        if same(groups[i].output.as_str(), w.output.as_str()) {
            proof {
                assert(before[i as int].output == w.output@);
                lemma_group_at(before, w.output@, i as int);
            }
            let mut g = groups.remove(i);
            g.active = g.active || w.focused;
            g.workspaces.push(w);
            groups.insert(i, g);
            assert(group_models(groups@) =~= joined(before, w));
            return;
        }
        i += 1;
    }
    proof {
        lemma_group_at(before, w.output@, i as int);
    }
    let output = w.output.clone();
    let active = w.focused;
    let mut workspaces: Vec<WorkspaceInfo> = Vec::new();
    workspaces.push(w);
    assert(workspaces@ =~= seq![w]);
    groups.push(Group { output, active, workspaces });
    assert(group_models(groups@) =~= joined(before, w));
}

fn is_homeless(w: &WorkspaceInfo, outputs: &Vec<OutputInfo>) -> (r: bool)
    ensures
        r == homeless(outputs@)(*w),
{
    let mut i: usize = 0;
    while i < outputs.len()
        invariant
            i <= outputs@.len(),
            forall|j: int| 0 <= j < i ==> (#[trigger] outputs@[j]).name@ != w.output@,
        decreases outputs@.len() - i,
    {
        if same(outputs[i].name.as_str(), w.output.as_str()) {
            return false;
        }
        i += 1;
    }
    true
}

fn copied_outputs(outputs: &[OutputInfo]) -> (r: Vec<OutputInfo>)
    ensures
        r@ == outputs@,
{
    let mut r: Vec<OutputInfo> = Vec::new();
    let mut i: usize = 0;
    while i < outputs.len()
        invariant
            i <= outputs@.len(),
            r@ == outputs@.take(i as int),
        decreases outputs@.len() - i,
    {
        r.push(outputs[i].clone());
        assert(outputs@.take(i + 1) =~= outputs@.take(i as int).push(outputs@[i as int]));
        i += 1;
    }
    assert(outputs@.take(outputs@.len() as int) =~= outputs@);
    r
}

fn copied_workspaces(list: &[WorkspaceInfo]) -> (r: Vec<WorkspaceInfo>)
    ensures
        r@ == list@,
{
    let mut r: Vec<WorkspaceInfo> = Vec::new();
    let mut i: usize = 0;
    while i < list.len()
        invariant
            i <= list@.len(),
            r@ == list@.take(i as int),
        decreases list@.len() - i,
    {
        r.push(list[i].clone());
        assert(list@.take(i + 1) =~= list@.take(i as int).push(list@[i as int]));
        i += 1;
    }
    assert(list@.take(list@.len() as int) =~= list@);
    r
}

/// Gathers more workspaces, one after the other.
fn join_all(groups: &mut Vec<Group>, more: &Vec<WorkspaceInfo>, Ghost(so_far): Ghost<Seq<WorkspaceInfo>>)
    requires
        group_models(old(groups)@) == gathered(so_far),
    ensures
        group_models(final(groups)@) == gathered(so_far + more@),
{
    let mut i: usize = 0;
    assert(so_far + more@.take(0) =~= so_far);
    while i < more.len()
        invariant
            i <= more@.len(),
            group_models(groups@) == gathered(so_far + more@.take(i as int)),
        decreases more@.len() - i,
    {
        let ghost next = so_far + more@.take(i + 1);
        assert(next.drop_last() =~= so_far + more@.take(i as int));
        assert(next.last() == more@[i as int]);
        join(groups, more[i].clone());
        i += 1;
    }
    assert(more@.take(more@.len() as int) =~= more@);
}

/// The workspaces on one screen.
fn on_screen(list: &[WorkspaceInfo], name: &str) -> (r: Vec<WorkspaceInfo>)
    ensures
        r@ == list@.filter(lives_on(name@)),
{
    let mut r: Vec<WorkspaceInfo> = Vec::new();
    let mut i: usize = 0;
    proof {
        reveal(Seq::filter);
        assert(list@.take(0).filter(lives_on(name@)) =~= r@);
    }
    while i < list.len()
        invariant
            i <= list@.len(),
            r@ == list@.take(i as int).filter(lives_on(name@)),
        decreases list@.len() - i,
    {
        proof {
            reveal(Seq::filter);
            assert(list@.take(i + 1).drop_last() =~= list@.take(i as int));
        }
        if same(list[i].output.as_str(), name) {
            r.push(list[i].clone());
        }
        i += 1;
    }
    assert(list@.take(list@.len() as int) =~= list@);
    r
}

/// The workspaces on no screen of `outputs`, by the name of theirs.
fn orphans(list: &[WorkspaceInfo], outputs: &Vec<OutputInfo>) -> (r: Vec<WorkspaceInfo>)
    ensures
        r@ == as_workspaces(sorted(as_orphans(list@.filter(homeless(outputs@))))),
{
    let mut found: Vec<Orphan> = Vec::new();
    let mut i: usize = 0;
    proof {
        reveal(Seq::filter);
        assert(as_orphans(list@.take(0).filter(homeless(outputs@))) =~= found@);
    }
    while i < list.len()
        invariant
            i <= list@.len(),
            found@ == as_orphans(list@.take(i as int).filter(homeless(outputs@))),
        decreases list@.len() - i,
    {
        proof {
            reveal(Seq::filter);
            assert(list@.take(i + 1).drop_last() =~= list@.take(i as int));
        }
        let ghost kept = list@.take(i as int).filter(homeless(outputs@));
        if is_homeless(&list[i], outputs) {
            found.push(Orphan { ws: list[i].clone() });
            assert(found@ =~= as_orphans(kept.push(list@[i as int])));
        }
        i += 1;
    }
    assert(list@.take(list@.len() as int) =~= list@);
    let ranked = sort(found);
    let mut r: Vec<WorkspaceInfo> = Vec::new();
    let mut k: usize = 0;
    while k < ranked.len()
        invariant
            k <= ranked@.len(),
            r@.len() == k,
            forall|j: int| 0 <= j < k ==> r@[j] == ranked@[j].ws,
        decreases ranked@.len() - k,
    {
        r.push(ranked[k].ws.clone());
        k += 1;
    }
    assert(r@ =~= as_workspaces(ranked@));
    r
}

/// Splits the strip into one group per screen, ordered the way the screens
/// stand on the desk: left to right, then top to bottom, by the output's
/// layout origin. Each group keeps the order of `workspaces`. Outputs sway did
/// not report trail the known ones by name rather than dropping their
/// workspaces off the bar, and no output information at all collapses to the
/// single pill of the one-screen case.
pub fn group_by_output(workspaces: &[WorkspaceInfo], outputs: &[OutputInfo]) -> (r: Vec<Group>)
    ensures
        group_models(r@) == strip(workspaces@, outputs@),
{
    let mut groups: Vec<Group> = Vec::new();
    assert(group_models(groups@) =~= Seq::empty());
    if outputs.len() == 0 {
        let all = copied_workspaces(workspaces);
        let output = String::new();
        assert(output@ =~= Seq::empty());
        groups.push(Group { output, active: true, workspaces: all });
        assert(group_models(groups@) =~= strip(workspaces@, outputs@));
        return groups;
    }
    let placed = sort(copied_outputs(outputs));
    let mut i: usize = 0;
    while i < placed.len()
        invariant
            i <= placed@.len(),
            group_models(groups@) == gathered(
                screen_by_screen(workspaces@, placed@.take(i as int)),
            ),
        decreases placed@.len() - i,
    {
        assert(placed@.take(i + 1).drop_last() =~= placed@.take(i as int));
        let here = on_screen(workspaces, placed[i].name.as_str());
        join_all(
            &mut groups,
            &here,
            Ghost(screen_by_screen(workspaces@, placed@.take(i as int))),
        );
        i += 1;
    }
    assert(placed@.take(placed@.len() as int) =~= placed@);
    let strays = orphans(workspaces, &placed);
    join_all(&mut groups, &strays, Ghost(screen_by_screen(workspaces@, placed@)));
    groups
}

// ── Laws of the grouping ───────────────────────────────────────────────

/// The groups' screens differ, each holds exactly its screen's workspaces in
/// the order in which they came, and every workspace has a group.
pub open spec fn well_grouped(groups: Seq<GroupModel>, list: Seq<WorkspaceInfo>) -> bool {
    &&& forall|i: int, j: int|
        #![trigger groups[i], groups[j]]
        0 <= i < j < groups.len() ==> groups[i].output != groups[j].output
    &&& forall|i: int|
        0 <= i < groups.len() ==> {
            let g = #[trigger] groups[i];
            g.workspaces == list.filter(lives_on(g.output)) && g.workspaces.len() > 0
        }
    &&& forall|k: int|
        0 <= k < list.len() ==> group_at(groups, (#[trigger] list[k]).output@) < groups.len()
}

proof fn lemma_group_at_hits(groups: Seq<GroupModel>, output: Seq<char>)
    ensures
        0 <= group_at(groups, output) <= groups.len(),
        group_at(groups, output) < groups.len() ==> groups[group_at(groups, output)].output
            == output,
        forall|j: int|
            0 <= j < group_at(groups, output) ==> (#[trigger] groups[j]).output != output,
    decreases groups.len(),
{
    if groups.len() > 0 && groups[0].output != output {
        lemma_group_at_hits(groups.drop_first(), output);
        let rest = groups.drop_first();
        let at = group_at(rest, output);
        assert forall|j: int| 0 <= j < at + 1 implies (#[trigger] groups[j]).output != output by {
            if j > 0 {
                assert(rest[j - 1] == groups[j]);
            }
        }
    }
}

proof fn lemma_gathered(list: Seq<WorkspaceInfo>)
    ensures
        well_grouped(gathered(list), list),
    decreases list.len(),
{
    if list.len() > 0 {
        let before = list.drop_last();
        let w = list.last();
        lemma_gathered(before);
        let old_groups = gathered(before);
        let groups = gathered(list);
        let at = group_at(old_groups, w.output@);
        lemma_group_at_hits(old_groups, w.output@);
        reveal(Seq::filter);
        if at == old_groups.len() {
            // A screen without a group has no workspace yet.
            assert forall|k: int| 0 <= k < before.len() implies !#[trigger] lives_on(w.output@)(
                before[k],
            ) by {
                if before[k].output@ == w.output@ {
                    assert(group_at(old_groups, before[k].output@) < old_groups.len());
                }
            }
            crate::order::lemma_filter_none(before, lives_on(w.output@));
            assert(list.filter(lives_on(w.output@)) =~= seq![w]);
        }
        assert forall|i: int| 0 <= i < groups.len() implies {
            let g = #[trigger] groups[i];
            g.workspaces == list.filter(lives_on(g.output)) && g.workspaces.len() > 0
        } by {
            if i < old_groups.len() {
                assert(old_groups[i].output == groups[i].output);
                assert(old_groups[i].workspaces == before.filter(lives_on(old_groups[i].output)));
                if i != at {
                    assert(groups[i] == old_groups[i]);
                    if groups[i].output == w.output@ {
                        assert(at < old_groups.len());
                        assert(old_groups[at].output == old_groups[i].output);
                    }
                }
            }
        }
        assert forall|k: int| 0 <= k < list.len() implies group_at(
            groups,
            (#[trigger] list[k]).output@,
        ) < groups.len() by {
            let name = list[k].output@;
            lemma_group_at_hits(groups, name);
            if k < before.len() {
                assert(before[k] == list[k]);
                lemma_group_at_hits(old_groups, name);
                let p = group_at(old_groups, name);
                assert(groups[p].output == name);
            } else {
                assert(groups[at].output == name);
            }
        }
    }
}

/// Screens have different names.
pub open spec fn named_apart(outputs: Seq<OutputInfo>) -> bool {
    forall|i: int, j: int|
        #![trigger outputs[i], outputs[j]]
        0 <= i < j < outputs.len() ==> outputs[i].name@ != outputs[j].name@
}

proof fn lemma_placed_named_apart(outputs: Seq<OutputInfo>)
    requires
        named_apart(outputs),
    ensures
        named_apart(sorted(outputs)),
{
    let placed = sorted(outputs);
    crate::order::lemma_sorted_exists(outputs);
    assert(outputs.no_duplicates());
    crate::order::lemma_sorted_no_duplicates(placed, outputs);
    assert forall|i: int, j: int|
        #![trigger placed[i], placed[j]]
        0 <= i < j < placed.len() implies placed[i].name@ != placed[j].name@ by {
        crate::order::lemma_sorted_contains(placed, outputs, placed[i]);
        crate::order::lemma_sorted_contains(placed, outputs, placed[j]);
        let a = outputs.index_of(placed[i]);
        let b = outputs.index_of(placed[j]);
        assert(outputs[a] == placed[i] && outputs[b] == placed[j]);
        if a == b {
            assert(placed[i] == placed[j]);
        }
    }
}

/// Screen by screen, a screen's workspaces come once.
proof fn lemma_screens_filter(
    list: Seq<WorkspaceInfo>,
    placed: Seq<OutputInfo>,
    name: Seq<char>,
)
    requires
        named_apart(placed),
    ensures
        screen_by_screen(list, placed).filter(lives_on(name)) == if exists|i: int|
            0 <= i < placed.len() && (#[trigger] placed[i]).name@ == name {
            list.filter(lives_on(name))
        } else {
            Seq::empty()
        },
    decreases placed.len(),
{
    reveal(Seq::filter);
    if placed.len() > 0 {
        let rest = placed.drop_last();
        let last = placed.last();
        assert forall|i: int, j: int|
            #![trigger rest[i], rest[j]]
            0 <= i < j < rest.len() implies rest[i].name@ != rest[j].name@ by {
            assert(rest[i] == placed[i] && rest[j] == placed[j]);
        }
        lemma_screens_filter(list, rest, name);
        let head = screen_by_screen(list, rest);
        let tail = list.filter(lives_on(last.name@));
        Seq::filter_distributes_over_add(head, tail, lives_on(name));
        if last.name@ == name {
            crate::order::lemma_filter_within(list, lives_on(name), lives_on(name));
            assert(placed[placed.len() - 1].name@ == name);
            if exists|i: int| 0 <= i < rest.len() && (#[trigger] rest[i]).name@ == name {
                let i = choose|i: int| 0 <= i < rest.len() && (#[trigger] rest[i]).name@ == name;
                assert(placed[i].name@ != placed[placed.len() - 1].name@);
            }
            assert(Seq::<WorkspaceInfo>::empty() + list.filter(lives_on(name)) =~= list.filter(
                lives_on(name),
            ));
        } else {
            crate::order::lemma_filter_outside(list, lives_on(last.name@), lives_on(name));
            if exists|i: int| 0 <= i < placed.len() && (#[trigger] placed[i]).name@ == name {
                let i = choose|i: int| 0 <= i < placed.len() && (#[trigger] placed[i]).name@ == name;
                assert(rest[i].name@ == name);
            }
            if exists|i: int| 0 <= i < rest.len() && (#[trigger] rest[i]).name@ == name {
                let i = choose|i: int| 0 <= i < rest.len() && (#[trigger] rest[i]).name@ == name;
                assert(placed[i].name@ == name);
            }
            assert(head.filter(lives_on(name)) + Seq::<WorkspaceInfo>::empty() =~= head.filter(
                lives_on(name),
            ));
        }
    }
}

/// Keeping workspaces commutes with making them orphans and back.
proof fn lemma_orphans_filter(v: Seq<Orphan>, name: Seq<char>, x: Orphan)
    requires
        x.ws.output@ == name,
    ensures
        as_workspaces(v).filter(lives_on(name)) == as_workspaces(
            v.filter(crate::order::peers(x)),
        ),
    decreases v.len(),
{
    reveal(Seq::filter);
    if v.len() == 0 {
        assert(as_workspaces(v).filter(lives_on(name)) =~= Seq::empty());
        assert(as_workspaces(v.filter(crate::order::peers(x))) =~= Seq::empty());
    } else {
        let o = v.last();
        lemma_orphans_filter(v.drop_last(), name, x);
        assert(as_workspaces(v).drop_last() =~= as_workspaces(v.drop_last()));
        assert(as_workspaces(v).last() == o.ws);
        if crate::order::peers(x)(o) {
            crate::order::lemma_alphabetic_antisymmetric(o.ws.output@, name);
        }
        if o.ws.output@ == name {
            Orphan::total(&x, &x);
            assert(alphabetic(name, name));
            assert(crate::order::peers(x)(o));
            let kept = v.drop_last().filter(crate::order::peers(x));
            assert(as_workspaces(kept.push(o)) =~= as_workspaces(kept).push(o.ws));
        }
    }
}

/// Ranking orphans leaves each screen's workspaces as they were.
proof fn lemma_strays_filter(strays: Seq<WorkspaceInfo>, name: Seq<char>)
    ensures
        as_workspaces(sorted(as_orphans(strays))).filter(lives_on(name)) == strays.filter(
            lives_on(name),
        ),
{
    let all = as_orphans(strays);
    let ranked = sorted(all);
    crate::order::lemma_sorted_exists(all);
    assert(as_workspaces(all) =~= strays);
    if exists|k: int| 0 <= k < strays.len() && (#[trigger] strays[k]).output@ == name {
        let k = choose|k: int| 0 <= k < strays.len() && (#[trigger] strays[k]).output@ == name;
        let x = all[k];
        lemma_orphans_filter(ranked, name, x);
        lemma_orphans_filter(all, name, x);
        assert(ranked.filter(crate::order::peers(x)) == all.filter(crate::order::peers(x)));
    } else {
        crate::order::lemma_filter_none(strays, lives_on(name));
        let back = as_workspaces(ranked);
        assert forall|k: int| 0 <= k < back.len() implies !#[trigger] lives_on(name)(back[k]) by {
            assert(ranked.contains(ranked[k]));
            crate::order::lemma_sorted_contains(ranked, all, ranked[k]);
            let i = all.index_of(ranked[k]);
            assert(strays[i] == ranked[k].ws);
        }
        crate::order::lemma_filter_none(back, lives_on(name));
    }
}

/// Drawing order keeps each screen's workspaces in their own order, and
/// every workspace is drawn.
proof fn lemma_drawn_filter(list: Seq<WorkspaceInfo>, outputs: Seq<OutputInfo>, name: Seq<char>)
    requires
        named_apart(outputs),
    ensures
        drawn(list, outputs).filter(lives_on(name)) == list.filter(lives_on(name)),
{
    let placed = sorted(outputs);
    lemma_placed_named_apart(outputs);
    lemma_screens_filter(list, placed, name);
    let strays = list.filter(homeless(placed));
    lemma_strays_filter(strays, name);
    Seq::filter_distributes_over_add(
        screen_by_screen(list, placed),
        as_workspaces(sorted(as_orphans(strays))),
        lives_on(name),
    );
    if exists|i: int| 0 <= i < placed.len() && (#[trigger] placed[i]).name@ == name {
        let i = choose|i: int| 0 <= i < placed.len() && (#[trigger] placed[i]).name@ == name;
        assert forall|w: WorkspaceInfo| #[trigger] lives_on(name)(w) implies !homeless(placed)(w) by {
            assert(placed[i].name@ == w.output@);
        }
        crate::order::lemma_filter_outside(list, homeless(placed), lives_on(name));
        assert(list.filter(lives_on(name)) + Seq::<WorkspaceInfo>::empty() =~= list.filter(
            lives_on(name),
        ));
    } else {
        assert forall|w: WorkspaceInfo| #[trigger] lives_on(name)(w) implies homeless(placed)(w) by {}
        crate::order::lemma_filter_within(list, homeless(placed), lives_on(name));
        assert(Seq::<WorkspaceInfo>::empty() + list.filter(lives_on(name)) =~= list.filter(
            lives_on(name),
        ));
    }
}

/// Every screen that has workspaces has one pill, which holds all of its
/// workspaces in the order of the list; no workspace falls off the bar, on a
/// screen that sway reported or not.
pub proof fn law_every_workspace_has_its_pill(list: Seq<WorkspaceInfo>, outputs: Seq<OutputInfo>)
    requires
        outputs.len() > 0,
        named_apart(outputs),
    ensures
        well_grouped(strip(list, outputs), list),
{
    let d = drawn(list, outputs);
    let groups = strip(list, outputs);
    lemma_gathered(d);
    assert forall|i: int| 0 <= i < groups.len() implies {
        let g = #[trigger] groups[i];
        g.workspaces == list.filter(lives_on(g.output)) && g.workspaces.len() > 0
    } by {
        lemma_drawn_filter(list, outputs, groups[i].output);
    }
    assert forall|k: int| 0 <= k < list.len() implies group_at(
        groups,
        (#[trigger] list[k]).output@,
    ) < groups.len() by {
        let name = list[k].output@;
        lemma_drawn_filter(list, outputs, name);
        if forall|j: int| 0 <= j < d.len() ==> !#[trigger] lives_on(name)(d[j]) {
            crate::order::lemma_filter_none(d, lives_on(name));
            list.lemma_filter_contains(lives_on(name), k);
        } else {
            let j = choose|j: int| 0 <= j < d.len() && #[trigger] lives_on(name)(d[j]);
            assert(group_at(groups, d[j].output@) < groups.len());
        }
    }
}

// ── Segments ───────────────────────────────────────────────────────────

/// What a workspace is, stated globally: the same on every bar.
#[derive(Debug, Clone, Copy, PartialEq, Eq, Structural)]
pub enum WsState {
    /// A segment whose classes have never been written; see
    /// [`SegView::unwritten`]. Never produced by [`ws_state`].
    Unwritten,
    /// Not on screen anywhere.
    Idle,
    /// The selected segment of its screen's pill.
    Current,
    /// `Current`, on the screen holding input.
    Focused,
}

/// What a workspace is.
pub fn ws_state(ws: &WorkspaceInfo) -> (r: WsState)
    ensures
        r == if ws.focused {
            WsState::Focused
        } else if ws.visible {
            WsState::Current
        } else {
            WsState::Idle
        },
{
    if ws.focused {
        WsState::Focused
    } else if ws.visible {
        WsState::Current
    } else {
        WsState::Idle
    }
}

/// One workspace's piece of its task's ribbon.
#[derive(Debug, Clone, Copy, PartialEq, Eq, Structural)]
pub enum Ribbon {
    Off,
    Working,
    Waiting,
}

/// One task's ribbon, resolved down to the workspace holding the session.
#[derive(Debug, PartialEq, Eq)]
pub struct TaskRibbon {
    /// Any session working: the dim lane.
    pub working: bool,
    /// Workspace names holding a session that wants its owner.
    pub waiting_on: Vec<String>,
    /// Such a session sits on a workspace outside its own task strip. No
    /// segment can point at it, so the whole group keeps the hue.
    pub waiting_unplaced: bool,
}

/// Sessions that want their owner, on a workspace of task `task`.
pub open spec fn waits_in_task(task: u8) -> spec_fn(SessionState) -> bool {
    |s: SessionState| s.activity.wants() && task_named(s.workspace@) == Some(task)
}

/// The names of the workspaces of some sessions.
pub open spec fn workspaces_of(sessions: Seq<SessionState>) -> Seq<Seq<char>> {
    sessions.map_values(|s: SessionState| s.workspace@)
}

/// Whether a plan is that of task `task` with these sessions.
pub open spec fn is_plan(plan: TaskRibbon, sessions: Seq<SessionState>, task: u8) -> bool {
    &&& plan.working == exists|i: int|
        0 <= i < sessions.len() && (#[trigger] sessions[i]).activity == Activity::Working
    &&& texts(plan.waiting_on@) == workspaces_of(sessions.filter(waits_in_task(task)))
    &&& plan.waiting_unplaced == exists|i: int|
        0 <= i < sessions.len() && (#[trigger] sessions[i]).activity.wants() && task_named(
            sessions[i].workspace@,
        ) != Some(task)
}

fn ribbon_plan(state: &TaskState, task: u8) -> (r: TaskRibbon)
    ensures
        is_plan(r, state.sessions@, task),
{
    let sessions = &state.sessions;
    let mut working = false;
    let mut waiting_on: Vec<String> = Vec::new();
    let mut waiting_unplaced = false;
    let mut i: usize = 0;
    proof {
        reveal(Seq::filter);
        assert(texts(waiting_on@) =~= workspaces_of(
            sessions@.take(0).filter(waits_in_task(task)),
        ));
    }
    while i < sessions.len()
        invariant
            i <= sessions@.len(),
            working == exists|j: int|
                0 <= j < i && (#[trigger] sessions@[j]).activity == Activity::Working,
            texts(waiting_on@) == workspaces_of(
                sessions@.take(i as int).filter(waits_in_task(task)),
            ),
            waiting_unplaced == exists|j: int|
                0 <= j < i && (#[trigger] sessions@[j]).activity.wants() && task_named(
                    sessions@[j].workspace@,
                ) != Some(task),
        decreases sessions@.len() - i,
    {
        let s = &sessions[i];
        proof {
            reveal(Seq::filter);
            assert(sessions@.take(i + 1).drop_last() =~= sessions@.take(i as int));
            assert(sessions@.take(i + 1).last() == sessions@[i as int]);
        }
        let ghost kept = sessions@.take(i as int).filter(waits_in_task(task));
        if s.activity == Activity::Working {
            working = true;
        }
        if s.activity.wants_owner() {
            if task_of_name(s.workspace.as_str()) == Some(task) {
                let ghost before = texts(waiting_on@);
                waiting_on.push(s.workspace.clone());
                assert(texts(waiting_on@) =~= before.push(s.workspace@));
                assert(workspaces_of(kept.push(sessions@[i as int])) =~= workspaces_of(kept).push(
                    s.workspace@,
                ));
            } else {
                waiting_unplaced = true;
            }
        }
        i += 1;
    }
    assert(sessions@.take(sessions@.len() as int) =~= sessions@);
    TaskRibbon { working, waiting_on, waiting_unplaced }
}

/// The ribbon of each task. Stopped and stale sessions leave none: stale must
/// not impersonate a live state.
pub fn ribbon_plans(snap: &TaskSnapshot) -> (r: [TaskRibbon; 4])
    ensures
        forall|i: int|
            0 <= i < 4 ==> is_plan(#[trigger] r@[i], snap.tasks@[i].sessions@, (i + 1) as u8),
{
    let first = ribbon_plan(&snap.tasks[0], 1);
    let second = ribbon_plan(&snap.tasks[1], 2);
    let third = ribbon_plan(&snap.tasks[2], 3);
    let fourth = ribbon_plan(&snap.tasks[3], 4);
    [first, second, third, fourth]
}

/// The piece of a ribbon that a workspace draws: the task's hue where the
/// session that waits sits, the dim lane across its siblings.
pub open spec fn piece(plan: TaskRibbon, workspace: Seq<char>) -> Ribbon {
    if plan.waiting_unplaced || texts(plan.waiting_on@).contains(workspace) {
        Ribbon::Waiting
    } else if plan.working || plan.waiting_on@.len() > 0 {
        Ribbon::Working
    } else {
        Ribbon::Off
    }
}

/// The ribbon one workspace draws.
pub fn ribbon_for(plan: &TaskRibbon, workspace: &str) -> (r: Ribbon)
    ensures
        r == piece(*plan, workspace@),
{
    if plan.waiting_unplaced {
        return Ribbon::Waiting;
    }
    let mut i: usize = 0;
    while i < plan.waiting_on.len()
        invariant
            i <= plan.waiting_on@.len(),
            forall|j: int| 0 <= j < i ==> (#[trigger] plan.waiting_on@[j])@ != workspace@,
        decreases plan.waiting_on@.len() - i,
    {
        if same(plan.waiting_on[i].as_str(), workspace) {
            assert(texts(plan.waiting_on@)[i as int] == workspace@);
            return Ribbon::Waiting;
        }
        i += 1;
    }
    assert forall|j: int| 0 <= j < texts(plan.waiting_on@).len() implies texts(
        plan.waiting_on@,
    )[j] != workspace@ by {
        assert(plan.waiting_on@[j]@ != workspace@);
    }
    if plan.working || plan.waiting_on.len() > 0 {
        Ribbon::Working
    } else {
        Ribbon::Off
    }
}

/// A task's ribbon is lit by its own sessions alone: without one that works
/// or wants its owner, none of its segments draws anything.
pub proof fn law_quiet_task_draws_no_ribbon(
    plan: TaskRibbon,
    sessions: Seq<SessionState>,
    task: u8,
    workspace: Seq<char>,
)
    requires
        is_plan(plan, sessions, task),
        forall|i: int|
            0 <= i < sessions.len() ==> (#[trigger] sessions[i]).activity == Activity::Stopped
                || sessions[i].activity == Activity::Stale,
    ensures
        piece(plan, workspace) == Ribbon::Off,
{
    crate::order::lemma_filter_none(sessions, waits_in_task(task));
    assert(texts(plan.waiting_on@) =~= Seq::empty());
    assert(plan.waiting_on@.len() == texts(plan.waiting_on@).len());
}

/// The workspace that holds a session that wants its owner is lit.
pub proof fn law_wait_lights_its_workspace(
    plan: TaskRibbon,
    sessions: Seq<SessionState>,
    task: u8,
    i: int,
)
    requires
        is_plan(plan, sessions, task),
        0 <= i < sessions.len(),
        sessions[i].activity.wants(),
    ensures
        piece(plan, sessions[i].workspace@) == Ribbon::Waiting,
{
    if task_named(sessions[i].workspace@) == Some(task) {
        sessions.lemma_filter_contains(waits_in_task(task), i);
        let kept = sessions.filter(waits_in_task(task));
        let k = kept.index_of(sessions[i]);
        assert(workspaces_of(kept)[k] == sessions[i].workspace@);
    }
}

/// Task strip membership: the task, one to four, and the label, `1¹` to `4⁴`.
pub open spec fn strip_label(num: i32) -> Option<(int, Seq<char>)> {
    if 1 <= num <= 16 {
        let task = (num - 1) / 4 + 1;
        Some((task, crate::text::decimal(task as nat) + superscript((num - 1) % 4)))
    } else {
        None
    }
}

/// The superscript for a screen of a task, counted from zero.
pub open spec fn superscript(screen: int) -> Seq<char> {
    if screen == 0 {
        "¹"@
    } else if screen == 1 {
        "²"@
    } else if screen == 2 {
        "³"@
    } else {
        "⁴"@
    }
}

/// Task strip membership: `Some((task 1–4, "1¹".."4⁴"))` for nums 1–16.
pub fn task_label(num: i32) -> (r: Option<(usize, String)>)
    ensures
        match (r, strip_label(num)) {
            (None, None) => true,
            (Some((task, text)), Some((t, label))) => task == t && text@ == label && 1 <= task <= 4,
            _ => false,
        },
{
    if num < 1 || num > 16 {
        return None;
    }
    let task: usize = (num - 1) as usize / 4 + 1;
    let screen: usize = (num - 1) as usize % 4;
    let mut text = String::new();
    push_decimal(&mut text, task as u64);
    let mark = if screen == 0 {
        "¹"
    } else if screen == 1 {
        "²"
    } else if screen == 2 {
        "³"
    } else {
        "⁴"
    };
    let label = concat2(text.as_str(), mark);
    assert(text@ =~= crate::text::decimal(task as nat));
    Some((task, label))
}

/// The label of a workspace outside the task strip: its own, where it has
/// one, or its name.
pub open spec fn label_of(num: i32, name: Seq<char>) -> Seq<char> {
    if num == 17 {
        "󰖟 b"@
    } else if num == 18 {
        "󰊤 g"@
    } else if num == 19 {
        "h"@
    } else if num == 20 {
        "i"@
    } else if num == 21 {
        "j"@
    } else if num == 22 {
        "k"@
    } else if num == 23 {
        "󰍡 m"@
    } else if num == 24 {
        "n"@
    } else if num == 25 {
        "📧 o"@
    } else if num == 26 {
        "󰓇 p"@
    } else if num == 27 {
        "󰓓 t"@
    } else if num == 28 {
        "󰑴 u"@
    } else if num == 29 {
        "󰗃 y"@
    } else {
        name
    }
}

/// Label for non-task workspaces.
pub fn generic_label(num: i32, name: &str) -> (r: &str)
    ensures
        r@ == label_of(num, name@),
{
    match num {
        17 => "󰖟 b",
        18 => "󰊤 g",
        19 => "h",
        20 => "i",
        21 => "j",
        22 => "k",
        23 => "󰍡 m",
        24 => "n",
        25 => "📧 o",
        26 => "󰓇 p",
        27 => "󰓓 t",
        28 => "󰑴 u",
        29 => "󰗃 y",
        _ => name,
    }
}

/// `name` with its backslashes and double quotes escaped by a backslash.
pub open spec fn escaped(name: Seq<char>) -> Seq<char>
    decreases name.len(),
{
    if name.len() == 0 {
        Seq::empty()
    } else {
        let c = name.last();
        let before = escaped(name.drop_last());
        if c == '\\' || c == '"' {
            before.push('\\').push(c)
        } else {
            before.push(c)
        }
    }
}

/// The sway command that switches to a workspace: by number where it has
/// one, by quoted name otherwise.
pub open spec fn switching(num: i32, name: Seq<char>) -> Seq<char> {
    if num >= 0 {
        "workspace number "@ + decimal_signed(num as int)
    } else {
        "workspace \""@ + escaped(name) + "\""@
    }
}

/// Numbered workspaces switch by number, so "5:t2a" and a bare "5" resolve to
/// the same target; named-only ones by quoted name.
pub fn switch_command(num: i32, name: &str) -> (r: String)
    ensures
        r@ == switching(num, name@),
{
    if num >= 0 {
        let n = decimal_signed_of(num as i64);
        return concat2("workspace number ", n.as_str());
    }
    let v = chars_of(name);
    let mut e = String::new();
    let mut i: usize = 0;
    assert(e@ =~= escaped(v@.take(0)));
    while i < v.len()
        invariant
            i <= v@.len(),
            e@ == escaped(v@.take(i as int)),
        decreases v@.len() - i,
    {
        assert(v@.take(i + 1).drop_last() =~= v@.take(i as int));
        if v[i] == '\\' || v[i] == '"' {
            e.push('\\');
        }
        e.push(v[i]);
        i += 1;
    }
    assert(v@.take(v@.len() as int) =~= v@);
    concat3("workspace \"", e.as_str(), "\"")
}

/// Everything visible about a segment, in one comparable value.
#[derive(Debug, Clone, Copy, PartialEq, Eq, Structural)]
pub struct SegView {
    pub state: WsState,
    pub urgent: bool,
    pub ribbon: Ribbon,
}

impl SegView {
    /// What a freshly raised segment claims to be. No real state equals it,
    /// so the first write after a rebuild always happens.
    pub fn unwritten() -> (r: SegView)
        ensures
            r == (SegView { state: WsState::Unwritten, urgent: false, ribbon: Ribbon::Off }),
    {
        SegView { state: WsState::Unwritten, urgent: false, ribbon: Ribbon::Off }
    }
}

/// What a workspace's segment shows; `task` is its place in the task strip.
pub fn seg_view(ws: &WorkspaceInfo, task: Option<usize>, plans: &[TaskRibbon; 4]) -> (r: SegView)
    requires
        task is Some ==> 1 <= task->0 <= 4,
    ensures
        r.state != WsState::Unwritten,
        r.state == (if ws.focused {
            WsState::Focused
        } else if ws.visible {
            WsState::Current
        } else {
            WsState::Idle
        }),
        r.urgent == ws.urgent,
        r.ribbon == match task {
            Some(t) => piece(plans@[t - 1], ws.name@),
            None => Ribbon::Off,
        },
{
    let ribbon = match task {
        Some(t) => ribbon_for(&plans[t - 1], ws.name.as_str()),
        None => Ribbon::Off,
    };
    SegView { state: ws_state(ws), urgent: ws.urgent, ribbon }
}

/// The classes of a segment, of those that change.
pub open spec fn classes(task: Option<usize>, view: SegView) -> Seq<Seq<char>> {
    let state = match view.state {
        WsState::Unwritten | WsState::Idle => Seq::<Seq<char>>::empty(),
        WsState::Current => seq!["current"@],
        WsState::Focused => seq!["current"@, "focused"@],
    };
    let urgent = if view.urgent {
        seq!["urgent"@]
    } else {
        Seq::empty()
    };
    let ribbon = match (task, view.ribbon) {
        (Some(_), Ribbon::Working) => seq!["ribbon-working"@],
        (Some(t), Ribbon::Waiting) => seq![
            "ribbon-waiting"@,
            "task"@ + crate::text::decimal(t as nat),
        ],
        _ => Seq::empty(),
    };
    state + urgent + ribbon
}

/// The classes a segment wears, of those that change.
pub fn segment_classes(task: Option<usize>, view: SegView) -> (r: Vec<String>)
    ensures
        texts(r@) == classes(task, view),
{
    let mut out: Vec<String> = Vec::new();
    assert(texts(out@) =~= Seq::empty());
    match view.state {
        WsState::Unwritten => {},
        WsState::Idle => {},
        WsState::Current => push_text(&mut out, "current".to_owned()),
        WsState::Focused => {
            push_text(&mut out, "current".to_owned());
            push_text(&mut out, "focused".to_owned());
        },
    }
    if view.urgent {
        push_text(&mut out, "urgent".to_owned());
    }
    if let Some(t) = task {
        match view.ribbon {
            Ribbon::Off => {},
            Ribbon::Working => push_text(&mut out, "ribbon-working".to_owned()),
            Ribbon::Waiting => {
                push_text(&mut out, "ribbon-waiting".to_owned());
                let mut class = "task".to_owned();
                push_decimal(&mut class, t as u64);
                push_text(&mut out, class);
            },
        }
    }
    assert(texts(out@) =~= classes(task, view));
    out
}

/// Whether built pills, each the names of its segments, are those of the
/// groups.
pub open spec fn same_shape(built: Seq<Vec<String>>, groups: Seq<Group>) -> bool {
    &&& built.len() == groups.len()
    &&& forall|i: int|
        0 <= i < built.len() ==> texts((#[trigger] built[i])@) == groups[i].workspaces@.map_values(
            |w: WorkspaceInfo| w.name@,
        )
}

/// True when the built widgets already match the groups' shape: same screens
/// in the same order, each holding the same workspaces.
pub fn matches_layout(built: &Vec<Vec<String>>, groups: &Vec<Group>) -> (r: bool)
    ensures
        r == same_shape(built@, groups@),
{
    if built.len() != groups.len() {
        return false;
    }
    let mut i: usize = 0;
    while i < built.len()
        invariant
            i <= built@.len(),
            built@.len() == groups@.len(),
            forall|k: int|
                0 <= k < i ==> texts((#[trigger] built@[k])@)
                    == groups@[k].workspaces@.map_values(|w: WorkspaceInfo| w.name@),
        decreases built@.len() - i,
    {
        let pill = &built[i];
        let group = &groups[i];
        let ghost want = group.workspaces@.map_values(|w: WorkspaceInfo| w.name@);
        if pill.len() != group.workspaces.len() {
            assert(texts(pill@).len() != want.len());
            return false;
        }
        let mut j: usize = 0;
        while j < pill.len()
            invariant
                j <= pill@.len(),
                pill@.len() == group.workspaces@.len(),
                want == group.workspaces@.map_values(|w: WorkspaceInfo| w.name@),
                *pill == built@[i as int],
                *group == groups@[i as int],
                i < built@.len(),
                built@.len() == groups@.len(),
                forall|k: int| 0 <= k < j ==> (#[trigger] pill@[k])@ == group.workspaces@[k].name@,
            decreases pill@.len() - j,
        {
            if !same(pill[j].as_str(), group.workspaces[j].name.as_str()) {
                assert(texts(pill@)[j as int] != want[j as int]);
                assert(texts(built@[i as int]@) != want);
                return false;
            }
            j += 1;
        }
        assert(texts(pill@) =~= want);
        i += 1;
    }
    true
}

/// A screen's pill is undimmed exactly while one of its workspaces has input
/// focus.
proof fn lemma_gathered_active(list: Seq<WorkspaceInfo>)
    ensures
        forall|i: int|
            0 <= i < gathered(list).len() ==> ((#[trigger] gathered(list)[i]).active <==> exists|
                j: int,
            |
                0 <= j < gathered(list)[i].workspaces.len() && (
                #[trigger] gathered(list)[i].workspaces[j]).focused),
    decreases list.len(),
{
    if list.len() > 0 {
        let before = gathered(list.drop_last());
        let w = list.last();
        let groups = gathered(list);
        let at = group_at(before, w.output@);
        lemma_gathered_active(list.drop_last());
        lemma_group_at_hits(before, w.output@);
        assert forall|i: int| 0 <= i < groups.len() implies ((#[trigger] groups[i]).active
            <==> exists|j: int|
            0 <= j < groups[i].workspaces.len() && (#[trigger] groups[i].workspaces[j]).focused) by {
            if i != at {
                assert(groups[i] == before[i]);
            } else {
                let own = groups[i].workspaces;
                assert(own[own.len() - 1] == w);
                if i < before.len() {
                    let had = before[i].workspaces;
                    assert(own =~= had.push(w));
                    if before[i].active {
                        let j = choose|j: int| 0 <= j < had.len() && (#[trigger] had[j]).focused;
                        assert(own[j] == had[j]);
                    }
                    if exists|j: int| 0 <= j < own.len() && (#[trigger] own[j]).focused {
                        let j = choose|j: int| 0 <= j < own.len() && (#[trigger] own[j]).focused;
                        if j < had.len() {
                            assert(had[j] == own[j]);
                        }
                    }
                }
            }
        }
    }
}

/// Where screens are known, exactly the pills that hold a workspace with input
/// focus are undimmed; where none is, there is one pill, undimmed, with
/// everything in it.
pub proof fn law_the_screen_with_input_stays_undimmed(
    list: Seq<WorkspaceInfo>,
    outputs: Seq<OutputInfo>,
)
    ensures
        outputs.len() > 0 ==> forall|i: int|
            0 <= i < strip(list, outputs).len() ==> ((#[trigger] strip(list, outputs)[i]).active
                <==> exists|j: int|
                0 <= j < strip(list, outputs)[i].workspaces.len() && (
                #[trigger] strip(list, outputs)[i].workspaces[j]).focused),
        outputs.len() == 0 ==> {
            &&& strip(list, outputs).len() == 1
            &&& strip(list, outputs)[0].active
            &&& strip(list, outputs)[0].workspaces == list
            &&& strip(list, outputs)[0].output == Seq::<char>::empty()
        },
{
    lemma_gathered_active(drawn(list, outputs));
}

/// Each screen has one pill, with exactly the workspaces that are on it, in the
/// order of the list, and no workspace is without one.
pub proof fn law_a_pill_holds_its_screen(
    list: Seq<WorkspaceInfo>,
    outputs: Seq<OutputInfo>,
    k: int,
)
    requires
        outputs.len() > 0,
        forall|i: int, j: int|
            #![trigger outputs[i], outputs[j]]
            0 <= i < j < outputs.len() ==> outputs[i].name@ != outputs[j].name@,
    ensures
        forall|i: int|
            0 <= i < strip(list, outputs).len() ==> (#[trigger] strip(list, outputs)[i]).workspaces
                == list.filter(|w: WorkspaceInfo| w.output@ == strip(list, outputs)[i].output),
        forall|i: int, j: int|
            #![trigger strip(list, outputs)[i], strip(list, outputs)[j]]
            0 <= i < j < strip(list, outputs).len() ==> strip(list, outputs)[i].output != strip(
                list,
                outputs,
            )[j].output,
        0 <= k < list.len() ==> exists|i: int|
            0 <= i < strip(list, outputs).len() && (#[trigger] strip(list, outputs)[i]).output
                == list[k].output@,
{
    law_every_workspace_has_its_pill(list, outputs);
    let groups = strip(list, outputs);
    assert forall|i: int| 0 <= i < groups.len() implies (#[trigger] groups[i]).workspaces
        == list.filter(|w: WorkspaceInfo| w.output@ == groups[i].output) by {
        assert(lives_on(groups[i].output) =~= (|w: WorkspaceInfo| w.output@ == groups[i].output));
    }
    if 0 <= k < list.len() {
        lemma_group_at_hits(groups, list[k].output@);
        assert(groups[group_at(groups, list[k].output@)].output == list[k].output@);
    }
}

/// The order in which two screens come: as they are placed, those that sway did
/// not report behind the others and by name.
spec fn comes_first(placed: Seq<OutputInfo>, u: Seq<char>, v: Seq<char>) -> bool {
    ||| exists|a: int, b: int|
        {
            &&& 0 <= a <= b < placed.len()
            &&& (#[trigger] placed[a]).name@ == u
            &&& (#[trigger] placed[b]).name@ == v
        }
    ||| {
        &&& exists|a: int| 0 <= a < placed.len() && (#[trigger] placed[a]).name@ == u
        &&& forall|b: int| 0 <= b < placed.len() ==> (#[trigger] placed[b]).name@ != v
    }
    ||| {
        &&& forall|b: int| 0 <= b < placed.len() ==> (#[trigger] placed[b]).name@ != u
        &&& forall|b: int| 0 <= b < placed.len() ==> (#[trigger] placed[b]).name@ != v
        &&& alphabetic(u, v)
    }
}

proof fn lemma_screen_of(list: Seq<WorkspaceInfo>, placed: Seq<OutputInfo>, p: int)
    requires
        0 <= p < screen_by_screen(list, placed).len(),
    ensures
        exists|a: int|
            0 <= a < placed.len() && (#[trigger] placed[a]).name@ == screen_by_screen(
                list,
                placed,
            )[p].output@,
    decreases placed.len(),
{
    let rest = placed.drop_last();
    let head = screen_by_screen(list, rest);
    let own = list.filter(lives_on(placed.last().name@));
    if p < head.len() {
        lemma_screen_of(list, rest, p);
        let a = choose|a: int| 0 <= a < rest.len() && (#[trigger] rest[a]).name@ == head[p].output@;
        assert(placed[a] == rest[a]);
    } else {
        list.lemma_filter_pred(lives_on(placed.last().name@), p - head.len());
        assert(placed[placed.len() - 1].name@ == own[p - head.len()].output@);
    }
}

proof fn lemma_screens_in_order(list: Seq<WorkspaceInfo>, placed: Seq<OutputInfo>, p: int, q: int)
    requires
        0 <= p < q < screen_by_screen(list, placed).len(),
    ensures
        exists|a: int, b: int|
            {
                &&& 0 <= a <= b < placed.len()
                &&& (#[trigger] placed[a]).name@ == screen_by_screen(list, placed)[p].output@
                &&& (#[trigger] placed[b]).name@ == screen_by_screen(list, placed)[q].output@
            },
    decreases placed.len(),
{
    let rest = placed.drop_last();
    let head = screen_by_screen(list, rest);
    let all = screen_by_screen(list, placed);
    let last = placed.len() - 1;
    if q < head.len() {
        lemma_screens_in_order(list, rest, p, q);
        let (a, b) = choose|a: int, b: int|
            {
                &&& 0 <= a <= b < rest.len()
                &&& (#[trigger] rest[a]).name@ == head[p].output@
                &&& (#[trigger] rest[b]).name@ == head[q].output@
            };
        assert(placed[a] == rest[a] && placed[b] == rest[b]);
    } else {
        list.lemma_filter_pred(lives_on(placed.last().name@), q - head.len());
        assert(placed[last].name@ == all[q].output@);
        if p < head.len() {
            lemma_screen_of(list, rest, p);
            let a = choose|a: int|
                0 <= a < rest.len() && (#[trigger] rest[a]).name@ == head[p].output@;
            assert(placed[a].name@ == all[p].output@);
        } else {
            list.lemma_filter_pred(lives_on(placed.last().name@), p - head.len());
            assert(placed[last].name@ == all[p].output@);
        }
    }
}

proof fn lemma_stray(list: Seq<WorkspaceInfo>, placed: Seq<OutputInfo>, k: int)
    requires
        0 <= k < sorted(as_orphans(list.filter(homeless(placed)))).len(),
    ensures
        forall|b: int|
            0 <= b < placed.len() ==> (#[trigger] placed[b]).name@ != sorted(
                as_orphans(list.filter(homeless(placed))),
            )[k].ws.output@,
{
    let strays = list.filter(homeless(placed));
    let all = as_orphans(strays);
    let ranked = sorted(all);
    crate::order::lemma_sorted_exists(all);
    assert(ranked.contains(ranked[k]));
    crate::order::lemma_sorted_contains(ranked, all, ranked[k]);
    let i = all.index_of(ranked[k]);
    assert(strays[i] == ranked[k].ws);
    list.lemma_filter_pred(homeless(placed), i);
}

proof fn lemma_drawn_in_order(list: Seq<WorkspaceInfo>, outputs: Seq<OutputInfo>, p: int, q: int)
    requires
        0 <= p < q < drawn(list, outputs).len(),
    ensures
        comes_first(
            sorted(outputs),
            drawn(list, outputs)[p].output@,
            drawn(list, outputs)[q].output@,
        ),
{
    let placed = sorted(outputs);
    let head = screen_by_screen(list, placed);
    let all = as_orphans(list.filter(homeless(placed)));
    let ranked = sorted(all);
    let d = drawn(list, outputs);
    if q < head.len() {
        lemma_screens_in_order(list, placed, p, q);
        assert(d[p] == head[p] && d[q] == head[q]);
    } else {
        lemma_stray(list, placed, q - head.len());
        assert(d[q] == ranked[q - head.len()].ws);
        if p < head.len() {
            lemma_screen_of(list, placed, p);
            assert(d[p] == head[p]);
        } else {
            lemma_stray(list, placed, p - head.len());
            crate::order::lemma_sorted_exists(all);
            assert(d[p] == ranked[p - head.len()].ws);
            assert(ranked[p - head.len()].leq(&ranked[q - head.len()]));
        }
    }
}

/// An earlier group holds a workspace that came before all of a later one.
proof fn lemma_gathered_in_order(list: Seq<WorkspaceInfo>, i: int, j: int)
    requires
        0 <= i < j < gathered(list).len(),
    ensures
        exists|p: int, q: int|
            {
                &&& 0 <= p < q < list.len()
                &&& (#[trigger] list[p]).output@ == gathered(list)[i].output
                &&& (#[trigger] list[q]).output@ == gathered(list)[j].output
            },
    decreases list.len(),
{
    let head = list.drop_last();
    let before = gathered(head);
    let groups = gathered(list);
    let w = list.last();
    let at = group_at(before, w.output@);
    lemma_group_at_hits(before, w.output@);
    if j < before.len() {
        lemma_gathered_in_order(head, i, j);
        assert(groups[i].output == before[i].output && groups[j].output == before[j].output);
        let (p, q) = choose|p: int, q: int|
            {
                &&& 0 <= p < q < head.len()
                &&& (#[trigger] head[p]).output@ == before[i].output
                &&& (#[trigger] head[q]).output@ == before[j].output
            };
        assert(list[p] == head[p] && list[q] == head[q]);
    } else {
        assert(groups[j].output == w.output@);
        assert(groups[i] == before[i]);
        lemma_gathered(head);
        let own = before[i].workspaces;
        head.lemma_filter_contains_rev(lives_on(before[i].output), own[0]);
        head.lemma_filter_pred(lives_on(before[i].output), 0);
        let p = head.index_of(own[0]);
        assert(list[p] == head[p]);
        assert(list[p].output@ == groups[i].output);
        assert(list[list.len() - 1] == w);
    }
}

/// The pills stand as the screens do: left to right, then top to bottom, then
/// by name. Screens that sway did not report come behind the others, by name.
pub proof fn law_pills_stand_as_the_screens_do(
    list: Seq<WorkspaceInfo>,
    outputs: Seq<OutputInfo>,
    i: int,
    j: int,
)
    requires
        outputs.len() > 0,
        named_apart(outputs),
        0 <= i < j < strip(list, outputs).len(),
    ensures
        forall|a: int, b: int|
            {
                &&& 0 <= a < outputs.len()
                &&& 0 <= b < outputs.len()
                &&& (#[trigger] outputs[a]).name@ == strip(list, outputs)[i].output
                &&& (#[trigger] outputs[b]).name@ == strip(list, outputs)[j].output
            } ==> {
                ||| outputs[a].x < outputs[b].x
                ||| outputs[a].x == outputs[b].x && outputs[a].y < outputs[b].y
                ||| outputs[a].x == outputs[b].x && outputs[a].y == outputs[b].y && alphabetic(
                    outputs[a].name@,
                    outputs[b].name@,
                )
            },
        (exists|b: int|
            0 <= b < outputs.len() && (#[trigger] outputs[b]).name@ == strip(list, outputs)[j].output)
            ==> exists|a: int|
            0 <= a < outputs.len() && (#[trigger] outputs[a]).name@ == strip(list, outputs)[i].output,
        (forall|a: int|
            0 <= a < outputs.len() ==> (#[trigger] outputs[a]).name@ != strip(
                list,
                outputs,
            )[i].output) ==> alphabetic(strip(list, outputs)[i].output, strip(list, outputs)[j].output),
{
    let d = drawn(list, outputs);
    let placed = sorted(outputs);
    let groups = strip(list, outputs);
    let u = groups[i].output;
    let v = groups[j].output;
    crate::order::lemma_sorted_exists(outputs);
    lemma_placed_named_apart(outputs);
    lemma_gathered_in_order(d, i, j);
    let (p, q) = choose|p: int, q: int|
        {
            &&& 0 <= p < q < d.len()
            &&& (#[trigger] d[p]).output@ == u
            &&& (#[trigger] d[q]).output@ == v
        };
    lemma_drawn_in_order(list, outputs, p, q);
    assert forall|a: int| 0 <= a < outputs.len() implies placed.contains(#[trigger] outputs[a]) by {
        assert(outputs.contains(outputs[a]));
        crate::order::lemma_sorted_contains(placed, outputs, outputs[a]);
    }
    assert forall|a: int| 0 <= a < placed.len() implies outputs.contains(#[trigger] placed[a]) by {
        assert(placed.contains(placed[a]));
        crate::order::lemma_sorted_contains(placed, outputs, placed[a]);
    }
    assert forall|a: int, b: int|
        {
            &&& 0 <= a < outputs.len()
            &&& 0 <= b < outputs.len()
            &&& (#[trigger] outputs[a]).name@ == u
            &&& (#[trigger] outputs[b]).name@ == v
        } implies outputs[a].leq(&outputs[b]) by {
        let x = placed.index_of(outputs[a]);
        let y = placed.index_of(outputs[b]);
        assert(placed[x] == outputs[a] && placed[y] == outputs[b]);
        let (c, e) = choose|c: int, e: int|
            {
                &&& 0 <= c <= e < placed.len()
                &&& (#[trigger] placed[c]).name@ == u
                &&& (#[trigger] placed[e]).name@ == v
            };
        assert(c == x && e == y);
        if x == y {
            OutputInfo::total(&outputs[a], &outputs[b]);
        }
    }
    if exists|b: int| 0 <= b < outputs.len() && (#[trigger] outputs[b]).name@ == v {
        let b = choose|b: int| 0 <= b < outputs.len() && (#[trigger] outputs[b]).name@ == v;
        let y = placed.index_of(outputs[b]);
        assert(placed[y].name@ == v);
        let c = choose|c: int| 0 <= c < placed.len() && (#[trigger] placed[c]).name@ == u;
        let a = outputs.index_of(placed[c]);
        assert(outputs[a].name@ == u);
    }
    if forall|a: int| 0 <= a < outputs.len() ==> (#[trigger] outputs[a]).name@ != u {
        assert forall|c: int| 0 <= c < placed.len() implies (#[trigger] placed[c]).name@ != u by {
            let a = outputs.index_of(placed[c]);
            assert(outputs[a] == placed[c]);
        }
    }
}

/// Sorted workspaces: the numbered ones by number, then the named ones by name.
pub proof fn law_numbers_come_before_names(list: Seq<WorkspaceInfo>, i: int, j: int)
    requires
        0 <= i < j < sorted(list).len(),
    ensures
        ({
            let (a, b) = (sorted(list)[i], sorted(list)[j]);
            &&& a.num < 0 ==> b.num < 0
            &&& a.num >= 0 && b.num >= 0 ==> a.num <= b.num
            &&& a.num == b.num ==> alphabetic(a.name@, b.name@)
        }),
        sorted(list).to_multiset() == list.to_multiset(),
{
    crate::order::lemma_sorted_exists(list);
    assert(sorted(list)[i].leq(&sorted(list)[j]));
}

/// What a task's ribbon says on a workspace. It is lit where a session of the
/// task sits that wants its owner, and everywhere while such a session sits
/// outside the task's own workspaces; it is dim elsewhere while any session of
/// the task works or wants its owner, and off otherwise.
pub proof fn law_what_a_ribbon_says(
    plan: TaskRibbon,
    sessions: Seq<SessionState>,
    task: u8,
    workspace: Seq<char>,
)
    requires
        is_plan(plan, sessions, task),
    ensures
        piece(plan, workspace) == Ribbon::Waiting <==> exists|i: int|
            {
                &&& 0 <= i < sessions.len()
                &&& (#[trigger] sessions[i]).activity == Activity::Waiting || sessions[i].activity
                    == Activity::Blocked
                &&& sessions[i].workspace@ == workspace || task_named(sessions[i].workspace@)
                    != Some(task)
            },
        piece(plan, workspace) == Ribbon::Off <==> forall|i: int|
            0 <= i < sessions.len() ==> (#[trigger] sessions[i]).activity == Activity::Stopped
                || sessions[i].activity == Activity::Stale,
{
    let kept = sessions.filter(waits_in_task(task));
    assert(plan.waiting_on@.len() == texts(plan.waiting_on@).len());
    assert forall|k: int| 0 <= k < kept.len() implies sessions.contains(#[trigger] kept[k])
        && waits_in_task(task)(kept[k]) by {
        sessions.lemma_filter_pred(waits_in_task(task), k);
        assert(kept.contains(kept[k]));
        sessions.lemma_filter_contains_rev(waits_in_task(task), kept[k]);
    }
    if texts(plan.waiting_on@).contains(workspace) {
        let k = choose|k: int|
            0 <= k < workspaces_of(kept).len() && workspaces_of(kept)[k] == workspace;
        assert(sessions.contains(kept[k]));
        let i = sessions.index_of(kept[k]);
        assert(sessions[i].workspace@ == workspace);
    }
    assert forall|i: int|
        0 <= i < sessions.len() && (#[trigger] sessions[i]).activity.wants() && task_named(
            sessions[i].workspace@,
        ) == Some(task) implies texts(plan.waiting_on@).contains(sessions[i].workspace@) by {
        sessions.lemma_filter_contains(waits_in_task(task), i);
        let k = kept.index_of(sessions[i]);
        assert(workspaces_of(kept)[k] == sessions[i].workspace@);
    }
    if plan.waiting_on@.len() > 0 {
        assert(kept.len() == workspaces_of(kept).len());
        assert(sessions.contains(kept[0]));
        let i = sessions.index_of(kept[0]);
        assert(sessions[i].activity.wants());
    }
    if piece(plan, workspace) == Ribbon::Off {
        assert forall|i: int| 0 <= i < sessions.len() implies (#[trigger] sessions[i]).activity
            == Activity::Stopped || sessions[i].activity == Activity::Stale by {
            if sessions[i].activity.wants() {
                if task_named(sessions[i].workspace@) == Some(task) {
                    assert(texts(plan.waiting_on@).contains(sessions[i].workspace@));
                }
            }
        }
    } else if forall|i: int|
        0 <= i < sessions.len() ==> (#[trigger] sessions[i]).activity == Activity::Stopped
            || sessions[i].activity == Activity::Stale {
        law_quiet_task_draws_no_ribbon(plan, sessions, task, workspace);
    }
}

/// The task strip: four workspaces for each of the four tasks, each labelled
/// with its task and its screen.
pub proof fn law_sixteen_workspaces_make_the_strip(num: i32, task: nat, screen: nat)
    ensures
        1 <= task <= 4 && 1 <= screen <= 4 && num == 4 * (task - 1) + screen ==> strip_label(num)
            == Some(
            (task as int, crate::text::decimal(task) + seq!["¹"@, "²"@, "³"@, "⁴"@][screen - 1]),
        ),
        num < 1 || num > 16 ==> strip_label(num) is None,
{
    if 1 <= task <= 4 && 1 <= screen <= 4 && num == 4 * (task - 1) + screen {
        assert((num - 1) / 4 == task - 1);
        assert((num - 1) % 4 == screen - 1);
    }
}

/// Thirteen workspaces have labels of their own; every other goes by its name.
pub proof fn law_labels_come_from_the_table(num: i32, name: Seq<char>)
    ensures
        17 <= num <= 29 ==> label_of(num, name) == seq![
            "󰖟 b"@,
            "󰊤 g"@,
            "h"@,
            "i"@,
            "j"@,
            "k"@,
            "󰍡 m"@,
            "n"@,
            "📧 o"@,
            "󰓇 p"@,
            "󰓓 t"@,
            "󰑴 u"@,
            "󰗃 y"@,
        ][num - 17],
        num < 17 || num > 29 ==> label_of(num, name) == name,
{
}

/// Escaping goes character by character: a backslash in front of a backslash
/// and of a double quote, and nothing else changed.
pub proof fn law_escaping_goes_by_character(a: Seq<char>, b: Seq<char>, c: char)
    ensures
        escaped(a + b) == escaped(a) + escaped(b),
        escaped(seq![c]) == if c == '\\' {
            seq!['\\', '\\']
        } else if c == '"' {
            seq!['\\', '"']
        } else {
            seq![c]
        },
        escaped(Seq::empty()) == Seq::<char>::empty(),
    decreases b.len(),
{
    reveal_with_fuel(escaped, 2);
    assert(seq![c].drop_last() =~= Seq::empty());
    if b.len() == 0 {
        assert(a + b =~= a);
    } else {
        law_escaping_goes_by_character(a, b.drop_last(), c);
        assert((a + b).drop_last() =~= a + b.drop_last());
        assert(escaped(a + b) =~= escaped(a) + escaped(b));
    }
}

/// A numbered workspace is switched to by its number, whatever its name; one
/// without a number by its name in quotes.
pub proof fn law_switching_goes_by_number_or_name(num: i32, a: Seq<char>, b: Seq<char>)
    ensures
        num >= 0 ==> switching(num, a) == "workspace number "@ + decimal_signed(num as int)
            && switching(num, a) == switching(num, b),
        num < 0 ==> switching(num, a) == "workspace \""@ + escaped(a) + "\""@,
{
}

/// A segment wears what it shows: whether it is on screen, with input focus, or
/// urgent, and the piece of its task's ribbon.
pub proof fn law_what_a_segment_wears(task: Option<usize>, view: SegView)
    ensures
        ({
            let worn = classes(task, view);
            let on = view.state == WsState::Current || view.state == WsState::Focused;
            let n: int = if view.state == WsState::Focused {
                2
            } else if on {
                1
            } else {
                0
            };
            let m: int = if view.urgent {
                n + 1
            } else {
                n
            };
            &&& on ==> worn[0] == "current"@
            &&& view.state == WsState::Focused ==> worn[1] == "focused"@
            &&& view.urgent ==> worn[n] == "urgent"@
            &&& task is Some && view.ribbon == Ribbon::Working ==> worn.len() == m + 1 && worn[m]
                == "ribbon-working"@
            &&& task is Some && view.ribbon == Ribbon::Waiting ==> worn.len() == m + 2 && worn[m]
                == "ribbon-waiting"@ && worn[m + 1] == "task"@ + crate::text::decimal(task->0 as nat)
            &&& task is None || view.ribbon == Ribbon::Off ==> worn.len() == m
        }),
{
}

/// Built pills fit exactly where there are as many as groups, each with the
/// names of its group's workspaces in their order.
pub proof fn law_pills_fit_by_name(built: Seq<Vec<String>>, groups: Seq<Group>)
    ensures
        same_shape(built, groups) <==> {
            &&& built.len() == groups.len()
            &&& forall|i: int|
                0 <= i < built.len() ==> (#[trigger] built[i])@.len()
                    == groups[i].workspaces@.len()
            &&& forall|i: int, j: int|
                0 <= i < built.len() && 0 <= j < built[i]@.len() ==> (#[trigger] built[i]@[j])@
                    == groups[i].workspaces@[j].name@
        },
{
    assert forall|i: int| 0 <= i < built.len() && i < groups.len() implies (texts(
        (#[trigger] built[i])@,
    ) == groups[i].workspaces@.map_values(|w: WorkspaceInfo| w.name@) <==> {
        &&& built[i]@.len() == groups[i].workspaces@.len()
        &&& forall|j: int|
            0 <= j < built[i]@.len() ==> (#[trigger] built[i]@[j])@
                == groups[i].workspaces@[j].name@
    }) by {
        let own = texts(built[i]@);
        let want = groups[i].workspaces@.map_values(|w: WorkspaceInfo| w.name@);
        if own == want {
            assert(own.len() == built[i]@.len() && want.len() == groups[i].workspaces@.len());
            assert forall|j: int| 0 <= j < built[i]@.len() implies (#[trigger] built[i]@[j])@
                == groups[i].workspaces@[j].name@ by {
                assert(own[j] == want[j]);
            }
        }
        if {
            &&& built[i]@.len() == groups[i].workspaces@.len()
            &&& forall|j: int|
                0 <= j < built[i]@.len() ==> (#[trigger] built[i]@[j])@
                    == groups[i].workspaces@[j].name@
        } {
            assert(own =~= want);
        }
    }
}

} // verus!
