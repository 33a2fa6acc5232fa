//! DRM layout outputs: heads are staged on named groups that are driven
//! as clones of one output, enabled attach-then-enable with undo, and
//! judged against `[core] require-outputs`.
//!
//! A group's staged list keeps holes: a head that will not attach, or
//! that is given back by the undo walk, leaves an empty slot behind, and
//! the undo walk takes heads from the end, skipping the holes.

use vstd::prelude::*;
use crate::output_policy::{DrmHeadPlan, OutputTransform};
use crate::text::{concat3, owned, str_eq};

verus! {

/// `[core] require-outputs`: which outputs must come up.
#[derive(Debug, Clone, Copy, PartialEq, Eq, Structural, Default)]
pub enum RequireOutputs {
    /// The default: at least one output must come up.
    #[default]
    Any,
    AllFound,
    NoneRequired,
}

pub open spec fn require_outputs_named(s: Seq<char>) -> Option<RequireOutputs> {
    if s == "any"@ {
        Some(RequireOutputs::Any)
    } else if s == "all"@ {
        Some(RequireOutputs::AllFound)
    } else if s == "none"@ {
        Some(RequireOutputs::NoneRequired)
    } else {
        None
    }
}

impl RequireOutputs {
    /// The three accepted names, exactly.
    pub fn parse(s: &str) -> (r: Option<RequireOutputs>)
        ensures
            r == require_outputs_named(s@),
    {
        if str_eq(s, "any") {
            Some(RequireOutputs::Any)
        } else if str_eq(s, "all") {
            Some(RequireOutputs::AllFound)
        } else if str_eq(s, "none") {
            Some(RequireOutputs::NoneRequired)
        } else {
            None
        }
    }
}

/// Whether startup may go on after processing `count` layout outputs of
/// which `failed` could not be enabled.  With `Any`, an empty list
/// fails too (0 == 0): `mode=off` on the only head is a startup failure.
pub open spec fn outputs_ok_spec(require: RequireOutputs, failed: nat, count: nat) -> bool {
    match require {
        RequireOutputs::AllFound => failed == 0,
        RequireOutputs::Any => failed != count,
        RequireOutputs::NoneRequired => true,
    }
}

pub fn outputs_ok(require: RequireOutputs, failed: usize, count: usize) -> (r: bool)
    ensures
        r == outputs_ok_spec(require, failed as nat, count as nat),
{
    match require {
        RequireOutputs::AllFound => failed == 0,
        RequireOutputs::Any => failed != count,
        RequireOutputs::NoneRequired => true,
    }
}


/// The clone-head capacity of a group.  A head is staged only while
/// the list holds fewer than `MAX_CLONE_HEADS - 1` entries.
pub const MAX_CLONE_HEADS: usize = 16;

/// One group of heads driven as clones: its output name (the section's
/// `name=`, or the head's), the head whose controlling section configures
/// it, and the heads staged for this flush (`None` marks a hole).  Heads
/// are identified by address.
#[derive(Debug, Clone, PartialEq, Eq)]
pub struct Group {
    pub name: String,
    pub section_head: String,
    pub staged: Vec<Option<usize>>,
}

pub ghost struct GroupModel {
    pub name: Seq<char>,
    pub section_head: Seq<char>,
    pub staged: Seq<Option<usize>>,
}

impl View for Group {
    type V = GroupModel;

    open spec fn view(&self) -> GroupModel {
        GroupModel { name: self.name@, section_head: self.section_head@, staged: self.staged@ }
    }
}

/// The layout groups, in creation order.
pub struct Staging {
    groups: Vec<Group>,
}

impl View for Staging {
    type V = Seq<GroupModel>;

    closed spec fn view(&self) -> Seq<GroupModel> {
        Seq::new(self.groups@.len(), |i: int| self.groups@[i]@)
    }
}

/// First index at or after `from` of the group named `name`.
pub open spec fn group_index_from(gs: Seq<GroupModel>, name: Seq<char>, from: int) -> Option<int>
    decreases gs.len() - from,
{
    if from < 0 || from >= gs.len() {
        None
    } else if gs[from].name == name {
        Some(from)
    } else {
        group_index_from(gs, name, from + 1)
    }
}

pub open spec fn group_index(gs: Seq<GroupModel>, name: Seq<char>) -> Option<int> {
    group_index_from(gs, name, 0)
}

/// Staging a head on its group: find the group by name or
/// create it, then stage the head unless the group is full.
pub open spec fn add_head_spec(
    gs: Seq<GroupModel>,
    name: Seq<char>,
    section_head: Seq<char>,
    head: usize,
) -> Seq<GroupModel> {
    let (gs1, i) = match group_index(gs, name) {
        Some(i) => (gs, i),
        None => (
            gs.push(GroupModel { name, section_head, staged: Seq::empty() }),
            gs.len() as int,
        ),
    };
    if gs1[i].staged.len() + 1 >= MAX_CLONE_HEADS {
        gs1
    } else {
        gs1.update(i, GroupModel { staged: gs1[i].staged.push(Some(head)), ..gs1[i] })
    }
}

/// What every staging table satisfies: group names are distinct and no
/// staged list reaches the cap.
pub open spec fn staging_wf(gs: Seq<GroupModel>) -> bool {
    &&& forall|i: int, j: int|
        0 <= i < j < gs.len() ==> #[trigger] gs[i].name != #[trigger] gs[j].name
    &&& forall|i: int| 0 <= i < gs.len() ==> #[trigger] gs[i].staged.len() < MAX_CLONE_HEADS
}

proof fn lemma_group_index(gs: Seq<GroupModel>, name: Seq<char>, from: int)
    requires
        0 <= from,
    ensures
        group_index_from(gs, name, from) matches Some(k) ==> from <= k < gs.len() && gs[k].name
            == name && forall|j: int| from <= j < k ==> gs[j].name != name,
        group_index_from(gs, name, from) is None ==> forall|j: int|
            from <= j < gs.len() ==> gs[j].name != name,
    decreases gs.len() - from,
{
    if from < gs.len() && gs[from].name != name {
        lemma_group_index(gs, name, from + 1);
    }
}

impl Staging {
    pub fn new() -> (s: Staging)
        ensures
            s@ == Seq::<GroupModel>::empty(),
    {
        let s = Staging { groups: Vec::new() };
        assert(s@ =~= Seq::<GroupModel>::empty());
        s
    }

    pub fn len(&self) -> (n: usize)
        ensures
            n == self@.len(),
    {
        self.groups.len()
    }

    /// The group named `name`, if any.
    pub fn find(&self, name: &str) -> (r: Option<usize>)
        ensures
            match r {
                Some(i) => group_index(self@, name@) == Some(i as int),
                None => group_index(self@, name@) is None,
            },
    {
        let mut i: usize = 0;
        while i < self.groups.len()
            invariant
                i <= self@.len(),
                self@.len() == self.groups@.len(),
                group_index(self@, name@) == group_index_from(self@, name@, i as int),
            decreases self.groups@.len() - i,
        {
            assert(self@[i as int] == self.groups@[i as int]@);
            if str_eq(self.groups[i].name.as_str(), name) {
                return Some(i);
            }
            i += 1;
        }
        None
    }

    /// Stage `head` on the group `output_name`, created on first use with
    /// `section_head` as its controlling head.
    pub fn add_head(&mut self, output_name: &str, section_head: &str, head: usize)
        ensures
            final(self)@ == add_head_spec(old(self)@, output_name@, section_head@, head),
    {
        let ghost gs = self@;
        proof {
            lemma_group_index(gs, output_name@, 0);
        }
        let i = match self.find(output_name) {
            Some(i) => i,
            None => {
                self.groups.push(
                    Group { name: owned(output_name), section_head: owned(section_head), staged: Vec::new() },
                );
                assert(self@ =~= gs.push(
                    GroupModel { name: output_name@, section_head: section_head@, staged: Seq::empty() },
                ));
                self.groups.len() - 1
            },
        };
        let ghost gs1 = self@;
        assert(gs1[i as int] == self.groups@[i as int]@);
        if self.groups[i].staged.len() >= MAX_CLONE_HEADS - 1 {
            return;
        }
        let mut g = self.groups.remove(i);
        g.staged.push(Some(head));
        self.groups.insert(i, g);
        assert(self@ =~= gs1.update(
            i as int,
            GroupModel { staged: gs1[i as int].staged.push(Some(head)), ..gs1[i as int] },
        ));
    }
}


/// Staging keeps the table well formed: names stay distinct and no
/// staged list reaches the cap.
pub proof fn law_add_head_keeps_wf(gs: Seq<GroupModel>, name: Seq<char>, section_head: Seq<char>, head: usize)
    requires
        staging_wf(gs),
    ensures
        staging_wf(add_head_spec(gs, name, section_head, head)),
        group_index(add_head_spec(gs, name, section_head, head), name) is Some,
{
    lemma_group_index(gs, name, 0);
    let r = add_head_spec(gs, name, section_head, head);
    match group_index(gs, name) {
        Some(i) => {
            assert(r.len() == gs.len());
            assert forall|a: int, b: int| 0 <= a < b < r.len() implies #[trigger] r[a].name
                != #[trigger] r[b].name by {
                assert(r[a].name == gs[a].name && r[b].name == gs[b].name);
            }
            lemma_group_index(r, name, 0);
            assert(r[i].name == name);
        },
        None => {
            let gs1 = gs.push(GroupModel { name, section_head, staged: Seq::empty() });
            assert forall|a: int, b: int| 0 <= a < b < r.len() implies #[trigger] r[a].name
                != #[trigger] r[b].name by {
                assert(r[a].name == gs1[a].name && r[b].name == gs1[b].name);
            }
            lemma_group_index(r, name, 0);
            assert(r[gs.len() as int].name == name);
        },
    }
}

impl Staging {
    /// The heads staged on group `i`.
    pub fn staged(&self, i: usize) -> (r: Vec<Option<usize>>)
        requires
            i < self@.len(),
        ensures
            r@ == self@[i as int].staged,
    {
        let v = &self.groups[i].staged;
        let mut out: Vec<Option<usize>> = Vec::new();
        let mut k: usize = 0;
        while k < v.len()
            invariant
                k <= v@.len(),
                out@ == v@.take(k as int),
            decreases v@.len() - k,
        {
            out.push(v[k]);
            k += 1;
            assert(out@ =~= v@.take(k as int));
        }
        assert(v@.take(k as int) =~= v@);
        out
    }

    /// The output name and the controlling head of group `i`.
    pub fn names(&self, i: usize) -> (r: (String, String))
        requires
            i < self@.len(),
        ensures
            r.0@ == self@[i as int].name,
            r.1@ == self@[i as int].section_head,
    {
        (self.groups[i].name.clone(), self.groups[i].section_head.clone())
    }

    /// Replace what group `i` has staged: the heads pushed to the next
    /// round, or nothing once it is processed.
    pub fn set_staged(&mut self, i: usize, staged: Vec<Option<usize>>)
        requires
            i < old(self)@.len(),
        ensures
            final(self)@ == old(self)@.update(i as int, GroupModel { staged: staged@, ..old(self)@[i as int] }),
    {
        let ghost gs = self@;
        let mut g = self.groups.remove(i);
        g.staged = staged;
        self.groups.insert(i, g);
        assert(self@ =~= gs.update(i as int, GroupModel { staged: staged@, ..gs[i as int] }));
    }

    /// The groups that have heads staged, in order.
    pub fn pending(&self) -> (r: Vec<usize>)
        ensures
            forall|k: int| 0 <= k < r@.len() ==> r@[k] < self@.len() && self@[r@[k] as int].staged.len() > 0,
            forall|i: int| 0 <= i < self@.len() && self@[i].staged.len() > 0 ==> r@.contains(i as usize),
            forall|a: int, b: int| 0 <= a < b < r@.len() ==> r@[a] < r@[b],
    {
        let mut out: Vec<usize> = Vec::new();
        let mut i: usize = 0;
        while i < self.groups.len()
            invariant
                i <= self@.len(),
                self@.len() == self.groups@.len(),
                forall|k: int| 0 <= k < out@.len() ==> out@[k] < i && self@[out@[k] as int].staged.len() > 0,
                forall|j: int| 0 <= j < i && self@[j].staged.len() > 0 ==> out@.contains(j as usize),
                forall|a: int, b: int| 0 <= a < b < out@.len() ==> out@[a] < out@[b],
            decreases self.groups@.len() - i,
        {
            assert(self@[i as int] == self.groups@[i as int]@);
            let ghost old_out = out@;
            if self.groups[i].staged.len() > 0 {
                out.push(i);
                assert forall|j: int| 0 <= j <= i && self@[j].staged.len() > 0 implies out@.contains(
                    j as usize,
                ) by {
                    if j < i {
                        let k = choose|k: int| 0 <= k < old_out.len() && old_out[k] == j as usize;
                        assert(out@[k] == old_out[k]);
                    } else {
                        assert(out@[out@.len() - 1] == i);
                    }
                }
            }
            i += 1;
        }
        out
    }
}

/// The undo walk: the last staged head, and the list without it and the
/// holes after it; nothing once only holes remain.
pub open spec fn victim(s: Seq<Option<usize>>) -> (Seq<Option<usize>>, Option<usize>)
    decreases s.len(),
{
    if s.len() == 0 {
        (s, None)
    } else if s.last() is Some {
        (s.drop_last(), s.last())
    } else {
        victim(s.drop_last())
    }
}

/// The choice of the head to give back after a failed
/// enable.
pub fn pop_victim(undo: &mut Vec<Option<usize>>) -> (r: Option<usize>)
    ensures
        (final(undo)@, r) == victim(old(undo)@),
{
    loop
        invariant
            victim(old(undo)@) == victim(undo@),
        decreases undo@.len(),
    {
        let ghost before = undo@;
        match undo.pop() {
            None => {
                return None;
            },
            Some(last) => {
                assert(undo@ == before.drop_last());
                if last.is_some() {
                    return last;
                }
            },
        }
    }
}

/// Whether slot `i` of a staged list is handed back after its attach
/// failed: every slot but the first (which came with the output), when
/// it holds a head and the attach said no.
pub open spec fn attach_fails(staged: Seq<Option<usize>>, attached: Seq<bool>, i: int) -> bool {
    i >= 1 && staged[i] is Some && !attached[i]
}

/// The heads whose attach failed, in list order.
pub open spec fn attach_failures(staged: Seq<Option<usize>>, attached: Seq<bool>, n: int) -> Seq<usize>
    decreases n,
{
    if n <= 0 {
        Seq::empty()
    } else {
        let r = attach_failures(staged, attached, n - 1);
        if attach_fails(staged, attached, n - 1) {
            r.push(staged[n - 1]->0)
        } else {
            r
        }
    }
}

/// Attaching a group's heads: given the result of attaching each staged head
/// after the first (`attached[i]`, ignored for holes and the first
/// slot), clear the slots that failed and append their heads to
/// `failed`.
pub fn apply_attach(staged: &mut Vec<Option<usize>>, attached: &Vec<bool>, failed: &mut Vec<usize>)
    requires
        old(staged)@.len() == attached@.len(),
    ensures
        final(staged)@.len() == old(staged)@.len(),
        forall|i: int|
            0 <= i < old(staged)@.len() ==> #[trigger] final(staged)@[i] == if attach_fails(
                old(staged)@,
                attached@,
                i,
            ) {
                None
            } else {
                old(staged)@[i]
            },
        final(failed)@ == old(failed)@ + attach_failures(old(staged)@, attached@, old(staged)@.len() as int),
{
    let ghost s0 = staged@;
    let ghost f0 = failed@;
    let mut i: usize = 0;
    while i < staged.len()
        invariant
            staged@.len() == s0.len(),
            s0.len() == attached@.len(),
            i <= s0.len(),
            forall|k: int| 0 <= k < i ==> #[trigger] staged@[k] == if attach_fails(s0, attached@, k) {
                None
            } else {
                s0[k]
            },
            forall|k: int| i <= k < s0.len() ==> staged@[k] == s0[k],
            failed@ == f0 + attach_failures(s0, attached@, i as int),
        decreases s0.len() - i,
    {
        if i >= 1 && !attached[i] {
            match staged[i] {
                Some(h) => {
                    failed.push(h);
                    staged.set(i, None);
                    assert(failed@ =~= f0 + attach_failures(s0, attached@, i + 1));
                },
                None => {},
            }
        }
        i += 1;
    }
}

/// The name of the output a group creates: the group's own name when no
/// output has it yet, else `<group>:<head>`.
pub fn output_name_for(group: &str, head: &str, reuse: bool) -> (r: String)
    ensures
        r@ == if reuse {
            group@
        } else {
            group@ + ":"@ + head@
        },
{
    if reuse {
        owned(group)
    } else {
        concat3(group, ":", head)
    }
}

/// Where a DRM head is staged: on the plan's output with itself as the
/// controlling head; on its own name, with the message logged, when the
/// `clone-of` chain was broken; nowhere when it stays off.
#[derive(Debug, Clone, PartialEq, Eq)]
pub enum StageDecision {
    Stage { group: String, section_head: String, log: Option<String> },
    Skip,
}

pub fn stage_decision(plan: &DrmHeadPlan, head_name: &str) -> (r: StageDecision)
    ensures
        match *plan {
            DrmHeadPlan::Enable(p) => r matches StageDecision::Stage { group, section_head, log }
                && group@ == p.output_name@ && section_head@ == head_name@ && log is None,
            DrmHeadPlan::Off | DrmHeadPlan::NonDesktop => r is Skip,
            DrmHeadPlan::BadCloneOf(m) => r matches StageDecision::Stage { group, section_head, log }
                && group@ == head_name@ && section_head@ == head_name@ && log == Some(m),
        },
{
    match plan {
        DrmHeadPlan::Enable(p) => StageDecision::Stage {
            group: p.output_name.clone(),
            section_head: owned(head_name),
            log: None,
        },
        DrmHeadPlan::Off | DrmHeadPlan::NonDesktop => StageDecision::Skip,
        DrmHeadPlan::BadCloneOf(m) => StageDecision::Stage {
            group: owned(head_name),
            section_head: owned(head_name),
            log: Some(m.clone()),
        },
    }
}


/// The undo walk gives back the last staged head: the list is cut just
/// before it, and only holes followed it.  With no head left, the list
/// is emptied.
pub proof fn law_victim_is_last_staged(s: Seq<Option<usize>>)
    ensures
        victim(s).1 matches Some(h) ==> exists|k: int|
            0 <= k < s.len() && s[k] == Some(h) && victim(s).0 == s.take(k) && forall|j: int|
                k < j < s.len() ==> #[trigger] s[j] is None,
        victim(s).1 is None ==> victim(s).0.len() == 0 && forall|j: int| 0 <= j < s.len() ==> #[trigger] s[j] is None,
    decreases s.len(),
{
    if s.len() > 0 {
        let k = s.len() - 1;
        if s.last() is Some {
            assert(s.drop_last() =~= s.take(k));
            assert(s[k] == s.last());
        } else {
            law_victim_is_last_staged(s.drop_last());
            let d = s.drop_last();
            if let Some(h) = victim(s).1 {
                let k0 = choose|k0: int|
                    0 <= k0 < d.len() && d[k0] == Some(h) && victim(d).0 == d.take(k0) && forall|j: int|
                        k0 < j < d.len() ==> #[trigger] d[j] is None;
                assert(s[k0] == d[k0]);
                assert(d.take(k0) =~= s.take(k0));
                assert forall|j: int| k0 < j < s.len() implies #[trigger] s[j] is None by {
                    if j < d.len() {
                        assert(s[j] == d[j]);
                    }
                }
            } else {
                assert forall|j: int| 0 <= j < s.len() implies #[trigger] s[j] is None by {
                    if j < d.len() {
                        assert(s[j] == d[j]);
                    }
                }
            }
        }
    }
}

/// The transform a DRM output is given: the configured one; else, when
/// the output drives exactly one head, that head's own transform (a
/// panel mounted rotated reports it); else normal.
pub fn drm_transform(
    configured: Option<OutputTransform>,
    head_count: usize,
    first_head: Option<OutputTransform>,
) -> (r: OutputTransform)
    ensures
        r == match configured {
            Some(t) => t,
            None => if head_count == 1 && first_head is Some {
                first_head->0
            } else {
                OutputTransform::Normal
            },
        },
{
    match configured {
        Some(t) => t,
        None => {
            if head_count == 1 {
                match first_head {
                    Some(t) => t,
                    None => OutputTransform::Normal,
                }
            } else {
                OutputTransform::Normal
            }
        },
    }
}

/// The line logged when the DRM backend refused the mode of output
/// `name`.
pub fn drm_mode_failed_line(name: &str) -> (r: String)
    ensures
        r@ == "Cannot configure output \""@ + name@ + "\" using weston_drm_output_api."@,
{
    concat3("Cannot configure output \"", name, "\" using weston_drm_output_api.")
}

} // verus!
