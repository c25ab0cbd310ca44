use vstd::prelude::*;
use crate::paths::{
    join_path, parent_of, path_components, spec_path_join, spec_path_parent, spec_path_components,
    well_split,
};
use crate::text::views;

verus! {

/// The directories one run created on the way to a path, oldest first. While
/// armed, they are to be removed again, newest first, should the run fail;
/// disarming keeps them.
pub struct CreatedPaths {
    paths: Vec<String>,
    armed: bool,
}

impl CreatedPaths {
    /// The directories recorded, oldest first.
    pub closed spec fn recorded(&self) -> Seq<Seq<char>> {
        views(self.paths@)
    }

    /// Whether the directories are still to be removed on failure.
    pub closed spec fn is_armed(&self) -> bool {
        self.armed
    }

    /// What is to be removed when the run fails, in the order of removal.
    pub open spec fn spec_rollback(&self) -> Seq<Seq<char>> {
        if self.is_armed() {
            self.recorded().reverse()
        } else {
            Seq::empty()
        }
    }

    /// An armed record with nothing in it yet.
    pub fn armed() -> (r: CreatedPaths)
        ensures
            r.recorded() == Seq::<Seq<char>>::empty(),
            r.is_armed(),
    {
        let r = CreatedPaths { paths: Vec::new(), armed: true };
        assert(r.recorded() =~= Seq::<Seq<char>>::empty());
        r
    }

    /// Records one more directory that was created.
    pub fn record(&mut self, path: String)
        ensures
            final(self).recorded() == old(self).recorded().push(path@),
            final(self).is_armed() == old(self).is_armed(),
    {
        self.paths.push(path);
        assert(views(self.paths@) =~= views(old(self).paths@).push(path@));
    }

    /// Keeps the created directories: nothing is removed any more.
    pub fn disarm(&mut self)
        ensures
            final(self).recorded() == old(self).recorded(),
            !final(self).is_armed(),
            final(self).spec_rollback() == Seq::<Seq<char>>::empty(),
    {
        self.armed = false;
    }

    /// The directories recorded, oldest first.
    pub fn paths(&self) -> (r: &Vec<String>)
        ensures
            views(r@) == self.recorded(),
    {
        &self.paths
    }

    /// Whether the directories are still to be removed on failure.
    pub fn is_armed_now(&self) -> (r: bool)
        ensures
            r == self.is_armed(),
    {
        self.armed
    }

    /// The directories to remove when the run fails, newest first; none once
    /// disarmed.
    pub fn rollback_order(&self) -> (r: Vec<String>)
        ensures
            views(r@) == self.spec_rollback(),
    {
        let mut r: Vec<String> = Vec::new();
        if !self.armed {
            assert(views(r@) =~= self.spec_rollback());
            return r;
        }
        let n = self.paths.len();
        let mut k: usize = n;
        while k > 0
            invariant
                n == self.paths@.len(),
                k <= n,
                r@.len() == n - k,
                forall|j: int| 0 <= j < n - k ==> r@[j]@ == self.paths@[n - 1 - j]@,
            decreases k,
        {
            k = k - 1;
            r.push(self.paths[k].clone());
        }
        assert(views(r@) =~= self.spec_rollback());
        r
    }
}

impl Default for CreatedPaths {
    /// An empty, disarmed record: what is handed back when there was nothing
    /// to create.
    fn default() -> (r: CreatedPaths)
        ensures
            r.recorded() == Seq::<Seq<char>>::empty(),
            !r.is_armed(),
    {
        let r = CreatedPaths { paths: Vec::new(), armed: false };
        assert(r.recorded() =~= Seq::<Seq<char>>::empty());
        r
    }
}

/// `x` is one of the first `bound` paths of `steps`.
spec fn found_before(steps: Seq<Seq<char>>, x: Seq<char>, bound: int) -> bool {
    exists|j: int| 0 <= j < bound && j < steps.len() && #[trigger] steps[j] == x
}

/// Every path in `made` is one of the first `bound` paths of `steps`.
spec fn made_among(steps: Seq<Seq<char>>, made: Seq<Seq<char>>, bound: int) -> bool {
    forall|k: int| 0 <= k < made.len() ==> found_before(steps, #[trigger] made[k], bound)
}

proof fn lemma_made_among_grows(steps: Seq<Seq<char>>, made: Seq<Seq<char>>, b1: int, b2: int)
    requires
        made_among(steps, made, b1),
        b1 <= b2,
    ensures
        made_among(steps, made, b2),
{
    assert forall|k: int| 0 <= k < made.len() implies found_before(steps, #[trigger] made[k], b2) by {
        assert(found_before(steps, made[k], b1));
        let j = choose|j: int| 0 <= j < b1 && j < steps.len() && #[trigger] steps[j] == made[k];
        assert(steps[j] == made[k]);
    }
}

proof fn lemma_made_among_push(steps: Seq<Seq<char>>, made: Seq<Seq<char>>, i: int, bound: int)
    requires
        made_among(steps, made, bound),
        0 <= i < steps.len(),
        i < bound,
    ensures
        made_among(steps, made.push(steps[i]), bound),
{
    let m2 = made.push(steps[i]);
    assert forall|k: int| 0 <= k < m2.len() implies found_before(steps, #[trigger] m2[k], bound) by {
        if k < made.len() {
            assert(found_before(steps, made[k], bound));
            let j = choose|j: int| 0 <= j < bound && j < steps.len() && #[trigger] steps[j] == made[k];
            assert(steps[j] == m2[k]);
        } else {
            assert(steps[i] == m2[k]);
        }
    }
}

/// `idx` places each path of `made` among the first `bound` paths of
/// `steps`, in rising order.
spec fn placed(steps: Seq<Seq<char>>, made: Seq<Seq<char>>, idx: Seq<int>, bound: int) -> bool {
    &&& idx.len() == made.len()
    &&& forall|k: int|
        0 <= k < idx.len() ==> 0 <= #[trigger] idx[k] < bound && idx[k] < steps.len() && steps[idx[k]]
            == made[k]
    &&& forall|k1: int, k2: int| 0 <= k1 < k2 < idx.len() ==> #[trigger] idx[k1] < #[trigger] idx[k2]
}

/// The paths of `made` are among the first `bound` paths of `steps`, in the
/// same order.
spec fn made_in_order(steps: Seq<Seq<char>>, made: Seq<Seq<char>>, bound: int) -> bool {
    exists|idx: Seq<int>| placed(steps, made, idx, bound)
}

proof fn lemma_in_order_empty(steps: Seq<Seq<char>>, made: Seq<Seq<char>>, bound: int)
    requires
        made.len() == 0,
    ensures
        made_in_order(steps, made, bound),
{
    assert(placed(steps, made, Seq::<int>::empty(), bound));
}

proof fn lemma_in_order_grows(steps: Seq<Seq<char>>, made: Seq<Seq<char>>, b1: int, b2: int)
    requires
        made_in_order(steps, made, b1),
        b1 <= b2,
    ensures
        made_in_order(steps, made, b2),
{
    let idx = choose|idx: Seq<int>| placed(steps, made, idx, b1);
    assert(placed(steps, made, idx, b2));
}

proof fn lemma_in_order_push(steps: Seq<Seq<char>>, made: Seq<Seq<char>>, i: int)
    requires
        made_in_order(steps, made, i),
        0 <= i < steps.len(),
    ensures
        made_in_order(steps, made.push(steps[i]), i + 1),
{
    let idx = choose|idx: Seq<int>| placed(steps, made, idx, i);
    let idx2 = idx.push(i);
    let m2 = made.push(steps[i]);
    assert forall|k: int|
        0 <= k < idx2.len() implies 0 <= #[trigger] idx2[k] < i + 1 && idx2[k] < steps.len()
            && steps[idx2[k]] == m2[k] by {
        if k < idx.len() {
            assert(idx2[k] == idx[k]);
        }
    }
    assert forall|k1: int, k2: int| 0 <= k1 < k2 < idx2.len() implies #[trigger] idx2[k1]
        < #[trigger] idx2[k2] by {
        if k2 < idx.len() {
            assert(idx2[k1] == idx[k1] && idx2[k2] == idx[k2]);
        } else {
            assert(idx2[k1] == idx[k1]);
        }
    }
    assert(placed(steps, m2, idx2, i + 1));
}

/// Paths further down the way are longer and start with the earlier ones.
proof fn lemma_prefixes_nest_far(components: Seq<Seq<char>>, i: int, j: int)
    requires
        well_split(components),
        0 <= i < j < components.len(),
    ensures
        spec_prefixes(components)[i].len() < spec_prefixes(components)[j].len(),
        spec_prefixes(components)[i] == spec_prefixes(components)[j].subrange(
            0,
            spec_prefixes(components)[i].len() as int,
        ),
    decreases j - i,
{
    lemma_prefixes_nest(components);
    let p = spec_prefixes(components);
    if j > i + 1 {
        lemma_prefixes_nest_far(components, i, j - 1);
        assert(p[j - 1] == p[j].subrange(0, p[j - 1].len() as int));
        assert(p[i] =~= p[j].subrange(0, p[i].len() as int));
    } else {
        assert(p[i].len() < p[i + 1].len());
    }
}

/// The directories a creation records go from the shallowest down: each one
/// recorded is an ancestor of the next, its path cut short.
pub proof fn lemma_made_nest(c: PathCreation, components: Seq<Seq<char>>)
    requires
        c.wf(),
        c.spec_steps() == spec_prefixes(components),
        well_split(components),
    ensures
        forall|k: int|
            0 <= k < c.spec_made().len() - 1 ==> (#[trigger] c.spec_made()[k]).len()
                < c.spec_made()[k + 1].len() && c.spec_made()[k] == c.spec_made()[k + 1].subrange(
                0,
                c.spec_made()[k].len() as int,
            ),
{
    lemma_prefixes_len(components);
    let made = c.spec_made();
    let steps = c.spec_steps();
    let idx = choose|idx: Seq<int>| placed(steps, made, idx, c.order_bound());
    assert forall|k: int| 0 <= k < made.len() - 1 implies (#[trigger] made[k]).len()
        < made[k + 1].len() && made[k] == made[k + 1].subrange(0, made[k].len() as int) by {
        assert(idx[k] < idx[k + 1]);
        lemma_prefixes_nest_far(components, idx[k], idx[k + 1]);
    }
}

/// A creation only ever records, and so only ever removes again,
/// directories on the way to its target.
pub proof fn lemma_made_on_path(c: PathCreation)
    requires
        c.wf(),
    ensures
        c.stays_on_path(),
{
    assert forall|k: int| 0 <= k < c.spec_made().len() implies c.spec_steps().contains(
        #[trigger] c.spec_made()[k],
    ) by {
        let x = c.spec_made()[k];
        assert(found_before(c.spec_steps(), x, c.spec_steps().len() as int));
        let j = choose|j: int| 0 <= j < c.spec_steps().len() && #[trigger] c.spec_steps()[j] == x;
        assert(c.spec_steps()[j] == c.spec_made()[k]);
    }
}

/// A disarmed record leaves nothing to remove; an armed one removes exactly
/// what it recorded, newest first.
pub proof fn lemma_rollback_undoes_creation(c: CreatedPaths)
    ensures
        !c.is_armed() ==> c.spec_rollback().len() == 0,
        c.is_armed() ==> c.spec_rollback().len() == c.recorded().len() && forall|j: int|
            0 <= j < c.recorded().len() ==> #[trigger] c.spec_rollback()[j] == c.recorded()[c.recorded().len() - 1 - j],
{
}

} // verus!

verus! {

/// The paths that creating `path` passes through: after each component, the
/// path made so far, starting from nothing.
pub open spec fn spec_prefixes(components: Seq<Seq<char>>) -> Seq<Seq<char>>
    decreases components.len(),
{
    if components.len() == 0 {
        Seq::empty()
    } else {
        let before = spec_prefixes(components.drop_last());
        let base = if before.len() == 0 { Seq::<char>::empty() } else { before.last() };
        before.push(spec_path_join(base, components.last()))
    }
}

proof fn lemma_prefixes_len(components: Seq<Seq<char>>)
    ensures
        spec_prefixes(components).len() == components.len(),
    decreases components.len(),
{
    if components.len() > 0 {
        lemma_prefixes_len(components.drop_last());
    }
}

/// The paths passed through nest: each one is the next one cut short, so
/// they go from the shallowest directory down, each an ancestor of the next.
pub proof fn lemma_prefixes_nest(components: Seq<Seq<char>>)
    requires
        well_split(components),
    ensures
        spec_prefixes(components).len() == components.len(),
        forall|i: int|
            0 <= i < components.len() - 1 ==> (#[trigger] spec_prefixes(components)[i]).len()
                < spec_prefixes(components)[i + 1].len() && spec_prefixes(components)[i]
                == spec_prefixes(components)[i + 1].subrange(
                0,
                spec_prefixes(components)[i].len() as int,
            ),
    decreases components.len(),
{
    lemma_prefixes_len(components);
    if components.len() > 0 {
        let rest = components.drop_last();
        assert(well_split(rest)) by {
            assert forall|i: int| 0 <= i < rest.len() implies #[trigger] rest[i].len() > 0 && (if rest[i]
                == seq!['/'] {
                i == 0
            } else {
                !rest[i].contains('/')
            }) by {
                assert(rest[i] == components[i]);
            }
        }
        lemma_prefixes_nest(rest);
        let before = spec_prefixes(rest);
        let all = spec_prefixes(components);
        assert(all == before.push(spec_path_join(
            if before.len() == 0 { Seq::<char>::empty() } else { before.last() },
            components.last(),
        )));
        if components.len() >= 2 {
            let n = components.len() - 1;
            let c = components[n];
            assert(c.len() > 0);
            assert(c != seq!['/'] ==> !c.contains('/'));
            if c == seq!['/'] {
                assert(false);
            }
            assert(c[0] != '/') by {
                if c[0] == '/' {
                    assert(c.contains('/'));
                }
            }
            let base = before.last();
            assert(all[n - 1] == base);
            assert(all[n] == spec_path_join(base, c));
            assert(all[n - 1] == all[n].subrange(0, all[n - 1].len() as int));
            assert forall|i: int| 0 <= i < components.len() - 1 implies (
            #[trigger] all[i]).len() < all[i + 1].len() && all[i] == all[i + 1].subrange(
                0,
                all[i].len() as int,
            ) by {
                if i < n - 1 {
                    assert(all[i] == before[i]);
                    assert(all[i + 1] == before[i + 1]);
                }
            }
        }
    }
}

/// The paths, one per component, that creating `path` passes through.
pub fn component_prefixes(path: &str) -> (r: Vec<String>)
    ensures
        views(r@) == spec_prefixes(spec_path_components(path@)),
        well_split(spec_path_components(path@)),
{
    let comps = path_components(path);
    let ghost cs = views(comps@);
    let mut r: Vec<String> = Vec::new();
    let mut current = String::new();
    let n = comps.len();
    for i in 0..n
        invariant
            n == comps@.len(),
            cs == views(comps@),
            views(r@) == spec_prefixes(cs.take(i as int)),
            current@ == (if i == 0 { Seq::<char>::empty() } else { views(r@).last() }),
    {
        proof {
            lemma_prefixes_len(cs.take(i as int));
            assert(cs.take(i + 1).drop_last() =~= cs.take(i as int));
        }
        current = join_path(current.as_str(), comps[i].as_str());
        r.push(current.clone());
        assert(views(r@) =~= spec_prefixes(cs.take(i as int)).push(current@));
    }
    assert(cs.take(n as int) =~= cs);
    assert(cs == spec_path_components(path@));
    r
}

/// How an attempt to make a directory went.
#[derive(Debug, PartialEq, Eq)]
pub enum DirOutcome {
    /// The directory was made.
    Created,
    /// Something already stands there.
    AlreadyExists,
    /// Making it failed for another reason, given as text.
    Failed(String),
}

/// What the program found out, handed back to the creation.
#[derive(Debug, PartialEq, Eq)]
pub enum CreationEvent {
    /// Whether the path asked about exists.
    Probed(bool),
    /// How making the directory went.
    Made(DirOutcome),
    /// Whether handing the new directory to its owner worked, or the error
    /// message of the failed attempt.
    Chowned(Result<(), String>),
}

/// The report shown once a directory was made and handed to its owner.
pub open spec fn spec_created_report(path: Seq<char>) -> Seq<char> {
    "Created path: "@ + path
}

/// The error when a directory could not be made, for the reason `detail`.
pub open spec fn spec_make_dir_failure(path: Seq<char>, detail: Seq<char>) -> Seq<char> {
    "Failed, could not create path: "@ + path + ", Err: "@ + detail
}

/// The step at which creating directories failed.
#[derive(Debug, PartialEq, Eq)]
pub enum CreationFailure {
    /// This directory could not be made.
    MakeDir(String),
    /// This new directory could not be handed to its owner.
    Chown(String),
}

/// What the creation asks the program to do next.
pub enum CreationAction {
    /// Find out whether this path exists.
    Probe(String),
    /// Make this directory.
    MakeDir(String),
    /// Give this new directory to the owner and group; on success, show
    /// `report`.
    Chown { path: String, uid: u32, gid: u32, report: String },
    /// All directories stand; these are the ones this run made.
    Done(CreatedPaths),
    /// Creating failed; remove `rollback`, in order, and give up with the
    /// error `message`.
    Fail { failure: CreationFailure, rollback: Vec<String>, message: String },
}

/// Where creating the directories stands.
#[derive(Debug, Clone, Copy, PartialEq, Eq, Structural)]
pub enum CreationStage {
    Probing,
    Making,
    Chowning,
    Finished,
}

/// The decisions of making every missing directory on the way to a path,
/// from the root down, each handed to the given owner and group.
pub struct PathCreation {
    prefixes: Vec<String>,
    next: usize,
    created: CreatedPaths,
    uid: u32,
    gid: u32,
    stage: CreationStage,
}

impl PathCreation {
    /// The paths passed through, from the root down.
    pub closed spec fn spec_steps(&self) -> Seq<Seq<char>> {
        views(self.prefixes@)
    }

    /// How many of them are settled.
    pub closed spec fn spec_next(&self) -> nat {
        self.next as nat
    }

    /// The directories made so far.
    pub closed spec fn spec_made(&self) -> Seq<Seq<char>> {
        self.created.recorded()
    }

    pub closed spec fn spec_stage(&self) -> CreationStage {
        self.stage
    }

    pub closed spec fn spec_owner(&self) -> (u32, u32) {
        (self.uid, self.gid)
    }

    /// The machine's own consistency: the position stays within the steps,
    /// a step is pending only while one is left, and the record stays armed
    /// until it is handed out.
    pub closed spec fn wf(&self) -> bool {
        &&& self.next <= self.prefixes@.len()
        &&& self.made_before(self.next + 1)
        &&& made_in_order(views(self.prefixes@), self.created.recorded(), self.order_bound())
        &&& self.stage != CreationStage::Finished ==> self.next < self.prefixes@.len()
            && self.created.is_armed()
    }

    /// How many paths on the way the recorded directories are placed among:
    /// those settled, and the current one once it was made.
    closed spec fn order_bound(&self) -> int {
        if self.stage == CreationStage::Chowning || self.stage == CreationStage::Finished {
            self.next + 1
        } else {
            self.next as int
        }
    }

    closed spec fn made_before(&self, bound: int) -> bool {
        made_among(views(self.prefixes@), self.created.recorded(), bound)
    }

    /// Every directory recorded as made is one of the paths on the way to the
    /// target.
    pub open spec fn stays_on_path(&self) -> bool {
        forall|k: int|
            0 <= k < self.spec_made().len() ==> self.spec_steps().contains(
                #[trigger] self.spec_made()[k],
            )
    }

    /// The path whose turn it is.
    pub open spec fn spec_current(&self) -> Seq<char> {
        self.spec_steps()[self.spec_next() as int]
    }

    /// Whether `event` answers the action that is pending.
    pub open spec fn spec_awaits(&self, event: CreationEvent) -> bool {
        match event {
            CreationEvent::Probed(_) => self.spec_stage() == CreationStage::Probing,
            CreationEvent::Made(_) => self.spec_stage() == CreationStage::Making,
            CreationEvent::Chowned(_) => self.spec_stage() == CreationStage::Chowning,
        }
    }

    /// What comes after position `next`: asking about the path there, or,
    /// past the last one, handing out the record.
    pub open spec fn moves_on(&self, action: &CreationAction, made: Seq<Seq<char>>) -> bool {
        if self.spec_next() < self.spec_steps().len() {
            self.spec_stage() == CreationStage::Probing && (action matches CreationAction::Probe(p)
                && p@ == self.spec_current())
        } else {
            self.spec_stage() == CreationStage::Finished && (action matches CreationAction::Done(c)
                && c.recorded() == made && c.is_armed())
        }
    }

    fn move_on(&mut self) -> (action: CreationAction)
        requires
            old(self).next <= old(self).prefixes@.len(),
            old(self).made_before(old(self).next as int),
            made_in_order(views(old(self).prefixes@), old(self).created.recorded(), old(self).next as int),
            old(self).created.is_armed(),
        ensures
            final(self).spec_steps() == old(self).spec_steps(),
            final(self).spec_next() == old(self).spec_next(),
            final(self).spec_owner() == old(self).spec_owner(),
            final(self).wf(),
            final(self).moves_on(&action, old(self).spec_made()),
            final(self).spec_stage() != CreationStage::Finished ==> final(self).spec_made()
                == old(self).spec_made(),
            final(self).spec_stage() == CreationStage::Finished ==> final(self).spec_made()
                == Seq::<Seq<char>>::empty(),
    {
        proof {
            lemma_made_among_grows(
                views(self.prefixes@),
                self.created.recorded(),
                self.next as int,
                self.next + 1,
            );
        }
        if self.next < self.prefixes.len() {
            self.stage = CreationStage::Probing;
            CreationAction::Probe(self.prefixes[self.next].clone())
        } else {
            self.stage = CreationStage::Finished;
            let mut out = CreatedPaths::default();
            std::mem::swap(&mut out, &mut self.created);
            proof {
                lemma_in_order_empty(views(self.prefixes@), self.created.recorded(), self.next + 1);
            }
            CreationAction::Done(out)
        }
    }

    /// Whether `event` answers the action that is pending.
    pub fn awaits(&self, event: &CreationEvent) -> (r: bool)
        ensures
            r == self.spec_awaits(*event),
    {
        match event {
            CreationEvent::Probed(_) => self.stage == CreationStage::Probing,
            CreationEvent::Made(_) => self.stage == CreationStage::Making,
            CreationEvent::Chowned(_) => self.stage == CreationStage::Chowning,
        }
    }

    /// Takes in what the program found out and says what to do next. A path
    /// that exists is passed over; a missing one is made and handed to the
    /// owner, and recorded as made; when another process made it first it is
    /// passed over unrecorded. Any failure ends the creation with the
    /// directories made so far to be removed, newest first.
    pub fn advance(&mut self, event: CreationEvent) -> (action: CreationAction)
        requires
            old(self).wf(),
            old(self).spec_awaits(event),
        ensures
            final(self).wf(),
            final(self).spec_steps() == old(self).spec_steps(),
            final(self).spec_owner() == old(self).spec_owner(),
            match event {
                CreationEvent::Probed(true) | CreationEvent::Made(DirOutcome::AlreadyExists)
                | CreationEvent::Chowned(Ok(())) => final(self).spec_next() == old(self).spec_next()
                    + 1 && final(self).moves_on(&action, old(self).spec_made()) && (
                final(self).spec_stage() != CreationStage::Finished ==> final(self).spec_made()
                    == old(self).spec_made()),
                CreationEvent::Probed(false) => final(self).spec_stage() == CreationStage::Making
                    && final(self).spec_next() == old(self).spec_next() && final(self).spec_made()
                    == old(self).spec_made() && (action matches CreationAction::MakeDir(p) && p@
                    == old(self).spec_current()),
                CreationEvent::Made(DirOutcome::Created) => final(self).spec_stage()
                    == CreationStage::Chowning && final(self).spec_next() == old(self).spec_next()
                    && final(self).spec_made() == old(self).spec_made().push(
                    old(self).spec_current(),
                ) && (action matches CreationAction::Chown { path, uid, gid, report } && path@
                    == old(self).spec_current() && (uid, gid) == old(self).spec_owner() && report@
                    == spec_created_report(old(self).spec_current())),
                CreationEvent::Made(DirOutcome::Failed(detail)) => final(self).spec_stage()
                    == CreationStage::Finished && (action matches CreationAction::Fail {
                    failure,
                    rollback,
                    message,
                } && (failure matches CreationFailure::MakeDir(p) && p@ == old(self).spec_current())
                    && views(rollback@) == old(self).spec_made().reverse() && message@
                    == spec_make_dir_failure(old(self).spec_current(), detail@)),
                CreationEvent::Chowned(Err(m)) => final(self).spec_stage() == CreationStage::Finished
                    && (action matches CreationAction::Fail { failure, rollback, message } && (
                failure matches CreationFailure::Chown(p) && p@ == old(self).spec_current())
                    && views(rollback@) == old(self).spec_made().reverse() && message@ == m@),
            },
    {
        match event {
            CreationEvent::Probed(true) | CreationEvent::Made(DirOutcome::AlreadyExists)
            | CreationEvent::Chowned(Ok(())) => {
                assert(self.next < self.prefixes.len());
                proof {
                    lemma_in_order_grows(
                        views(self.prefixes@),
                        self.created.recorded(),
                        self.order_bound(),
                        self.next + 1,
                    );
                }
                self.next = self.next + 1;
                self.move_on()
            },
            CreationEvent::Probed(false) => {
                self.stage = CreationStage::Making;
                CreationAction::MakeDir(self.prefixes[self.next].clone())
            },
            CreationEvent::Made(DirOutcome::Created) => {
                self.stage = CreationStage::Chowning;
                let dir = self.prefixes[self.next].clone();
                proof {
                    lemma_in_order_push(views(self.prefixes@), self.created.recorded(), self.next as int);
                    lemma_made_among_push(
                        views(self.prefixes@),
                        self.created.recorded(),
                        self.next as int,
                        self.next + 1,
                    );
                }
                self.created.record(dir);
                let mut report = String::from_str("Created path: ");
                report.append(self.prefixes[self.next].as_str());
                CreationAction::Chown {
                    path: self.prefixes[self.next].clone(),
                    uid: self.uid,
                    gid: self.gid,
                    report,
                }
            },
            CreationEvent::Made(DirOutcome::Failed(detail)) => {
                proof {
                    lemma_in_order_grows(
                        views(self.prefixes@),
                        self.created.recorded(),
                        self.next as int,
                        self.next + 1,
                    );
                }
                self.stage = CreationStage::Finished;
                let rollback = self.created.rollback_order();
                let mut message = String::from_str("Failed, could not create path: ");
                message.append(self.prefixes[self.next].as_str());
                message.append(", Err: ");
                message.append(detail.as_str());
                CreationAction::Fail {
                    failure: CreationFailure::MakeDir(self.prefixes[self.next].clone()),
                    rollback,
                    message,
                }
            },
            CreationEvent::Chowned(Err(m)) => {
                self.stage = CreationStage::Finished;
                let rollback = self.created.rollback_order();
                CreationAction::Fail {
                    failure: CreationFailure::Chown(self.prefixes[self.next].clone()),
                    rollback,
                    message: m,
                }
            },
        }
    }
}

/// Starts making every missing directory of `path`, the path itself
/// included, from the root down.
pub fn create_path(path: &str, uid: u32, gid: u32) -> (r: (PathCreation, CreationAction))
    ensures
        r.0.wf(),
        r.0.spec_steps() == spec_prefixes(spec_path_components(path@)),
        well_split(spec_path_components(path@)),
        r.0.spec_next() == 0,
        r.0.spec_made() == Seq::<Seq<char>>::empty(),
        r.0.spec_owner() == (uid, gid),
        r.0.moves_on(&r.1, Seq::empty()),
{
    let prefixes = component_prefixes(path);
    let mut c = PathCreation {
        prefixes,
        next: 0,
        created: CreatedPaths::armed(),
        uid,
        gid,
        stage: CreationStage::Probing,
    };
    proof {
        lemma_in_order_empty(views(c.prefixes@), c.created.recorded(), 0);
    }
    let action = c.move_on();
    (c, action)
}

/// Starts making the directories that must stand before `path` can: those
/// of its parent. A path without a parent needs none, and the record
/// handed out is empty and disarmed.
pub fn require_parent_paths(path: &str, uid: u32, gid: u32) -> (r: (PathCreation, CreationAction))
    ensures
        r.0.wf(),
        r.0.spec_owner() == (uid, gid),
        match spec_path_parent(path@) {
            Some(parent) => r.0.spec_steps() == spec_prefixes(spec_path_components(parent))
                && well_split(spec_path_components(parent)) && r.0.spec_next() == 0
                && r.0.spec_made() == Seq::<Seq<char>>::empty() && r.0.moves_on(&r.1, Seq::empty()),
            None => r.0.spec_stage() == CreationStage::Finished && (r.1 matches CreationAction::Done(c)
                && c.recorded() == Seq::<Seq<char>>::empty() && !c.is_armed()),
        },
{
    match parent_of(path) {
        Some(parent) => create_path(parent.as_str(), uid, gid),
        None => {
            let c = PathCreation {
                prefixes: Vec::new(),
                next: 0,
                created: CreatedPaths::default(),
                uid,
                gid,
                stage: CreationStage::Finished,
            };
            proof {
                lemma_in_order_empty(views(c.prefixes@), c.created.recorded(), 1);
            }
            (c, CreationAction::Done(CreatedPaths::default()))
        },
    }
}


} // verus!
