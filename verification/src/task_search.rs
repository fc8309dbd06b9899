//! The search of a worker for tasks that are ready.
//!
//! A search goes over the snapshots in progress one by one. For each it asks whether a
//! signal is pending, for the snapshot itself, and whether the task that the workflow
//! is at is claimed; workflows that went past a delay are stored. Every method takes
//! the answer to the last question and returns the next one.
use crate::dynamodb_claims;
use crate::dynamodb_claims::{dispatch, Dispatch, DispatchSpec, Offer};
use crate::dynamodb_events;
use crate::dynamodb_item;
use crate::dynamodb_item::{Item, Val};
use crate::snapshot;
use crate::snapshot::{Snap, WorkflowSnapshot};
use crate::string_map::str_same;
use crate::task_claim::AvailableTask;
use crate::text;
use crate::time::Timestamp;
use vstd::prelude::*;

verus! {

/// What a search waits for.
pub enum Stage {
    /// Whether a signal is pending for the instance at hand.
    Signals,
    /// The snapshot of the instance at hand.
    Loading,
    /// Whether the task that the workflow is at is claimed.
    Claim(WorkflowSnapshot),
    /// That the snapshot was stored; then the task is offered.
    Saving(Option<AvailableTask>),
    /// Nothing any more.
    Finished,
}

/// The contents of a [`Stage`].
pub enum StageSpec {
    Signals,
    Loading,
    Claim(Snap),
    Saving(Option<Offer>),
    Finished,
}

impl View for Stage {
    type V = StageSpec;

    open spec fn view(&self) -> StageSpec {
        match *self {
            Stage::Signals => StageSpec::Signals,
            Stage::Loading => StageSpec::Loading,
            Stage::Claim(s) => StageSpec::Claim(s@),
            Stage::Saving(t) => StageSpec::Saving(dynamodb_claims::opt_offer(t)),
            Stage::Finished => StageSpec::Finished,
        }
    }
}

/// What a search asks next.
pub enum SearchStep {
    /// Whether a signal is pending for an instance.
    CheckSignals(String),
    /// The snapshot of an instance.
    Load(String),
    /// Whether a task of an instance is claimed.
    CheckClaim(String, String),
    /// To store a snapshot.
    Save(WorkflowSnapshot),
    /// Nothing: the search is over.
    Done,
}

/// The contents of a [`SearchStep`].
pub enum StepSpec {
    CheckSignals(Seq<char>),
    Load(Seq<char>),
    CheckClaim(Seq<char>, Seq<char>),
    Save(Snap),
    Done,
}

impl View for SearchStep {
    type V = StepSpec;

    open spec fn view(&self) -> StepSpec {
        match *self {
            SearchStep::CheckSignals(i) => StepSpec::CheckSignals(i@),
            SearchStep::Load(i) => StepSpec::Load(i@),
            SearchStep::CheckClaim(i, t) => StepSpec::CheckClaim(i@, t@),
            SearchStep::Save(s) => StepSpec::Save(s@),
            SearchStep::Done => StepSpec::Done,
        }
    }
}

/// A search for tasks.
pub struct TaskSearch {
    /// After how many tasks to stop.
    pub limit: usize,
    /// The instances to look at.
    pub instances: Vec<String>,
    /// How many of them were taken up.
    pub taken: usize,
    /// The tasks found so far.
    pub found: Vec<AvailableTask>,
    /// What the search waits for.
    pub stage: Stage,
}

/// The contents of a [`TaskSearch`].
pub struct Search {
    pub limit: nat,
    pub instances: Seq<Seq<char>>,
    pub taken: nat,
    pub found: Seq<Offer>,
    pub stage: StageSpec,
}

/// The contents of a list of tasks.
pub open spec fn offers(v: Seq<AvailableTask>) -> Seq<Offer> {
    Seq::new(v.len(), |i: int| v[i]@)
}

impl View for TaskSearch {
    type V = Search;

    open spec fn view(&self) -> Search {
        Search {
            limit: self.limit as nat,
            instances: text::texts(self.instances@),
            taken: self.taken as nat,
            found: offers(self.found@),
            stage: self.stage@,
        }
    }
}

/// An instance is at hand unless the search is over.
pub open spec fn search_wf(s: Search) -> bool {
    s.taken <= s.instances.len() && (s.stage is Finished || s.taken > 0)
}

/// The instance at hand.
pub open spec fn at_hand(s: Search) -> Seq<char> {
    s.instances[s.taken - 1]
}

/// Take up the next instance, if there is one.
pub open spec fn advanced(s: Search) -> (Search, StepSpec) {
    if s.taken < s.instances.len() {
        (
            Search { taken: s.taken + 1, stage: StageSpec::Signals, ..s },
            StepSpec::CheckSignals(s.instances[s.taken as int]),
        )
    } else {
        (Search { stage: StageSpec::Finished, ..s }, StepSpec::Done)
    }
}

/// Take in a task, if there is one; then go on unless there are enough.
pub open spec fn settled(s: Search, task: Option<Offer>) -> (Search, StepSpec) {
    let t = match task {
        Some(o) => Search { found: s.found.push(o), ..s },
        None => s,
    };
    if t.found.len() >= t.limit {
        (Search { stage: StageSpec::Finished, ..t }, StepSpec::Done)
    } else {
        advanced(t)
    }
}

/// Decide about the workflow of the instance at hand.
pub open spec fn decided(s: Search, snap: Snap, now: Timestamp) -> (Search, StepSpec) {
    match dynamodb_claims::dispatched(snap, now) {
        DispatchSpec::Skip => advanced(s),
        DispatchSpec::Ready(t) => settled(s, t),
        DispatchSpec::Advance(there, t) => (
            Search { stage: StageSpec::Saving(t), ..s },
            StepSpec::Save(there),
        ),
        DispatchSpec::Finish(end) => (
            Search { stage: StageSpec::Saving(None), ..s },
            StepSpec::Save(end),
        ),
    }
}

/// After the answer whether a signal is pending: a workflow with one is left alone.
pub open spec fn after_signals(s: Search, pending: bool) -> (Search, StepSpec) {
    if pending {
        advanced(s)
    } else {
        (Search { stage: StageSpec::Loading, ..s }, StepSpec::Load(at_hand(s)))
    }
}

/// After the snapshot was asked for: one that cannot be loaded is left alone.
pub open spec fn after_load(s: Search, loaded: Option<Snap>, now: Timestamp) -> (
    Search,
    StepSpec,
) {
    match loaded {
        None => advanced(s),
        Some(snap) => match snapshot::task_at(snap.state) {
            Some(t) => (
                Search { stage: StageSpec::Claim(snap), ..s },
                StepSpec::CheckClaim(at_hand(s), t),
            ),
            None => decided(s, snap, now),
        },
    }
}

/// After the answer whether the task is claimed: a claimed one is left alone.
pub open spec fn after_claim(s: Search, claimed: bool, now: Timestamp) -> (Search, StepSpec) {
    if claimed {
        advanced(s)
    } else {
        decided(s, s.stage->Claim_0, now)
    }
}

/// After a snapshot was stored.
pub open spec fn after_save(s: Search) -> (Search, StepSpec) {
    settled(s, s.stage->Saving_0)
}

/// The instance of a current snapshot among the items of a query.
pub open spec fn candidate(m: Map<Seq<char>, Val>) -> Option<Seq<char>> {
    match (dynamodb_item::text_of(m, "PK"@), dynamodb_item::text_of(m, "SK"@)) {
        (Some(pk), Some(sk)) => if "SNAP#"@.is_prefix_of(pk) && sk == "current"@ {
            dynamodb_item::text_of(m, "instance_id"@)
        } else {
            None
        },
        _ => None,
    }
}

/// The instances of the current snapshots among the first `k` items of a query.
pub open spec fn candidates(items: Seq<Map<Seq<char>, Val>>, k: nat) -> Seq<Seq<char>>
    decreases k,
{
    if k == 0 || k > items.len() {
        seq![]
    } else {
        let p = candidates(items, (k - 1) as nat);
        match candidate(items[k - 1]) {
            Some(id) => p.push(id),
            None => p,
        }
    }
}

/// Whether a text starts with another one.
pub fn starts_with(s: &str, prefix: &str) -> (r: bool)
    ensures
        r == prefix@.is_prefix_of(s@),
{
    let n = prefix.unicode_len();
    if s.unicode_len() < n {
        return false;
    }
    let mut i: usize = 0;
    while i < n
        invariant
            i <= n,
            n == prefix@.len(),
            n <= s@.len(),
            forall|j: int| 0 <= j < i ==> s@[j] == prefix@[j],
        decreases n - i,
    {
        if s.get_char(i) != prefix.get_char(i) {
            return false;
        }
        i = i + 1;
    }
    proof {
        assert(prefix@ =~= s@.subrange(0, n as int));
    }
    true
}

/// The instance of a current snapshot.
fn candidate_id(item: &Item) -> (r: Option<String>)
    ensures
        text::opt_text(r) == candidate(item@),
{
    match (item.text("PK"), item.text("SK")) {
        (Some(pk), Some(sk)) => if starts_with(pk, "SNAP#") && str_same(sk, "current") {
            match item.text("instance_id") {
                Some(id) => Some(String::from_str(id)),
                None => None,
            }
        } else {
            None
        },
        _ => None,
    }
}

impl TaskSearch {
    /// Start a search over the items of a query.
    pub fn start(items: &Vec<Item>, limit: usize) -> (r: (Self, SearchStep))
        ensures
            (r.0@, r.1@) == advanced(
                Search {
                    limit: limit as nat,
                    instances: candidates(dynamodb_events::item_maps(items@), items@.len()),
                    taken: 0,
                    found: seq![],
                    stage: StageSpec::Finished,
                },
            ),
            search_wf(r.0@),
    {
        let ghost s = dynamodb_events::item_maps(items@);
        let mut instances: Vec<String> = Vec::new();
        let mut i: usize = 0;
        proof {
            assert(text::texts(instances@) =~= seq![]);
        }
        while i < items.len()
            invariant
                i <= items@.len(),
                s == dynamodb_events::item_maps(items@),
                text::texts(instances@) == candidates(s, i as nat),
            decreases items@.len() - i,
        {
            if let Some(id) = candidate_id(&items[i]) {
                proof {
                    text::lemma_texts_push(instances@, id);
                }
                instances.push(id);
            }
            i = i + 1;
        }
        let mut search = TaskSearch {
            limit,
            instances,
            taken: 0,
            found: Vec::new(),
            stage: Stage::Finished,
        };
        proof {
            assert(offers(search.found@) =~= seq![]);
        }
        let step = search.advance();
        (search, step)
    }

    /// Take up the next instance, if there is one.
    fn advance(&mut self) -> (r: SearchStep)
        requires
            old(self)@.taken <= old(self)@.instances.len(),
        ensures
            (final(self)@, r@) == advanced(old(self)@),
            search_wf(final(self)@),
    {
        if self.taken < self.instances.len() {
            let id = self.instances[self.taken].clone();
            self.taken = self.taken + 1;
            self.stage = Stage::Signals;
            SearchStep::CheckSignals(id)
        } else {
            self.stage = Stage::Finished;
            SearchStep::Done
        }
    }

    /// Take in a task, if there is one; then go on unless there are enough.
    fn settle(&mut self, task: Option<AvailableTask>) -> (r: SearchStep)
        requires
            old(self)@.taken <= old(self)@.instances.len(),
        ensures
            (final(self)@, r@) == settled(old(self)@, dynamodb_claims::opt_offer(task)),
            search_wf(final(self)@),
    {
        if let Some(t) = task {
            let ghost before = offers(self.found@);
            self.found.push(t);
            proof {
                assert(offers(self.found@) =~= before.push(t@));
            }
        }
        if self.found.len() >= self.limit {
            self.stage = Stage::Finished;
            SearchStep::Done
        } else {
            self.advance()
        }
    }

    /// Decide about the workflow of the instance at hand.
    fn decide(&mut self, s: WorkflowSnapshot, now: Timestamp) -> (r: SearchStep)
        requires
            search_wf(old(self)@),
            !(old(self)@.stage is Finished),
        ensures
            (final(self)@, r@) == decided(old(self)@, s@, now),
            search_wf(final(self)@),
    {
        match dispatch(s, now) {
            Dispatch::Skip => self.advance(),
            Dispatch::Ready(t) => self.settle(t),
            Dispatch::Advance(there, t) => {
                self.stage = Stage::Saving(t);
                SearchStep::Save(there)
            },
            Dispatch::Finish(end) => {
                self.stage = Stage::Saving(None);
                SearchStep::Save(end)
            },
        }
    }

    /// Go on with the answer whether a signal is pending.
    pub fn on_signals(&mut self, pending: bool) -> (r: SearchStep)
        requires
            search_wf(old(self)@),
            old(self)@.stage is Signals,
        ensures
            (final(self)@, r@) == after_signals(old(self)@, pending),
            search_wf(final(self)@),
    {
        if pending {
            return self.advance();
        }
        self.stage = Stage::Loading;
        SearchStep::Load(self.instances[self.taken - 1].clone())
    }

    /// Go on with the snapshot of the instance at hand, if it could be loaded.
    pub fn on_loaded(&mut self, loaded: Option<WorkflowSnapshot>, now: Timestamp) -> (r: SearchStep)
        requires
            search_wf(old(self)@),
            old(self)@.stage is Loading,
        ensures
            (final(self)@, r@) == after_load(
                old(self)@,
                match loaded {
                    Some(s) => Some(s@),
                    None => None,
                },
                now,
            ),
            search_wf(final(self)@),
    {
        let s = match loaded {
            Some(s) => s,
            None => {
                return self.advance();
            },
        };
        let task = match s.current_task_id() {
            Some(t) => Some(String::from_str(t)),
            None => None,
        };
        match task {
            Some(t) => {
                let id = self.instances[self.taken - 1].clone();
                self.stage = Stage::Claim(s);
                SearchStep::CheckClaim(id, t)
            },
            None => self.decide(s, now),
        }
    }

    /// Go on with the answer whether the task is claimed.
    pub fn on_claim(&mut self, claimed: bool, now: Timestamp) -> (r: SearchStep)
        requires
            search_wf(old(self)@),
            old(self)@.stage is Claim,
        ensures
            (final(self)@, r@) == after_claim(old(self)@, claimed, now),
            search_wf(final(self)@),
    {
        if claimed {
            return self.advance();
        }
        let mut stage = Stage::Loading;
        std::mem::swap(&mut stage, &mut self.stage);
        match stage {
            Stage::Claim(s) => self.decide(s, now),
            _ => SearchStep::Done,
        }
    }

    /// Go on after the snapshot was stored.
    pub fn on_saved(&mut self) -> (r: SearchStep)
        requires
            search_wf(old(self)@),
            old(self)@.stage is Saving,
        ensures
            (final(self)@, r@) == after_save(old(self)@),
            search_wf(final(self)@),
    {
        let mut stage = Stage::Loading;
        std::mem::swap(&mut stage, &mut self.stage);
        match stage {
            Stage::Saving(t) => self.settle(t),
            _ => SearchStep::Done,
        }
    }

    /// The tasks that were found.
    pub fn into_found(self) -> (r: Vec<AvailableTask>)
        ensures
            offers(r@) == self@.found,
    {
        self.found
    }
}

/// There is room for a task more, or the search is over with no more tasks than asked
/// for. A limit of 0 still lets one task in.
pub open spec fn within_limit(s: Search) -> bool {
    if s.stage is Finished {
        s.found.len() <= s.limit || s.found.len() <= 1
    } else {
        s.found.len() < s.limit || s.found.len() == 0
    }
}

/// Whatever the answers are, a search never finds more tasks than asked for; a limit of
/// 0 lets one in.
pub proof fn law_search_keeps_limit(
    s: Search,
    pending: bool,
    claimed: bool,
    loaded: Option<Snap>,
    now: Timestamp,
)
    requires
        within_limit(s),
        !(s.stage is Finished),
    ensures
        within_limit(after_signals(s, pending).0),
        within_limit(after_load(s, loaded, now).0),
        s.stage is Claim ==> within_limit(after_claim(s, claimed, now).0),
        s.stage is Saving ==> within_limit(after_save(s).0),
{
}

/// Every step of a search leaves fewer questions: it takes up another instance, goes on
/// to the next question about the one at hand, or ends.
pub open spec fn questions_left(s: Search) -> nat {
    let here: nat = match s.stage {
        StageSpec::Signals => 4,
        StageSpec::Loading => 3,
        StageSpec::Claim(_) => 2,
        StageSpec::Saving(_) => 1,
        StageSpec::Finished => 0,
    };
    ((s.instances.len() - s.taken) * 4 + here) as nat
}

/// A search comes to an end, whatever the answers are.
pub proof fn law_search_ends(
    s: Search,
    pending: bool,
    claimed: bool,
    loaded: Option<Snap>,
    now: Timestamp,
)
    requires
        search_wf(s),
    ensures
        s.stage is Signals ==> questions_left(after_signals(s, pending).0) < questions_left(s),
        s.stage is Loading ==> questions_left(after_load(s, loaded, now).0) < questions_left(s),
        s.stage is Claim ==> questions_left(after_claim(s, claimed, now).0) < questions_left(s),
        s.stage is Saving ==> questions_left(after_save(s).0) < questions_left(s),
{
}

} // verus!
