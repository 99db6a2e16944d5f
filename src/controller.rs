use vstd::prelude::*;

use crate::catalog::str_eq;

verus! {

/// Whether the collision that brought the retry counter to `retries` is
/// logged: every one below 1000, then every 100th below 3000, every 250th
/// below 5000, and every 500th beyond.
pub open spec fn log_policy(retries: u32) -> bool {
    if retries < 1000 {
        true
    } else if retries < 3000 {
        retries % 100 == 0
    } else if retries < 5000 {
        retries % 250 == 0
    } else {
        retries % 500 == 0
    }
}

/// The log-suppression decision for a collision.
pub fn check_log_existing_dna(retries: u32) -> (r: bool)
    ensures
        r == log_policy(retries),
{
    if retries < 1000 {
        true
    } else if retries < 3000 {
        retries % 100 == 0
    } else if retries < 5000 {
        retries % 250 == 0
    } else {
        retries % 500 == 0
    }
}

/// What became of one offered fingerprint.
#[derive(Debug, Clone, Copy, PartialEq, Eq, Structural)]
pub enum Attempt {
    /// Accepted as the edition with this 1-based index.
    Accepted(u32),
    /// Already known; the retry counter now stands at `retries`, and `log`
    /// says whether this collision is to be logged.
    Collided { retries: u32, log: bool },
}

pub struct ControllerView {
    pub target: u32,
    pub max_retries: u32,
    pub accepted: u32,
    pub retries: u32,
    pub registry: Seq<Seq<char>>,
}

/// Drives one edition group: accepts unseen fingerprints until the target
/// is met, and counts collisions, across the whole group, up to a ceiling.
pub struct RetryController {
    target: u32,
    max_retries: u32,
    accepted: u32,
    retries: u32,
    registry: Vec<String>,
}

pub open spec fn registry_view(r: Seq<String>) -> Seq<Seq<char>> {
    r.map_values(|s: String| s@)
}

impl View for RetryController {
    type V = ControllerView;

    closed spec fn view(&self) -> ControllerView {
        ControllerView {
            target: self.target,
            max_retries: self.max_retries,
            accepted: self.accepted,
            retries: self.retries,
            registry: registry_view(self.registry@),
        }
    }
}

impl ControllerView {
    pub open spec fn is_done(self) -> bool {
        self.accepted >= self.target
    }

    pub open spec fn is_exhausted(self) -> bool {
        self.retries >= self.max_retries
    }

    pub open spec fn is_running(self) -> bool {
        !self.is_done() && !self.is_exhausted()
    }
}

impl RetryController {
    /// A controller for a group of `target` editions that gives up after
    /// `max_retries` collisions.
    pub fn new(target: u32, max_retries: u32) -> (r: RetryController)
        ensures
            r@.wf(),
            r@ == fresh(target, max_retries),
    {
        let r = RetryController { target, max_retries, accepted: 0, retries: 0, registry: Vec::new() };
        assert(registry_view(r.registry@) =~= seq![]);
        r
    }

    /// Whether `dna` was accepted before.
    pub fn is_known(&self, dna: &str) -> (r: bool)
        ensures
            r == self@.registry.contains(dna@),
    {
        let ghost reg = registry_view(self.registry@);
        let mut i: usize = 0;
        while i < self.registry.len()
            invariant
                i <= self.registry.len(),
                reg == registry_view(self.registry@),
                forall|k: int| 0 <= k < i ==> reg[k] != dna@,
            decreases self.registry.len() - i,
        {
            if str_eq(self.registry[i].as_str(), dna) {
                assert(reg[i as int] == dna@);
                return true;
            }
            i = i + 1;
        }
        false
    }

    /// The dedup gate: an unseen fingerprint is registered and accepted with
    /// the next index; a known one counts as one more collision.
    pub fn offer(&mut self, dna: String) -> (r: Attempt)
        requires
            old(self)@.wf(),
            old(self)@.is_running(),
        ensures
            final(self)@ == offer_step(old(self)@, dna@),
            final(self)@.wf(),
            old(self)@.registry.contains(dna@) ==> r == (Attempt::Collided {
                retries: final(self)@.retries,
                log: log_policy(final(self)@.retries),
            }),
            !old(self)@.registry.contains(dna@) ==> r == Attempt::Accepted(final(self)@.accepted),
    {
        proof {
            lemma_offer_preserves(self@, dna@);
        }
        if self.is_known(dna.as_str()) {
            self.retries = self.retries + 1;
            let retries = self.retries;
            Attempt::Collided { retries, log: check_log_existing_dna(retries) }
        } else {
            let ghost before = registry_view(self.registry@);
            self.registry.push(dna);
            self.accepted = self.accepted + 1;
            assert(registry_view(self.registry@) =~= before.push(dna@));
            Attempt::Accepted(self.accepted)
        }
    }

    pub fn is_done(&self) -> (r: bool)
        ensures
            r == self@.is_done(),
    {
        self.accepted >= self.target
    }

    pub fn is_exhausted(&self) -> (r: bool)
        ensures
            r == self@.is_exhausted(),
    {
        self.retries >= self.max_retries
    }

    /// Whether another attempt is due.
    pub fn is_running(&self) -> (r: bool)
        ensures
            r == self@.is_running(),
    {
        !self.is_done() && !self.is_exhausted()
    }

    /// How many editions the group is short of its target.
    pub fn shortfall(&self) -> (r: u32)
        requires
            self@.wf(),
        ensures
            r == self@.target - self@.accepted,
    {
        self.target - self.accepted
    }

    pub fn get_accepted(&self) -> (r: u32)
        ensures
            r == self@.accepted,
    {
        self.accepted
    }

    pub fn get_retries(&self) -> (r: u32)
        ensures
            r == self@.retries,
    {
        self.retries
    }

    pub fn get_target(&self) -> (r: u32)
        ensures
            r == self@.target,
    {
        self.target
    }
}

/// The state after offering `dna` to a running controller in state `v`.
pub open spec fn offer_step(v: ControllerView, dna: Seq<char>) -> ControllerView {
    if v.registry.contains(dna) {
        ControllerView { retries: (v.retries + 1) as u32, ..v }
    } else {
        ControllerView { accepted: (v.accepted + 1) as u32, registry: v.registry.push(dna), ..v }
    }
}

impl ControllerView {
    /// The registry holds one fingerprint per accepted edition, no two alike;
    /// the counters stay within the target and the retry ceiling.
    pub open spec fn wf(self) -> bool {
        &&& self.registry.len() == self.accepted
        &&& self.accepted <= self.target
        &&& self.retries <= self.max_retries
        &&& forall|i: int, j: int|
            0 <= i < self.registry.len() && 0 <= j < self.registry.len() && i != j
                ==> self.registry[i] != self.registry[j]
    }
}

/// Offering a fingerprint keeps the invariants: no fingerprint is ever
/// accepted twice in a group, the retry counter never passes its ceiling,
/// and a collision never advances the accepted count.
pub proof fn lemma_offer_preserves(v: ControllerView, dna: Seq<char>)
    requires
        v.wf(),
        v.is_running(),
    ensures
        offer_step(v, dna).wf(),
        offer_step(v, dna).accepted + offer_step(v, dna).retries == v.accepted + v.retries + 1,
        v.registry.contains(dna) ==> offer_step(v, dna).accepted == v.accepted,
{
    let w = offer_step(v, dna);
    if !v.registry.contains(dna) {
        assert forall|i: int, j: int|
            0 <= i < w.registry.len() && 0 <= j < w.registry.len() && i != j implies w.registry[i]
            != w.registry[j] by {
            if i == v.registry.len() as int {
                assert(w.registry[j] == v.registry[j]);
            } else if j == v.registry.len() as int {
                assert(w.registry[i] == v.registry[i]);
            }
        }
    }
}

/// The state of a fresh controller.
pub open spec fn fresh(target: u32, max_retries: u32) -> ControllerView {
    ControllerView { target, max_retries, accepted: 0, retries: 0, registry: seq![] }
}

/// The state after the fingerprints `dnas` were generated in turn, each
/// offered while the controller was still running.
pub open spec fn offer_all(v: ControllerView, dnas: Seq<Seq<char>>) -> ControllerView
    decreases dnas.len(),
{
    if dnas.len() == 0 {
        v
    } else {
        let w = offer_all(v, dnas.drop_last());
        if w.is_running() {
            offer_step(w, dnas.last())
        } else {
            w
        }
    }
}

/// Whatever fingerprints a group's attempts produce, the group never accepts
/// one twice and never counts more than `max_retries` collisions.
pub proof fn lemma_any_run_wf(target: u32, max_retries: u32, dnas: Seq<Seq<char>>)
    ensures
        offer_all(fresh(target, max_retries), dnas).wf(),
    decreases dnas.len(),
{
    if dnas.len() > 0 {
        lemma_any_run_wf(target, max_retries, dnas.drop_last());
        let w = offer_all(fresh(target, max_retries), dnas.drop_last());
        if w.is_running() {
            lemma_offer_preserves(w, dnas.last());
        }
    }
}

} // verus!
