use vstd::prelude::*;

use crate::raster::{depicts, grid_cols, is_rectangular, rasterize, RasterImage};
use crate::terrain::Tile;

verus! {

/// How many failed frames `finalize` tolerates before giving up.
pub const MAX_FAILURE_TOLERANCE: usize = 5;

/// How many poll cycles pass before the failure budget is looked at.
pub const MAX_WAITING_CYCLES: usize = 10;

/// How many times a frame's image is written at most.
pub const MAX_SAVE_ATTEMPTS: usize = 2;

/// Why writing a frame's image failed.
#[derive(Clone, Copy, Debug, PartialEq, Eq, Structural)]
pub enum SaveError {
    Decoding,
    Encoding,
    Unsupported,
    Io,
    /// Any other failure; it may go away when tried again.
    Other,
}

impl SaveError {
    /// Failures that another attempt cannot mend.
    pub open spec fn is_terminal(self) -> bool {
        !(self is Other)
    }
}

/// How a frame's persist task ended.
#[derive(Clone, Copy, Debug, PartialEq, Eq, Structural)]
pub enum Outcome {
    Saved,
    Failed,
}

/// What a persist task does after an attempt to write its frame.
#[derive(Clone, Copy, Debug, PartialEq, Eq, Structural)]
pub enum PersistStep {
    Retry,
    Finish(Outcome),
}

/// What `finalize` does after looking at the ledger.
#[derive(Clone, Copy, Debug, PartialEq, Eq, Structural)]
pub enum FinalizeStep {
    /// Every received frame is saved: assemble the video.
    Encode,
    /// Frames are still in flight: sleep one poll interval and look again.
    Wait,
    /// Too many frames failed: give up without encoding.
    TooManyFailures,
}

/// The step a persist task takes after its `attempts`-th attempt ended with `result`.
pub open spec fn persist_step_spec(attempts: nat, result: Result<(), SaveError>) -> PersistStep {
    match result {
        Ok(()) => PersistStep::Finish(Outcome::Saved),
        Err(e) => if !e.is_terminal() && attempts < MAX_SAVE_ATTEMPTS {
            PersistStep::Retry
        } else {
            PersistStep::Finish(Outcome::Failed)
        },
    }
}

/// Decides what a persist task does after its `attempts`-th attempt: a success is saved, a
/// terminal failure fails at once, any other failure is tried once more and then fails.
pub fn next_persist_step(attempts: usize, result: &Result<(), SaveError>) -> (r: PersistStep)
    requires
        attempts >= 1,
    ensures
        r == persist_step_spec(attempts as nat, *result),
{
    match result {
        Ok(()) => PersistStep::Finish(Outcome::Saved),
        Err(SaveError::Other) => {
            if attempts < MAX_SAVE_ATTEMPTS {
                PersistStep::Retry
            } else {
                PersistStep::Finish(Outcome::Failed)
            }
        },
        Err(_) => PersistStep::Finish(Outcome::Failed),
    }
}

/// The number of `true` entries.
pub open spec fn count_true(s: Seq<bool>) -> nat
    decreases s.len(),
{
    if s.len() == 0 {
        0
    } else {
        count_true(s.drop_last()) + if s.last() {
            1nat
        } else {
            0nat
        }
    }
}

proof fn lemma_count_push(s: Seq<bool>, b: bool)
    ensures
        count_true(s.push(b)) == count_true(s) + if b {
            1nat
        } else {
            0nat
        },
{
    assert(s.push(b).drop_last() =~= s);
}

proof fn lemma_count_set(s: Seq<bool>, k: int)
    requires
        0 <= k < s.len(),
        !s[k],
    ensures
        count_true(s.update(k, true)) == count_true(s) + 1,
    decreases s.len(),
{
    let t = s.update(k, true);
    if k == s.len() - 1 {
        assert(t.drop_last() =~= s.drop_last());
    } else {
        assert(t.drop_last() =~= s.drop_last().update(k, true));
        lemma_count_set(s.drop_last(), k);
    }
}

proof fn lemma_count_bound(s: Seq<bool>)
    ensures
        count_true(s) <= s.len(),
        (forall|k: int| 0 <= k < s.len() ==> #[trigger] s[k]) ==> count_true(s) == s.len(),
    decreases s.len(),
{
    if s.len() > 0 {
        lemma_count_bound(s.drop_last());
        if forall|k: int| 0 <= k < s.len() ==> #[trigger] s[k] {
            assert forall|k: int| 0 <= k < s.drop_last().len() implies #[trigger] s.drop_last()[k] by {
                assert(s[k]);
            };
            assert(s[s.len() - 1]);
        }
    }
}

/// The ledger's state: frames received so far, how many of them were saved or failed,
/// and for each frame id whether its persist task has settled.
pub struct LedgerView {
    pub received: nat,
    pub saved: nat,
    pub failed: nat,
    pub settled: Seq<bool>,
}

impl LedgerView {
    /// The freshly constructed ledger.
    pub open spec fn initial() -> LedgerView {
        LedgerView { received: 0, saved: 0, failed: 0, settled: Seq::empty() }
    }

    /// One id per received frame, and every settled frame counted once, as saved or failed.
    pub open spec fn wf(self) -> bool {
        &&& self.settled.len() == self.received
        &&& self.saved + self.failed == count_true(self.settled)
    }

    /// No persist task is in flight.
    pub open spec fn is_quiescent(self) -> bool {
        forall|id: int| 0 <= id < self.received ==> #[trigger] self.settled[id]
    }

    /// The ledger after one more frame is received.
    pub open spec fn add(self) -> LedgerView {
        LedgerView { received: self.received + 1, settled: self.settled.push(false), ..self }
    }

    /// Whether a report for frame `id` is taken: the frame exists and has not settled yet.
    pub open spec fn accepts(self, id: nat) -> bool {
        id < self.received && !self.settled[id as int]
    }

    /// The ledger after frame `id` reports `outcome`; a report that is not taken changes nothing.
    pub open spec fn record(self, id: nat, outcome: Outcome) -> LedgerView {
        if self.accepts(id) {
            LedgerView {
                saved: if outcome is Saved {
                    self.saved + 1
                } else {
                    self.saved
                },
                failed: if outcome is Failed {
                    self.failed + 1
                } else {
                    self.failed
                },
                settled: self.settled.update(id as int, true),
                ..self
            }
        } else {
            self
        }
    }

    /// What `finalize` does at poll cycle `cycles`.
    pub open spec fn decision(self, cycles: nat) -> FinalizeStep {
        if self.received == self.saved {
            FinalizeStep::Encode
        } else if cycles >= MAX_WAITING_CYCLES && self.failed >= MAX_FAILURE_TOLERANCE {
            FinalizeStep::TooManyFailures
        } else {
            FinalizeStep::Wait
        }
    }

    /// The ledger after `n` more frames are received.
    pub open spec fn add_n(self, n: nat) -> LedgerView
        decreases n,
    {
        if n == 0 {
            self
        } else {
            self.add_n((n - 1) as nat).add()
        }
    }

    /// The ledger after the frames of `ids` report `outcome`, in that order.
    pub open spec fn record_all(self, ids: Seq<nat>, outcome: Outcome) -> LedgerView
        decreases ids.len(),
    {
        if ids.len() == 0 {
            self
        } else {
            self.record_all(ids.drop_last(), outcome).record(ids.last(), outcome)
        }
    }
}

/// Every frame counted as saved or failed has a settled persist task, so the two counts
/// together never exceed the frames received; once no task is in flight,
/// `received == saved + failed`.
pub proof fn lemma_quiescent_counts(v: LedgerView)
    requires
        v.wf(),
    ensures
        v.saved + v.failed <= v.received,
        v.is_quiescent() ==> v.received == v.saved + v.failed,
{
    lemma_count_bound(v.settled);
}

/// Once the waiting cycles are over, a ledger with at least the tolerated number of
/// failed frames makes `finalize` give up instead of waiting forever.
pub proof fn lemma_failure_budget(v: LedgerView, cycles: nat)
    requires
        v.wf(),
        v.failed >= MAX_FAILURE_TOLERANCE,
        cycles >= MAX_WAITING_CYCLES,
    ensures
        v.decision(cycles) == FinalizeStep::TooManyFailures,
{
    lemma_count_bound(v.settled);
}

proof fn lemma_add_n(n: nat)
    ensures
        LedgerView::initial().add_n(n).wf(),
        LedgerView::initial().add_n(n).received == n,
        LedgerView::initial().add_n(n).saved == 0,
        LedgerView::initial().add_n(n).failed == 0,
        LedgerView::initial().add_n(n).settled =~= Seq::new(n, |k: int| false),
    decreases n,
{
    if n > 0 {
        lemma_add_n((n - 1) as nat);
        let prev = LedgerView::initial().add_n((n - 1) as nat);
        lemma_count_push(prev.settled, false);
    } else {
        assert(LedgerView::initial().add_n(0).settled =~= Seq::<bool>::empty());
    }
}

proof fn lemma_record_all_saved(n: nat, ids: Seq<nat>)
    requires
        ids.no_duplicates(),
        forall|k: int| 0 <= k < ids.len() ==> #[trigger] ids[k] < n,
    ensures
        ({
            let v = LedgerView::initial().add_n(n).record_all(ids, Outcome::Saved);
            &&& v.wf()
            &&& v.received == n
            &&& v.saved == ids.len()
            &&& v.failed == 0
            &&& forall|k: int| 0 <= k < n ==> (#[trigger] v.settled[k] <==> ids.contains(k as nat))
        }),
    decreases ids.len(),
{
    lemma_add_n(n);
    if ids.len() > 0 {
        let init = ids.drop_last();
        assert(init.no_duplicates()) by {
            assert forall|a: int, b: int| 0 <= a < b < init.len() implies init[a] != init[b] by {
                assert(ids[a] != ids[b]);
            };
        };
        assert forall|k: int| 0 <= k < init.len() implies #[trigger] init[k] < n by {
            assert(ids[k] < n);
        };
        lemma_record_all_saved(n, init);
        let prev = LedgerView::initial().add_n(n).record_all(init, Outcome::Saved);
        let id = ids.last();
        assert(id < n) by {
            assert(ids[ids.len() - 1] < n);
        };
        assert(!init.contains(id)) by {
            if init.contains(id) {
                let j = choose|j: int| 0 <= j < init.len() && init[j] == id;
                assert(ids[j] == ids[ids.len() - 1]);
            }
        };
        assert(!prev.settled[id as int]);
        lemma_count_set(prev.settled, id as int);
        let v = prev.record(id, Outcome::Saved);
        assert forall|k: int| 0 <= k < n implies (#[trigger] v.settled[k] <==> ids.contains(
            k as nat,
        )) by {
            if k == id {
                assert(ids[ids.len() - 1] == id);
            } else {
                assert(v.settled[k] == prev.settled[k]);
                if ids.contains(k as nat) {
                    let j = choose|j: int| 0 <= j < ids.len() && ids[j] == k as nat;
                    assert(j < ids.len() - 1);
                    assert(init[j] == k as nat);
                }
                if init.contains(k as nat) {
                    let j = choose|j: int| 0 <= j < init.len() && init[j] == k as nat;
                    assert(ids[j] == k as nat);
                }
            }
        };
    } else {
        assert forall|k: int| 0 <= k < n implies !(#[trigger] LedgerView::initial().add_n(
            n,
        ).settled[k]) && !ids.contains(k as nat) by {};
    }
}

/// Receiving `n` frames numbers them `0..n`; when every one of them is saved, in any order
/// and with no failure, exactly `n` frames are saved and `finalize` encodes at once.
pub proof fn lemma_all_saved_then_encode(n: nat, order: Seq<nat>, cycles: nat)
    requires
        order.len() == n,
        order.no_duplicates(),
        forall|k: int| 0 <= k < order.len() ==> #[trigger] order[k] < n,
    ensures
        forall|k: nat| k <= n ==> #[trigger] LedgerView::initial().add_n(k).received == k,
        LedgerView::initial().add_n(n).record_all(order, Outcome::Saved).saved == n,
        LedgerView::initial().add_n(n).record_all(order, Outcome::Saved).failed == 0,
        LedgerView::initial().add_n(n).record_all(order, Outcome::Saved).is_quiescent(),
        LedgerView::initial().add_n(n).record_all(order, Outcome::Saved).decision(cycles)
            == FinalizeStep::Encode,
{
    assert forall|k: nat| k <= n implies #[trigger] LedgerView::initial().add_n(k).received
        == k by {
        lemma_add_n(k);
    };
    lemma_record_all_saved(n, order);
    let v = LedgerView::initial().add_n(n).record_all(order, Outcome::Saved);
    assert forall|id: int| 0 <= id < v.received implies #[trigger] v.settled[id] by {
        assert(v.settled[id] <==> order.contains(id as nat));
        lemma_saved_order_covers(n, order, id as nat);
    };
}

proof fn lemma_saved_order_covers(n: nat, order: Seq<nat>, id: nat)
    requires
        order.len() == n,
        order.no_duplicates(),
        forall|k: int| 0 <= k < order.len() ==> #[trigger] order[k] < n,
        id < n,
    ensures
        order.contains(id),
{
    let s = order.to_set();
    order.unique_seq_to_set();
    assert(s.len() == n);
    let full = Set::new(|k: nat| k < n);
    assert(s.subset_of(full));
    lemma_nat_range_finite_len(n);
    if !order.contains(id) {
        assert(!s.contains(id));
        assert(s.subset_of(full.remove(id)));
        vstd::set_lib::lemma_len_subset(s, full.remove(id));
    }
}

proof fn lemma_nat_range_finite_len(n: nat)
    ensures
        Set::new(|k: nat| k < n).finite(),
        Set::new(|k: nat| k < n).len() == n,
    decreases n,
{
    if n == 0 {
        assert(Set::new(|k: nat| k < 0) =~= Set::<nat>::empty());
    } else {
        lemma_nat_range_finite_len((n - 1) as nat);
        assert(Set::new(|k: nat| k < n) =~= Set::new(|k: nat| k < (n - 1) as nat).insert(
            (n - 1) as nat,
        ));
    }
}

/// One rasterized snapshot, with its position in the sequence.
pub struct Frame {
    image: RasterImage,
    id: usize,
}

impl Frame {
    pub closed spec fn spec_image(&self) -> RasterImage {
        self.image
    }

    pub closed spec fn spec_id(&self) -> nat {
        self.id as nat
    }

    /// Rasterizes the discovered map into a frame numbered `id`; no map gives an empty image.
    pub fn new_from_robot_map(robot_map: &Option<Vec<Vec<Option<Tile>>>>, id: usize) -> (f: Frame)
        requires
            robot_map matches Some(grid) ==> is_rectangular(grid@) && grid@.len() * grid_cols(
                grid@,
            ) * 4 <= usize::MAX,
        ensures
            f.spec_id() == id,
            robot_map matches Some(grid) ==> depicts(f.spec_image(), grid@),
            robot_map is None ==> depicts(f.spec_image(), Seq::<Vec<Option<Tile>>>::empty()),
    {
        let image = match robot_map {
            Some(grid) => rasterize(grid),
            None => {
                let empty: Vec<Vec<Option<Tile>>> = Vec::new();
                assert(grid_cols(empty@) == 0 && empty@.len() == 0);
                rasterize(&empty)
            },
        };
        Frame { image, id }
    }

    pub fn image(&self) -> (r: &RasterImage)
        ensures
            *r == self.spec_image(),
    {
        &self.image
    }

    pub fn id(&self) -> (r: usize)
        ensures
            r == self.spec_id(),
    {
        self.id
    }
}

/// Counts the frames received, saved and failed, and decides when the sequence is complete.
pub struct Frames {
    received_frames: usize,
    saved_frames: usize,
    fails: usize,
    settled: Vec<bool>,
}

impl View for Frames {
    type V = LedgerView;

    closed spec fn view(&self) -> LedgerView {
        LedgerView {
            received: self.received_frames as nat,
            saved: self.saved_frames as nat,
            failed: self.fails as nat,
            settled: self.settled@,
        }
    }
}

impl Frames {
    pub open spec fn wf(&self) -> bool {
        self@.wf()
    }

    /// An empty ledger.
    pub fn new() -> (r: Frames)
        ensures
            r.wf(),
            r@ == LedgerView::initial(),
    {
        let r = Frames { received_frames: 0, saved_frames: 0, fails: 0, settled: Vec::new() };
        assert(r@.settled =~= Seq::<bool>::empty());
        r
    }

    /// Takes a snapshot of the discovered map. Without a map nothing happens. Otherwise the
    /// map is rasterized into a frame whose id is the number of frames received before, the
    /// frame is counted as received and in flight, and it is handed back to be persisted.
    pub fn add_frame(&mut self, robot_map: &Option<Vec<Vec<Option<Tile>>>>) -> (r: Option<Frame>)
        requires
            old(self).wf(),
            robot_map matches Some(grid) ==> is_rectangular(grid@) && grid@.len() * grid_cols(
                grid@,
            ) * 4 <= usize::MAX && old(self)@.received < usize::MAX,
        ensures
            final(self).wf(),
            robot_map is None ==> r is None && final(self)@ == old(self)@,
            robot_map matches Some(grid) ==> (r matches Some(f) && f.spec_id() == old(
                self,
            )@.received && depicts(f.spec_image(), grid@) && final(self)@ == old(self)@.add()),
    {
        match robot_map {
            None => None,
            Some(_) => {
                let frame = Frame::new_from_robot_map(robot_map, self.received_frames);
                proof {
                    lemma_count_push(self.settled@, false);
                }
                self.received_frames = self.received_frames + 1;
                self.settled.push(false);
                Some(frame)
            },
        }
    }

    /// Records how the persist task of frame `id` ended. A frame is counted once: a report
    /// for an unknown or already settled id is ignored, and `false` is returned.
    pub fn record_outcome(&mut self, id: usize, outcome: Outcome) -> (accepted: bool)
        requires
            old(self).wf(),
        ensures
            final(self).wf(),
            accepted == old(self)@.accepts(id as nat),
            final(self)@ == old(self)@.record(id as nat, outcome),
    {
        if id < self.received_frames && !self.settled[id] {
            proof {
                lemma_count_set(self.settled@, id as int);
                lemma_count_bound(self.settled@.update(id as int, true));
            }
            match outcome {
                Outcome::Saved => {
                    self.saved_frames = self.saved_frames + 1;
                },
                Outcome::Failed => {
                    self.fails = self.fails + 1;
                },
            }
            self.settled.set(id, true);
            true
        } else {
            false
        }
    }

    /// What `finalize` does at poll cycle `cycles`: encode once every received frame is
    /// saved; after the waiting cycles, give up if the failure budget is spent; else wait.
    pub fn finalize_step(&self, cycles: usize) -> (r: FinalizeStep)
        ensures
            r == self@.decision(cycles as nat),
    {
        if self.received_frames == self.saved_frames {
            FinalizeStep::Encode
        } else if cycles >= MAX_WAITING_CYCLES && self.fails >= MAX_FAILURE_TOLERANCE {
            FinalizeStep::TooManyFailures
        } else {
            FinalizeStep::Wait
        }
    }

    pub fn received(&self) -> (r: usize)
        ensures
            r == self@.received,
    {
        self.received_frames
    }

    pub fn saved(&self) -> (r: usize)
        ensures
            r == self@.saved,
    {
        self.saved_frames
    }

    pub fn failed(&self) -> (r: usize)
        ensures
            r == self@.failed,
    {
        self.fails
    }
}

} // verus!
