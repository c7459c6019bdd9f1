use crate::scaler::{Workload, WorkloadEvent};
use rip_shuffle::RipShuffleSequential;
use vstd::prelude::*;

verus! {

/// `rand::rngs::ThreadRng`, the handle of the thread's random generator.
/// Nothing is known of what it holds.
#[verifier::external_type_specification]
#[verifier::external_body]
pub struct ExThreadRng(rand::rngs::ThreadRng);

/// `std::time::Instant`, a reading of the monotonic clock.
/// Nothing is known of what it holds.
#[verifier::external_type_specification]
#[verifier::external_body]
pub struct ExInstant(std::time::Instant);

/// `rand::thread_rng` hands out the thread's random generator. Nothing is
/// claimed of the generator or of the numbers it will give.
pub assume_specification[ rand::thread_rng ]() -> (rng: rand::rngs::ThreadRng)
;

/// `std::time::Instant::now` reads the monotonic clock. Nothing is claimed of
/// the reading.
pub assume_specification[ std::time::Instant::now ]() -> (now: std::time::Instant)
;

/// `std::time::Instant::elapsed` gives the time that has passed since the
/// reading was taken. Nothing is claimed of how long that is.
pub assume_specification[ std::time::Instant::elapsed ](started: &std::time::Instant) -> (elapsed:
    std::time::Duration)
;

/// `std::time::Duration::as_nanos` gives the whole duration in nanoseconds.
/// The duration is opaque, so nothing is claimed of the number.
pub assume_specification[ std::time::Duration::as_nanos ](duration: &std::time::Duration) -> (nanos:
    u128)
;

/// `seq_shuffle` of `rip_shuffle::RipShuffleSequential` rearranges the slice
/// in place into a random permutation: afterwards it holds the same items,
/// each as often as before, in an order that depends on the generator.
#[verifier::external_body]
fn seq_shuffle(data: &mut Vec<usize>, rng: &mut rand::rngs::ThreadRng)
    ensures
        final(data)@.len() == old(data)@.len(),
        final(data)@.to_multiset() == old(data)@.to_multiset(),
{
    data.seq_shuffle(rng)
}

/// `rip_shuffle::scatter_shuffle::sequential::NUM_BUCKETS`, the number of
/// buckets of the sequential scatter shuffle: the constant `1 << 7`.
#[verifier::external_body]
fn scatter_bucket_count() -> (count: usize)
    ensures
        count == 128,
{
    rip_shuffle::scatter_shuffle::sequential::NUM_BUCKETS
}

/// `rip_shuffle::scatter_shuffle::sequential::BASE_CASE_SIZE`, a public
/// constant of the sequential scatter shuffle: `1 << 18`.
#[verifier::external_body]
fn scatter_base_case_size() -> (size: usize)
    ensures
        size == 262144,
{
    rip_shuffle::scatter_shuffle::sequential::BASE_CASE_SIZE
}

/// The sequence `0, 1, .., size - 1`.
pub open spec fn ascending(size: nat) -> Seq<usize> {
    Seq::new(size, |i: int| i as usize)
}

/// The sequential in-place shuffle, timed with the monotonic clock, on a
/// working sequence of integers.
pub struct ShuffleWorkload {
    data: Vec<usize>,
    shuffles: Ghost<nat>,
    log: Ghost<Seq<WorkloadEvent>>,
}

impl View for ShuffleWorkload {
    type V = Seq<usize>;

    /// The working sequence.
    closed spec fn view(&self) -> Seq<usize> {
        self.data@
    }
}

impl ShuffleWorkload {
    /// How often the working sequence has been shuffled since it was filled.
    pub closed spec fn shuffle_count(&self) -> nat {
        self.shuffles@
    }

    /// A workload with an empty working sequence that has done nothing yet.
    pub fn new() -> (workload: ShuffleWorkload)
        ensures
            workload@ == Seq::<usize>::empty(),
            workload.shuffle_count() == 0,
            workload.history() == Seq::<WorkloadEvent>::empty(),
    {
        ShuffleWorkload { data: Vec::new(), shuffles: Ghost(0), log: Ghost(Seq::empty()) }
    }

    /// The bucket count that is recorded for the shuffle under test: the
    /// constant `NUM_BUCKETS` of the sequential scatter shuffle.
    pub fn bucket_count() -> (count: usize)
        ensures
            count == 128,
    {
        scatter_bucket_count()
    }

    /// The threshold that is recorded for the shuffle under test: the
    /// constant `BASE_CASE_SIZE` of the sequential scatter shuffle.
    pub fn base_case_threshold() -> (size: usize)
        ensures
            size == 262144,
    {
        scatter_base_case_size()
    }

    /// The working sequence, in its present order.
    pub fn data(&self) -> (data: &Vec<usize>)
        ensures
            data@ == self@,
    {
        &self.data
    }

    /// Replaces the working sequence by a fresh one, `0, 1, .., size - 1`,
    /// that has not been shuffled.
    pub fn fill(&mut self, size: usize)
        ensures
            final(self)@ == ascending(size as nat),
            final(self).shuffle_count() == 0,
            final(self).history() == old(self).history().push(WorkloadEvent::Prepared { size }),
    {
        let mut data: Vec<usize> = Vec::new();
        let mut next: usize = 0;
        while next < size
            invariant
                next <= size,
                data@ == ascending(next as nat),
            decreases size - next,
        {
            data.push(next);
            next = next + 1;
            assert(data@ =~= ascending(next as nat));
        }
        self.data = data;
        self.shuffles = Ghost(0);
        self.log = Ghost(self.log@.push(WorkloadEvent::Prepared { size }));
    }

    /// Shuffles the working sequence `run_count` times in immediate
    /// succession and returns the time that took, in nanoseconds. The
    /// sequence holds afterwards what it held before, in some order.
    pub fn timed_shuffles(&mut self, run_count: usize) -> (elapsed_ns: u128)
        ensures
            final(self)@.len() == old(self)@.len(),
            final(self)@.to_multiset() == old(self)@.to_multiset(),
            final(self).shuffle_count() == old(self).shuffle_count() + run_count,
            final(self).history() == old(self).history().push(
                WorkloadEvent::Measured { run_count, elapsed_ns },
            ),
    {
        let started = std::time::Instant::now();
        let mut run: usize = 0;
        while run < run_count
            invariant
                run <= run_count,
                self@.len() == old(self)@.len(),
                self@.to_multiset() == old(self)@.to_multiset(),
                self.shuffle_count() == old(self).shuffle_count() + run,
                self.history() == old(self).history(),
            decreases run_count - run,
        {
            let mut rng = rand::thread_rng();
            seq_shuffle(&mut self.data, &mut rng);
            self.shuffles = Ghost(self.shuffles@ + 1);
            run = run + 1;
        }
        let elapsed = started.elapsed();
        let elapsed_ns = elapsed.as_nanos();
        self.log = Ghost(self.log@.push(WorkloadEvent::Measured { run_count, elapsed_ns }));
        elapsed_ns
    }
}

impl Workload for ShuffleWorkload {
    /// The requests made of this workload, oldest first.
    closed spec fn history(&self) -> Seq<WorkloadEvent> {
        self.log@
    }

    /// Materialises the fresh working sequence `0, 1, .., size - 1`.
    fn prepare(&mut self, size: usize)
        ensures
            final(self)@ == ascending(size as nat),
            final(self).shuffle_count() == 0,
    {
        self.fill(size);
    }

    /// Shuffles the working sequence `run_count` times and returns the time
    /// that took, in nanoseconds.
    fn measure(&mut self, run_count: usize) -> (elapsed_ns: u128)
        ensures
            final(self)@.len() == old(self)@.len(),
            final(self)@.to_multiset() == old(self)@.to_multiset(),
            final(self).shuffle_count() == old(self).shuffle_count() + run_count,
    {
        self.timed_shuffles(run_count)
    }
}

} // verus!
