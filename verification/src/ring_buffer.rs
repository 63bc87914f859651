//! What the reading side of a sample ring sees at one moment.
//!
//! The writing side runs elsewhere. Before each round of reading the owner of a channel puts the
//! window of samples that can be read now into its `RBOutput`.

use vstd::prelude::*;
use crate::common::{clock_distance, wrapped_diff, Clock, Sample};

verus! {

/// Which part of a requested block holds samples that were really in the ring:
/// `useful_start_index..useful_end_index`.
#[derive(Debug, Clone, Copy, PartialEq, Eq, Structural)]
pub struct ReadResult {
    pub useful_start_index: usize,
    pub useful_end_index: usize,
}

/// The readable end of a sample ring: samples in order of time, the first of them at the timestamp
/// `window_start`. They need not reach up to `readable_until`.
#[derive(Debug, Clone)]
pub struct RBOutput {
    /// The timestamp after the newest readable sample.
    pub readable_until: Clock,
    /// The timestamp of the first of `samples`.
    pub window_start: Clock,
    /// The readable samples, oldest first.
    pub samples: Vec<Sample>,
    /// How many gaps the writing side has given up waiting for.
    pub holes_count: usize,
    /// Up to where the reader has said that it needs nothing any more.
    pub done_until: Option<Clock>,
}

impl RBOutput {
    /// The position in the window of the sample with the timestamp `start`; negative before the
    /// window.
    pub open spec fn offset_of(self, start: Clock) -> int {
        clock_distance(start, self.window_start)
    }

    /// Whether item `j` of a block that begins at `start` lies in the window.
    pub open spec fn has(self, start: Clock, j: int) -> bool {
        0 <= self.offset_of(start) + j < self.samples@.len()
    }

    /// The sample at item `j` of a block that begins at `start`.
    pub open spec fn sample(self, start: Clock, j: int) -> Sample {
        self.samples@[self.offset_of(start) + j]
    }

    /// Where the useful part of a block of `n` samples from `start` begins: at the first of its
    /// items that lies in the window, or at 0 if none does.
    pub open spec fn useful_start(self, start: Clock, n: int) -> int {
        let off = self.offset_of(start);
        if off < 0 && off + n > 0 && self.samples@.len() > 0 {
            -off
        } else {
            0
        }
    }

    /// Where the useful part of a block of `n` samples from `start` ends: after the last of its
    /// items that lies in the window, or at 0 if none does.
    pub open spec fn useful_end(self, start: Clock, n: int) -> int {
        let off = self.offset_of(start);
        if off >= self.samples@.len() || off + n <= 0 || self.samples@.len() == 0 {
            0
        } else if off + n <= self.samples@.len() {
            n
        } else {
            self.samples@.len() - off
        }
    }

    /// The useful part of a block of `n` samples from `start`.
    pub open spec fn useful(self, start: Clock, n: usize) -> ReadResult {
        ReadResult {
            useful_start_index: self.useful_start(start, n as int) as usize,
            useful_end_index: self.useful_end(start, n as int) as usize,
        }
    }

    /// A window of `samples` that ends at `readable_until`.
    pub fn new(readable_until: Clock, samples: Vec<Sample>, holes_count: usize) -> (r: Self)
        ensures
            r.readable_until == readable_until,
            r.window_start == readable_until.wrapping_sub(samples.len()),
            r.samples == samples,
            r.holes_count == holes_count,
            r.done_until is None,
    {
        let window_start: Clock = readable_until.wrapping_sub(samples.len());
        RBOutput { readable_until, window_start, samples, holes_count, done_until: None }
    }

    /// A window of `samples` that begins at `window_start`, on a ring that can be read up to
    /// `readable_until`.
    pub fn with_window(
        readable_until: Clock,
        window_start: Clock,
        samples: Vec<Sample>,
        holes_count: usize,
    ) -> (r: Self)
        ensures
            r.readable_until == readable_until,
            r.window_start == window_start,
            r.samples == samples,
            r.holes_count == holes_count,
            r.done_until is None,
    {
        RBOutput { readable_until, window_start, samples, holes_count, done_until: None }
    }

    /// The timestamp after the newest readable sample.
    pub fn readable_until(&self) -> (t: Clock)
        ensures
            t == self.readable_until,
    {
        self.readable_until
    }

    /// How many gaps the writing side has given up waiting for.
    pub fn holes_count(&self) -> (n: usize)
        ensures
            n == self.holes_count,
    {
        self.holes_count
    }

    /// Says which part of a block of `n` samples from the timestamp `start` on lies in the window.
    pub fn useful_part(&self, start: Clock, n: usize) -> (r: ReadResult)
        ensures
            r.useful_start_index == self.useful_start(start, n as int),
            r.useful_end_index == self.useful_end(start, n as int),
            r == self.useful(start, n),
            r.useful_start_index <= r.useful_end_index <= n,
    {
        let len: usize = self.samples.len();
        let offset: isize = wrapped_diff(start, self.window_start);
        // `lead` items of the block come before the window, and the block then goes on at
        // position `first` of it.
        let (lead, first): (usize, usize) = if offset >= 0 {
            (0, offset as usize)
        } else {
            ((-(offset + 1)) as usize + 1, 0)
        };
        if lead >= n || first >= len {
            return ReadResult { useful_start_index: 0, useful_end_index: 0 };
        }
        let room: usize = n - lead;
        let left: usize = len - first;
        let count: usize = if left < room {
            left
        } else {
            room
        };
        ReadResult { useful_start_index: lead, useful_end_index: lead + count }
    }

    /// Copies the samples from the timestamp `start` on into `buffer`, as far as they are in the
    /// window, and says which part of `buffer` that was. The rest of `buffer` stays as it was.
    pub fn read_at(&self, start: Clock, buffer: &mut [Sample]) -> (r: ReadResult)
        ensures
            r.useful_start_index == self.useful_start(start, old(buffer)@.len() as int),
            r.useful_end_index == self.useful_end(start, old(buffer)@.len() as int),
            r.useful_start_index <= r.useful_end_index <= old(buffer)@.len(),
            final(buffer)@.len() == old(buffer)@.len(),
            forall|j: int|
                0 <= j < final(buffer)@.len() ==> #[trigger] final(buffer)@[j] == if self.has(
                    start,
                    j,
                ) {
                    self.sample(start, j)
                } else {
                    old(buffer)@[j]
                },
    {
        let r: ReadResult = self.useful_part(start, buffer.len());
        let len: usize = self.samples.len();
        let offset: isize = wrapped_diff(start, self.window_start);
        let mut i: usize = r.useful_start_index;
        while i < r.useful_end_index
            invariant
                r.useful_start_index <= i <= r.useful_end_index <= buffer@.len(),
                r.useful_start_index == self.useful_start(start, old(buffer)@.len() as int),
                r.useful_end_index == self.useful_end(start, old(buffer)@.len() as int),
                buffer@.len() == old(buffer)@.len(),
                len == self.samples@.len(),
                offset == self.offset_of(start),
                forall|j: int|
                    0 <= j < buffer@.len() ==> #[trigger] buffer@[j] == if r.useful_start_index <= j
                        < i {
                        self.samples@[offset + j]
                    } else {
                        old(buffer)@[j]
                    },
            decreases r.useful_end_index - i,
        {
            // The position of the item in the window.
            assert(0 <= offset + i < len);
            let at: usize = if offset >= 0 {
                offset as usize + i
            } else {
                i - ((-(offset + 1)) as usize + 1)
            };
            buffer[i] = self.samples[at];
            i += 1;
        }
        r
    }

    /// Notes that the reader needs nothing before the timestamp `until` any more.
    pub fn read_done(&mut self, until: Clock)
        ensures
            final(self).done_until == Some(until),
            final(self).readable_until == old(self).readable_until,
            final(self).window_start == old(self).window_start,
            final(self).samples == old(self).samples,
            final(self).holes_count == old(self).holes_count,
    {
        self.done_until = Some(until);
    }
}

/// A block that lies in the window is read back whole: every item of it is useful, and item `j`
/// is the sample `j` places after the first.
pub proof fn law_read_inside_window(source: RBOutput, start: Clock, n: int)
    requires
        0 < n,
        0 <= source.offset_of(start),
        source.offset_of(start) + n <= source.samples@.len(),
    ensures
        source.useful_start(start, n) == 0,
        source.useful_end(start, n) == n,
        forall|j: int|
            0 <= j < n ==> source.has(start, j) && #[trigger] source.sample(start, j)
                == source.samples@[source.offset_of(start) + j],
{
}

/// The useful part of any block is exactly the part that lies in the window. It is stated as the
/// empty part at the beginning if nothing of the block does.
pub proof fn law_useful_part_is_window_part(source: RBOutput, start: Clock, n: int, j: int)
    requires
        0 <= j < n,
    ensures
        source.has(start, j) <==> source.useful_start(start, n) <= j < source.useful_end(start, n),
        0 <= source.useful_start(start, n) <= source.useful_end(start, n) <= n,
        (forall|i: int| 0 <= i < n ==> !(#[trigger] source.has(start, i))) ==> source.useful_start(
            start,
            n,
        ) == 0 && source.useful_end(start, n) == 0,
{
    let first = source.useful_start(start, n);
    assert(first < source.useful_end(start, n) ==> source.has(start, first));
}

/// A block finds the samples by their timestamps: the item of the block that has the timestamp of
/// sample `k` of the window is this sample.
pub proof fn law_samples_are_found_by_timestamp(
    source: RBOutput,
    k: usize,
    start: Clock,
    j: usize,
)
    requires
        source.samples@.len() <= isize::MAX,
        k < source.samples@.len(),
        j <= isize::MAX,
        source.window_start.wrapping_add(k) == start.wrapping_add(j),
    ensures
        source.has(start, j as int),
        source.sample(start, j as int) == source.samples@[k as int],
{
}

/// An item that a block finds in the window has the timestamp of a sample there, and is this
/// sample.
pub proof fn law_found_samples_have_the_timestamp(source: RBOutput, start: Clock, j: usize) -> (k:
    usize)
    requires
        source.samples@.len() <= isize::MAX,
        j <= isize::MAX,
        source.has(start, j as int),
    ensures
        k < source.samples@.len(),
        source.window_start.wrapping_add(k) == start.wrapping_add(j),
        source.sample(start, j as int) == source.samples@[k as int],
{
    (source.offset_of(start) + j) as usize
}

} // verus!
