//! The segmented store: a fixed number of fixed-size segments of serialized
//! records, recycled oldest first.

use crate::collector::{report_views, Report, ReportView};
use crate::history::{decode_records, is_encoding, verdict, well_formed, History};
use crate::wire::{bare_encoding, decode, encode};
use vstd::prelude::*;

verus! {

/// The number of bytes in a kibibyte.
pub const ONE_KB: usize = 1024;

/// The size of a segment of the shared cache, in bytes.
pub const PAGE_SIZE: usize = 256 * ONE_KB;

/// The number of segments of the shared cache.
pub const PAGES: usize = 5;

/// The store in the size in which the cache is shared between processes.
pub type ShmemRingBuffer = ShmemBackedSerdeRingBuffer<PAGE_SIZE, PAGES>;

/// How full a store is.
#[derive(Clone, Copy, Debug, PartialEq, Eq)]
pub struct BufferSummary {
    /// The number of records.
    pub items: usize,
    /// The number of bytes that the records take.
    pub bytes_used: usize,
    /// The mean size of a record in whole bytes, rounded down; 0 for a
    /// store without records.
    pub item_average_bytes: usize,
}

impl Default for BufferSummary {
    fn default() -> (out: Self)
        ensures
            out == (BufferSummary { items: 0, bytes_used: 0, item_average_bytes: 0 }),
    {
        BufferSummary { items: 0, bytes_used: 0, item_average_bytes: 0 }
    }
}

/// Why a write was refused.
#[derive(Clone, Copy, Debug, PartialEq, Eq)]
pub enum WriteError {
    /// The serializer gave an error.
    Encode,
    /// The record has no bytes.
    EmptyRecord,
    /// The record is longer than half a segment.
    RecordTooLarge { size: usize, capacity: usize },
}

/// One segment: room for `N` bytes, how many of them are in use, the number
/// of records in them, and where the records begin and end.
#[derive(Clone, Copy)]
struct Segment<const N: usize> {
    bytes: [u8; N],
    len: usize,
    count: usize,
    records: Ghost<Seq<Seq<u8>>>,
}

impl<const N: usize> Segment<N> {
    /// The bytes in use.
    spec fn used(self) -> Seq<u8> {
        self.bytes@.take(self.len as int)
    }

    spec fn wf(self) -> bool {
        &&& self.len <= N
        &&& self.used() == self.records@.flatten()
        &&& self.count == self.records@.len()
        &&& self.count <= self.len
    }
}

/// A store of `M` segments of `N` bytes each.
///
/// The segments lie in one block of memory that never moves or grows. They
/// are used round robin: `head` is the place of the oldest one, the places
/// after it, and then those from the first place on, hold the younger ones
/// in the order of their age.
pub struct ShmemBackedSerdeRingBuffer<const N: usize, const M: usize> {
    segments: [Segment<N>; M],
    head: usize,
}

impl<const N: usize, const M: usize> View for ShmemBackedSerdeRingBuffer<N, M> {
    type V = History;

    closed spec fn view(&self) -> History {
        History { segments: Seq::new(M as nat, |k: int| self.segments[self.place(k)].records@) }
    }
}

impl<const N: usize, const M: usize> ShmemBackedSerdeRingBuffer<N, M> {
    /// The place of the segment that is the `k`-th oldest, counted from 0.
    closed spec fn place(&self, k: int) -> int {
        if self.head + k < M {
            self.head + k
        } else {
            self.head + k - M
        }
    }

    /// The invariant of the store: each segment holds whole records in at
    /// most `N` bytes, and counts them.
    pub closed spec fn wf(&self) -> bool {
        &&& M > 0 ==> self.head < M
        &&& forall|p: int| 0 <= p < M ==> (#[trigger] self.segments[p]).wf()
    }

    /// A well-formed store has `M` segments of at most `N` bytes, and so
    /// never more than `M * N` bytes in use.
    pub proof fn lemma_wf_bounds(&self)
        requires
            self.wf(),
        ensures
            self@.segments.len() == M,
            self@.within(N),
            self@.bytes_used() <= M * N,
    {
        self@.lemma_within_bounds_bytes_used(N);
    }

    /// A store with nothing written to it.
    pub fn new() -> (out: Self)
        ensures
            out.wf(),
            out@ == History::empty(M as nat),
    {
        let segment = Segment { bytes: [0u8; N], len: 0, count: 0, records: Ghost(Seq::empty()) };
        assert(segment.used() =~= Seq::<u8>::empty());
        let out = ShmemBackedSerdeRingBuffer { segments: [segment; M], head: 0 };
        assert(out@.segments =~= History::empty(M as nat).segments);
        out
    }

    /// The place of the segment that is the `k`-th oldest.
    fn index(&self, k: usize) -> (p: usize)
        requires
            k < M,
            self.head < M,
        ensures
            p == self.place(k as int),
            p < M,
    {
        if k < M - self.head {
            self.head + k
        } else {
            k - (M - self.head)
        }
    }

    /// Empties the oldest segment and makes it the active one.
    fn rotate(&mut self)
        requires
            old(self).wf(),
            M > 0,
        ensures
            final(self).wf(),
            final(self)@ == old(self)@.rotate(),
    {
        let oldest: usize = self.head;
        self.segments[oldest].len = 0;
        self.segments[oldest].count = 0;
        self.segments[oldest].records = Ghost(Seq::empty());
        self.head = if oldest + 1 < M {
            oldest + 1
        } else {
            0
        };
        proof {
            assert(self.segments[oldest as int].used() =~= Seq::<u8>::empty());
            assert(self@.segments =~= old(self)@.rotate().segments);
        }
    }

    /// Adds one record at the end of the active segment.
    fn append(&mut self, encoded: &[u8])
        requires
            old(self).wf(),
            M > 0,
            0 < encoded@.len(),
            old(self)@.used() + encoded@.len() <= N,
        ensures
            final(self).wf(),
            final(self)@ == old(self)@.append(encoded@),
    {
        let active: usize = self.index(M - 1);
        let ghost before = self.segments[active as int];
        let start: usize = self.segments[active].len;
        let len: usize = encoded.len();
        let mut j: usize = 0;
        while j < len
            invariant
                active < M,
                len == encoded@.len(),
                start + len <= N,
                j <= len,
                self.head == old(self).head,
                forall|p: int|
                    0 <= p < M && p != active ==> self.segments[p] == old(self).segments[p],
                self.segments[active as int].len == start,
                self.segments[active as int].count == before.count,
                self.segments[active as int].records == before.records,
                self.segments[active as int].bytes@.take(start + j) == before.used()
                    + encoded@.take(j as int),
            decreases len - j,
        {
            let ghost bytes = self.segments[active as int].bytes@;
            self.segments[active].bytes[start + j] = encoded[j];
            proof {
                let now = self.segments[active as int].bytes@;
                assert(now.take(start + j + 1) =~= bytes.take(start + j).push(encoded@[j as int]));
            }
            j += 1;
        }
        self.segments[active].len = start + len;
        self.segments[active].count += 1;
        self.segments[active].records = Ghost(before.records@.push(encoded@));
        proof {
            broadcast use Seq::lemma_flatten_push;

            let after = self.segments[active as int];
            assert(after.used() =~= before.used() + encoded@);
            assert(self@.segments =~= old(self)@.append(encoded@).segments);
        }
    }

    /// Stores one serialized record.
    ///
    /// A record without bytes, or longer than half a segment, is refused and
    /// the store stays as it is. Otherwise the record goes to the end of the
    /// active segment, after a rotation where that segment lacks room.
    pub fn write_encoded(&mut self, encoded: &[u8]) -> (out: Result<(), WriteError>)
        requires
            old(self).wf(),
            M > 0,
        ensures
            final(self).wf(),
            out == verdict(encoded@.len(), N),
            final(self)@ == old(self)@.write_checked(encoded@, N),
    {
        let len: usize = encoded.len();
        if len == 0 {
            return Err(WriteError::EmptyRecord);
        }
        if N / 2 < len {
            return Err(WriteError::RecordTooLarge { size: len, capacity: N });
        }
        let active: usize = self.index(M - 1);
        let used: usize = self.segments[active].len;
        if len + 2 >= N - used {
            self.rotate();
        }
        self.append(encoded);
        Ok(())
    }

    /// Serializes `item` and stores it.
    ///
    /// Fails where the serializer does, and where `write_encoded` refuses
    /// the serialized record; the store then stays as it is.
    pub fn write(&mut self, item: Report) -> (out: Result<(), WriteError>)
        requires
            old(self).wf(),
            M > 0,
        ensures
            final(self).wf(),
            match bare_encoding(item@) {
                Some(record) => {
                    &&& out == verdict(record.len(), N)
                    &&& final(self)@ == old(self)@.write_checked(record, N)
                },
                None => {
                    &&& out == Err::<(), WriteError>(WriteError::Encode)
                    &&& final(self)@ == old(self)@
                },
            },
            old(self)@.encodes() && well_formed(item@) ==> final(self)@.encodes(),
    {
        match encode(&item) {
            Some(encoded) => {
                proof {
                    self.lemma_wf_bounds();
                    if self@.encodes() && well_formed(item@) && verdict(encoded@.len(), N) is Ok {
                        self@.lemma_write_encodes(encoded@, N);
                    }
                }
                self.write_encoded(encoded.as_slice())
            },
            None => Err(WriteError::Encode),
        }
    }

    /// The reports in the store, the oldest first.
    ///
    /// Each segment is read from its front, for as many reports as it
    /// counts; bytes that the deserializer refuses end the segment early.
    pub fn read(&self) -> (out: Vec<Report>)
        requires
            self.wf(),
        ensures
            report_views(out@) == self@.reports(),
            out@.len() <= self@.items(),
            self@.encodes() ==> out@.len() == self@.items(),
    {
        proof {
            self@.law_reads_at_most_items();
            if self@.encodes() {
                self@.law_stats_consistent();
            }
        }
        let mut results: Vec<Report> = Vec::new();
        let ghost per_segment = Seq::new(self@.segments.len(), |k: int| self@.segment_reports(k));
        let mut k: usize = 0;
        while k < M
            invariant
                self.wf(),
                k <= M,
                per_segment == Seq::new(self@.segments.len(), |k: int| self@.segment_reports(k)),
                report_views(results@) == per_segment.take(k as int).flatten(),
            decreases M - k,
        {
            let place: usize = self.index(k);
            let segment = &self.segments[place];
            let ghost before = report_views(results@);
            let (mut rest, _) = segment.bytes.as_slice().split_at(segment.len);
            let mut left: usize = segment.count;
            while left > 0
                invariant
                    report_views(results@) + decode_records(rest@, left as nat) == before
                        + per_segment[k as int],
                decreases left,
            {
                match decode(rest) {
                    Some((report, tail)) => {
                        results.push(report);
                        rest = tail;
                        left -= 1;
                    },
                    None => {
                        left = 0;
                    },
                }
            }
            proof {
                assert(per_segment.take(k + 1) =~= per_segment.take(k as int).push(
                    per_segment[k as int],
                ));
                per_segment.take(k as int).lemma_flatten_push(per_segment[k as int]);
            }
            k += 1;
        }
        proof {
            assert(per_segment.take(k as int) =~= per_segment);
        }
        results
    }

    /// How full the store is: the number of its records, the number of
    /// their bytes, and the whole bytes that a record takes on average.
    pub fn stats(&self) -> (out: BufferSummary)
        requires
            self.wf(),
            N * M <= usize::MAX,
        ensures
            out == self@.summary(),
            out.items == self@.items(),
            out.bytes_used == self@.bytes_used(),
            out.items <= out.bytes_used <= N * M,
    {
        let mut items: usize = 0;
        let mut bytes_used: usize = 0;
        let mut k: usize = 0;
        while k < M
            invariant
                self.wf(),
                N * M <= usize::MAX,
                k <= M,
                items == self@.segments.take(k as int).flatten().len(),
                bytes_used == self@.bytes().take(k as int).flatten().len(),
                items <= bytes_used <= k * N,
            decreases M - k,
        {
            let place: usize = self.index(k);
            let segment = &self.segments[place];
            proof {
                assert((k + 1) * N == k * N + N) by (nonlinear_arith);
                assert((k + 1) * N <= M * N) by (nonlinear_arith)
                    requires
                        k + 1 <= M,
                ;
                assert(N * M == M * N) by (nonlinear_arith);
                assert(self@.segments.take(k + 1) =~= self@.segments.take(k as int).push(
                    self@.segments[k as int],
                ));
                self@.segments.take(k as int).lemma_flatten_push(self@.segments[k as int]);
                assert(self@.bytes().take(k + 1) =~= self@.bytes().take(k as int).push(
                    self@.segment_bytes(k as int),
                ));
                self@.bytes().take(k as int).lemma_flatten_push(self@.segment_bytes(k as int));
            }
            items += segment.count;
            bytes_used += segment.len;
            k += 1;
        }
        proof {
            assert(self@.segments.take(k as int) =~= self@.segments);
            assert(self@.bytes().take(k as int) =~= self@.bytes());
            assert(k * N == N * M) by (nonlinear_arith)
                requires
                    k == M,
            ;
        }
        let item_average_bytes: usize = if items == 0 {
            0
        } else {
            bytes_used / items
        };
        BufferSummary { items, bytes_used, item_average_bytes }
    }
}

impl<const N: usize, const M: usize> Clone for ShmemBackedSerdeRingBuffer<N, M> {
    /// A second store that holds what this one holds.
    fn clone(&self) -> (out: Self)
        ensures
            out@ == self@,
            self.wf() ==> out.wf(),
    {
        let out = ShmemBackedSerdeRingBuffer { segments: self.segments, head: self.head };
        out
    }
}

impl<const N: usize, const M: usize> Default for ShmemBackedSerdeRingBuffer<N, M> {
    /// A store with nothing written to it.
    fn default() -> (out: Self)
        ensures
            out.wf(),
            out@ == History::empty(M as nat),
    {
        ShmemBackedSerdeRingBuffer::new()
    }
}

} // verus!
