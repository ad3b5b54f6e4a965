//! What a store holds, as a value of mathematics, and what is true of it.
//!
//! The first half says what the operations of the store do to that value.
//! The second half states what follows: the bound on the bytes in use, what
//! a write removes and what it keeps, and when reading gives back what was
//! written.

use crate::collector::ReportView;
use crate::shmem_ring_buffer::{BufferSummary, WriteError};
use crate::wire::{bare_decoding, bare_encoding};
use vstd::prelude::*;

verus! {

/// What a store holds: its segments, the oldest first and the active one
/// last; in each the records written to it, the oldest first; each record
/// the bytes it was written as.
pub struct History {
    pub segments: Seq<Seq<Seq<u8>>>,
}

/// The reason for which a record of `len` bytes is refused by a store with
/// segments of `capacity` bytes, if it is.
pub open spec fn refusal(len: nat, capacity: usize) -> Option<WriteError> {
    if len == 0 {
        Some(WriteError::EmptyRecord)
    } else if capacity / 2 < len {
        Some(WriteError::RecordTooLarge { size: len as usize, capacity })
    } else {
        None
    }
}

/// What the writer of a record of `len` bytes is told.
pub open spec fn verdict(len: nat, capacity: usize) -> Result<(), WriteError> {
    match refusal(len, capacity) {
        Some(reason) => Err(reason),
        None => Ok(()),
    }
}

/// The reports that a reader finds in `bytes` when it expects `count` of
/// them: it reads one report after the other off the front, and stops after
/// `count` reports or at the first bytes that the deserializer refuses.
pub open spec fn decode_records(bytes: Seq<u8>, count: nat) -> Seq<ReportView>
    decreases count,
{
    if count == 0 {
        Seq::empty()
    } else {
        match bare_decoding(bytes) {
            Some((report, rest)) => seq![report] + decode_records(rest, (count - 1) as nat),
            None => Seq::empty(),
        }
    }
}

impl History {
    /// A store of `m` segments with nothing written to it.
    pub open spec fn empty(m: nat) -> History {
        History { segments: Seq::new(m, |i: int| Seq::<Seq<u8>>::empty()) }
    }

    /// The bytes of segment `i`: its records one after the other.
    pub open spec fn segment_bytes(self, i: int) -> Seq<u8> {
        self.segments[i].flatten()
    }

    /// The bytes of every segment, in the order of the segments.
    pub open spec fn bytes(self) -> Seq<Seq<u8>> {
        Seq::new(self.segments.len(), |i: int| self.segment_bytes(i))
    }

    /// All records, the oldest first.
    pub open spec fn records(self) -> Seq<Seq<u8>> {
        self.segments.flatten()
    }

    /// The number of records: the sum of the segments' counts.
    pub open spec fn items(self) -> nat {
        self.records().len()
    }

    /// The number of bytes in use: the sum of the segments' lengths.
    pub open spec fn bytes_used(self) -> nat {
        self.bytes().flatten().len()
    }

    /// The figures that summarize the store.
    pub open spec fn summary(self) -> BufferSummary {
        BufferSummary {
            items: self.items() as usize,
            bytes_used: self.bytes_used() as usize,
            item_average_bytes: if self.items() == 0 {
                0
            } else {
                (self.bytes_used() / self.items()) as usize
            },
        }
    }

    /// Whether every segment holds at most `capacity` bytes.
    pub open spec fn within(self, capacity: usize) -> bool {
        forall|i: int|
            0 <= i < self.segments.len() ==> (#[trigger] self.segment_bytes(i)).len() <= capacity
    }

    /// The number of bytes in use in the active segment.
    pub open spec fn used(self) -> nat {
        self.segments.last().flatten().len()
    }

    /// Whether the active segment is too full to take a record of `len`
    /// bytes and the two bytes kept free beside it.
    pub open spec fn lacks_room(self, len: nat, capacity: usize) -> bool {
        self.used() + len + 2 >= capacity
    }

    /// The store after a rotation: the oldest segment is emptied and becomes
    /// the active one, every other segment is one place older than it was.
    pub open spec fn rotate(self) -> History {
        History { segments: self.segments.drop_first().push(Seq::empty()) }
    }

    /// The store with `record` added at the end of the active segment.
    pub open spec fn append(self, record: Seq<u8>) -> History {
        History {
            segments: self.segments.update(
                self.segments.len() - 1,
                self.segments.last().push(record),
            ),
        }
    }

    /// The store after an accepted write of `record` into segments of
    /// `capacity` bytes: the record goes to the active segment, after a
    /// rotation where that segment lacks room.
    pub open spec fn write(self, record: Seq<u8>, capacity: usize) -> History {
        if self.lacks_room(record.len(), capacity) {
            self.rotate().append(record)
        } else {
            self.append(record)
        }
    }

    /// The store after an attempt to write `record`: a refused record
    /// leaves it as it is.
    pub open spec fn write_checked(self, record: Seq<u8>, capacity: usize) -> History {
        if refusal(record.len(), capacity) is None {
            self.write(record, capacity)
        } else {
            self
        }
    }

    /// The store after attempts to write `records`, one after the other.
    pub open spec fn write_all(self, records: Seq<Seq<u8>>, capacity: usize) -> History
        decreases records.len(),
    {
        if records.len() == 0 {
            self
        } else {
            self.write_all(records.drop_last(), capacity).write_checked(records.last(), capacity)
        }
    }

    /// The number of records that an accepted write of `len` bytes removes:
    /// those of the oldest segment where the active one lacks room.
    pub open spec fn evicted(self, len: nat, capacity: usize) -> nat {
        if self.lacks_room(len, capacity) {
            self.segments.first().len()
        } else {
            0
        }
    }

    /// Whether the writes of `records`, one after the other, remove no
    /// record.
    pub open spec fn keeps_all(self, records: Seq<Seq<u8>>, capacity: usize) -> bool
        decreases records.len(),
    {
        records.len() == 0 || {
            &&& self.keeps_all(records.drop_last(), capacity)
            &&& self.write_all(records.drop_last(), capacity).evicted(
                records.last().len(),
                capacity,
            ) == 0
        }
    }

    /// The reports read from segment `i`.
    pub open spec fn segment_reports(self, i: int) -> Seq<ReportView> {
        decode_records(self.segment_bytes(i), self.segments[i].len())
    }

    /// The reports read from the store: those of each segment, in the order
    /// of the segments.
    pub open spec fn reports(self) -> Seq<ReportView> {
        Seq::new(self.segments.len(), |i: int| self.segment_reports(i)).flatten()
    }

    /// Whether every record in the store is the encoding of a well-formed
    /// report.
    pub open spec fn encodes(self) -> bool {
        forall|i: int, j: int|
            0 <= i < self.segments.len() && 0 <= j < self.segments[i].len() ==> is_encoding(
                #[trigger] self.segments[i][j],
            )
    }
}

/// A report is well-formed when the deserializer reads it back from its
/// encoding, whatever bytes follow the encoding.
pub open spec fn well_formed(report: ReportView) -> bool {
    match bare_encoding(report) {
        Some(record) => forall|rest: Seq<u8>|
            #[trigger] bare_decoding(record + rest) == Some((report, rest)),
        None => false,
    }
}

/// Whether `record` is the encoding of a well-formed report.
pub open spec fn is_encoding(record: Seq<u8>) -> bool {
    exists|report: ReportView|
        well_formed(report) && #[trigger] bare_encoding(report) == Some(record)
}

/// The encoding of each report. It is meant for reports that have one.
pub open spec fn encodings(reports: Seq<ReportView>) -> Seq<Seq<u8>> {
    reports.map_values(|report: ReportView| bare_encoding(report).unwrap())
}

/// The report that the deserializer reads from a record that stands alone.
pub open spec fn decode_one(record: Seq<u8>) -> ReportView {
    bare_decoding(record).unwrap().0
}

/// The report read from each record.
pub open spec fn decode_each(records: Seq<Seq<u8>>) -> Seq<ReportView> {
    records.map_values(|record: Seq<u8>| decode_one(record))
}

impl History {
    /// Whatever is written to a store of `m` empty segments of `capacity`
    /// bytes, and in whatever order, no segment ever holds more than
    /// `capacity` bytes, and the store never more than `m * capacity`.
    pub proof fn law_capacity_bound(m: nat, records: Seq<Seq<u8>>, capacity: usize)
        requires
            m > 0,
        ensures
            History::empty(m).write_all(records, capacity).segments.len() == m,
            History::empty(m).write_all(records, capacity).within(capacity),
            History::empty(m).write_all(records, capacity).bytes_used() <= m * capacity,
        decreases records.len(),
    {
        let start = History::empty(m);
        if records.len() > 0 {
            Self::law_capacity_bound(m, records.drop_last(), capacity);
            let before = start.write_all(records.drop_last(), capacity);
            if refusal(records.last().len(), capacity) is None {
                before.lemma_write_within(records.last(), capacity);
            }
        }
        start.write_all(records, capacity).lemma_within_bounds_bytes_used(capacity);
    }

    /// An accepted write removes either nothing or, where the active
    /// segment lacks room, the records of the oldest segment, all of them
    /// and no others. Every other record stays, in its order, and the new
    /// record comes last.
    pub proof fn law_eviction_granularity(self, record: Seq<u8>, capacity: usize)
        requires
            self.segments.len() > 0,
        ensures
            self.write(record, capacity).records() == self.records().skip(
                self.evicted(record.len(), capacity) as int,
            ).push(record),
            self.evicted(record.len(), capacity) <= self.items(),
            self.lacks_room(record.len(), capacity) ==> self.write(record, capacity).segments
                == self.segments.drop_first().push(seq![record]),
            !self.lacks_room(record.len(), capacity) ==> self.write(record, capacity).segments
                == self.segments.drop_last().push(self.segments.last().push(record)),
    {
        let base = if self.lacks_room(record.len(), capacity) {
            self.rotate()
        } else {
            self
        };
        lemma_flatten_update_last(base.segments, base.segments.last().push(record));
        if self.lacks_room(record.len(), capacity) {
            self.segments.drop_first().lemma_flatten_push(Seq::empty());
            lemma_flatten_drop_first(self.segments);
        }
    }

    /// What a reader finds after an accepted write of the encoding of a
    /// well-formed report to a store of such encodings: what it found
    /// before, less the reports of the oldest segment where the write
    /// removed them, and the new report last.
    pub proof fn law_eviction_granularity_read(self, report: ReportView, capacity: usize)
        requires
            self.segments.len() > 0,
            self.encodes(),
            well_formed(report),
        ensures
            ({
                let record = bare_encoding(report).unwrap();
                self.write(record, capacity).reports() == self.reports().skip(
                    self.evicted(record.len(), capacity) as int,
                ).push(report)
            }),
    {
        let record = bare_encoding(report).unwrap();
        let after = self.write(record, capacity);
        self.lemma_write_encodes(record, capacity);
        self.lemma_reports_of_records();
        after.lemma_reports_of_records();
        self.law_eviction_granularity(record, capacity);
        lemma_decode_one(report);
    }

    /// Writes of `records` that are all accepted and remove nothing add
    /// them, in their order, behind the records that the store held.
    pub proof fn law_round_trip_records(self, records: Seq<Seq<u8>>, capacity: usize)
        requires
            self.segments.len() > 0,
            forall|k: int|
                0 <= k < records.len() ==> refusal((#[trigger] records[k]).len(), capacity) is None,
            self.keeps_all(records, capacity),
        ensures
            self.write_all(records, capacity).segments.len() == self.segments.len(),
            self.write_all(records, capacity).records() == self.records() + records,
        decreases records.len(),
    {
        if records.len() > 0 {
            let front = records.drop_last();
            self.law_round_trip_records(front, capacity);
            let before = self.write_all(front, capacity);
            before.law_eviction_granularity(records.last(), capacity);
        }
    }

    /// Well-formed reports whose encodings are accepted, written one after
    /// the other to a store with nothing in it, are read back as they were
    /// written and in their order, provided that no write removed a record.
    pub proof fn law_round_trip(m: nat, reports: Seq<ReportView>, capacity: usize)
        requires
            m > 0,
            forall|k: int| 0 <= k < reports.len() ==> well_formed(#[trigger] reports[k]),
            forall|k: int|
                0 <= k < reports.len() ==> refusal(
                    (#[trigger] encodings(reports)[k]).len(),
                    capacity,
                ) is None,
            History::empty(m).keeps_all(encodings(reports), capacity),
        ensures
            History::empty(m).write_all(encodings(reports), capacity).reports() == reports,
            History::empty(m).write_all(encodings(reports), capacity).items() == reports.len(),
    {
        let start = History::empty(m);
        let records = encodings(reports);
        let after = start.write_all(records, capacity);
        start.law_round_trip_records(records, capacity);
        lemma_empty_has_no_records(m);
        start.lemma_write_all_encodes(reports, capacity);
        after.lemma_reports_of_records();
        assert(decode_each(records) =~= reports) by {
            assert forall|k: int| 0 <= k < reports.len() implies decode_each(records)[k]
                == reports[k] by {
                lemma_decode_one(reports[k]);
            }
        }
    }

    /// A record longer than half a segment is refused as too large, and the
    /// store and its summary stay as they are.
    pub proof fn law_oversized_rejected(self, record: Seq<u8>, capacity: usize)
        requires
            record.len() > capacity / 2,
        ensures
            verdict(record.len(), capacity) == Err::<(), WriteError>(
                WriteError::RecordTooLarge { size: record.len() as usize, capacity },
            ),
            self.write_checked(record, capacity) == self,
            self.write_checked(record, capacity).summary() == self.summary(),
    {
    }

    /// Where every record is the encoding of a well-formed report, a reader
    /// finds as many reports as the store counts records; and the bytes in
    /// use are the bytes of all records.
    pub proof fn law_stats_consistent(self)
        requires
            self.encodes(),
        ensures
            self.reports().len() == self.items(),
            self.bytes_used() == self.records().flatten().len(),
    {
        self.lemma_reports_of_records();
        self.lemma_bytes_of_records();
    }

    /// A reader never finds more reports than the store counts records,
    /// whatever the records hold.
    pub proof fn law_reads_at_most_items(self)
        ensures
            self.reports().len() <= self.items(),
        decreases self.segments.len(),
    {
        let read = Seq::new(self.segments.len(), |i: int| self.segment_reports(i));
        if self.segments.len() > 0 {
            let front = History { segments: self.segments.drop_last() };
            let front_read = Seq::new(front.segments.len(), |i: int| front.segment_reports(i));
            let last = self.segments.len() - 1;
            front.law_reads_at_most_items();
            assert(read =~= front_read.push(self.segment_reports(last)));
            front_read.lemma_flatten_push(self.segment_reports(last));
            assert(self.segments =~= front.segments.push(self.segments.last()));
            front.segments.lemma_flatten_push(self.segments.last());
            lemma_decode_at_most(self.segment_bytes(last), self.segments[last].len());
        }
    }

    /// An accepted write keeps the number of segments, and keeps every
    /// segment within `capacity` bytes.
    pub proof fn lemma_write_within(self, record: Seq<u8>, capacity: usize)
        requires
            self.segments.len() > 0,
            self.within(capacity),
            refusal(record.len(), capacity) is None,
        ensures
            self.write(record, capacity).segments.len() == self.segments.len(),
            self.write(record, capacity).within(capacity),
    {
        let after = self.write(record, capacity);
        let last = self.segments.len() - 1;
        let base = if self.lacks_room(record.len(), capacity) {
            self.rotate()
        } else {
            self
        };
        base.segments.last().lemma_flatten_push(record);
        assert forall|i: int| 0 <= i < after.segments.len() implies (#[trigger] after.segment_bytes(
            i,
        )).len() <= capacity by {
            if i < last {
                if self.lacks_room(record.len(), capacity) {
                    assert(after.segment_bytes(i) == self.segment_bytes(i + 1));
                } else {
                    assert(after.segment_bytes(i) == self.segment_bytes(i));
                }
            }
        }
    }

    /// A store whose segments are within `capacity` bytes holds at most as
    /// many bytes as its segments have together.
    pub proof fn lemma_within_bounds_bytes_used(self, capacity: usize)
        requires
            self.within(capacity),
        ensures
            self.bytes_used() <= self.segments.len() * capacity,
    {
        let bytes = self.bytes();
        bytes.lemma_flatten_length_le_mul(capacity as int);
        bytes.lemma_flatten_and_flatten_alt_are_equivalent();
    }

    /// The bytes of all segments are the bytes of all records.
    pub proof fn lemma_bytes_of_records(self)
        ensures
            self.bytes().flatten() == self.records().flatten(),
        decreases self.segments.len(),
    {
        if self.segments.len() > 0 {
            let front = History { segments: self.segments.drop_last() };
            front.lemma_bytes_of_records();
            assert(self.bytes() =~= front.bytes().push(self.segments.last().flatten()));
            front.bytes().lemma_flatten_push(self.segments.last().flatten());
            assert(self.segments =~= front.segments.push(self.segments.last()));
            front.segments.lemma_flatten_push(self.segments.last());
            vstd::seq_lib::lemma_flatten_concat(front.records(), self.segments.last());
        }
    }

    /// Where every record is the encoding of a well-formed report, the
    /// count of a segment is the number of reports that a reader finds in
    /// its bytes, and they are the reports of its records, in their order.
    pub proof fn lemma_segment_reports(self, i: int)
        requires
            self.encodes(),
            0 <= i < self.segments.len(),
        ensures
            self.segment_reports(i) == decode_each(self.segments[i]),
            self.segment_reports(i).len() == self.segments[i].len(),
    {
        lemma_decode_segment(self.segments[i]);
    }

    /// Where every record is the encoding of a well-formed report, a reader
    /// finds the report of each record, the oldest first.
    pub proof fn lemma_reports_of_records(self)
        requires
            self.encodes(),
        ensures
            self.reports() == decode_each(self.records()),
    {
        let read = Seq::new(self.segments.len(), |i: int| self.segment_reports(i));
        let each = Seq::new(self.segments.len(), |i: int| decode_each(self.segments[i]));
        assert forall|i: int| 0 <= i < self.segments.len() implies read[i] == each[i] by {
            self.lemma_segment_reports(i);
        }
        assert(read =~= each);
        lemma_decode_each_flatten(self.segments);
    }

    /// An accepted write of the encoding of a well-formed report into a
    /// store of such encodings leaves a store of such encodings.
    pub proof fn lemma_write_encodes(self, record: Seq<u8>, capacity: usize)
        requires
            self.segments.len() > 0,
            self.encodes(),
            is_encoding(record),
        ensures
            self.write(record, capacity).encodes(),
    {
    }

    /// Writing the encodings of well-formed reports into a store of such
    /// encodings leaves a store of such encodings.
    pub proof fn lemma_write_all_encodes(self, reports: Seq<ReportView>, capacity: usize)
        requires
            self.segments.len() > 0,
            self.encodes(),
            forall|k: int| 0 <= k < reports.len() ==> well_formed(#[trigger] reports[k]),
        ensures
            self.write_all(encodings(reports), capacity).segments.len() == self.segments.len(),
            self.write_all(encodings(reports), capacity).encodes(),
        decreases reports.len(),
    {
        let records = encodings(reports);
        if reports.len() > 0 {
            let front = reports.drop_last();
            assert(encodings(front) =~= records.drop_last());
            self.lemma_write_all_encodes(front, capacity);
            let before = self.write_all(records.drop_last(), capacity);
            if refusal(records.last().len(), capacity) is None {
                before.lemma_write_encodes(records.last(), capacity);
            }
        }
    }
}

/// The records of all segments but the first are all records but those of
/// the first segment.
proof fn lemma_flatten_drop_first<A>(s: Seq<Seq<A>>)
    requires
        s.len() > 0,
    ensures
        s.drop_first().flatten() == s.flatten().skip(s.first().len() as int),
        s.first().len() <= s.flatten().len(),
{
}

/// Replacing the last of some sequences replaces the end of what they hold
/// together.
proof fn lemma_flatten_update_last<A>(s: Seq<Seq<A>>, x: Seq<A>)
    requires
        s.len() > 0,
    ensures
        s.update(s.len() - 1, x).flatten() == s.drop_last().flatten() + x,
        s.flatten() == s.drop_last().flatten() + s.last(),
{
    assert(s.update(s.len() - 1, x) =~= s.drop_last().push(x));
    assert(s =~= s.drop_last().push(s.last()));
    s.drop_last().lemma_flatten_push(x);
    s.drop_last().lemma_flatten_push(s.last());
}

/// A store with nothing written to it has no records.
proof fn lemma_empty_has_no_records(m: nat)
    ensures
        History::empty(m).records() == Seq::<Seq<u8>>::empty(),
    decreases m,
{
    let start = History::empty(m);
    if m > 0 {
        lemma_empty_has_no_records((m - 1) as nat);
        assert(start.segments.drop_first() =~= History::empty((m - 1) as nat).segments);
    }
}

/// A reader that expects `count` reports finds at most `count`.
proof fn lemma_decode_at_most(bytes: Seq<u8>, count: nat)
    ensures
        decode_records(bytes, count).len() <= count,
    decreases count,
{
    if count > 0 {
        match bare_decoding(bytes) {
            Some((_, rest)) => lemma_decode_at_most(rest, (count - 1) as nat),
            None => {},
        }
    }
}

/// The deserializer reads the encoding of a well-formed report back to
/// that report.
proof fn lemma_decode_one(report: ReportView)
    requires
        well_formed(report),
    ensures
        decode_one(bare_encoding(report).unwrap()) == report,
{
    let record = bare_encoding(report).unwrap();
    assert(bare_decoding(record + Seq::<u8>::empty()) == Some((report, Seq::<u8>::empty())));
}

/// A reader that expects as many reports as there are records, each the
/// encoding of a well-formed report, finds the report of each record.
proof fn lemma_decode_segment(records: Seq<Seq<u8>>)
    requires
        forall|j: int| 0 <= j < records.len() ==> is_encoding(#[trigger] records[j]),
    ensures
        decode_records(records.flatten(), records.len()) == decode_each(records),
    decreases records.len(),
{
    if records.len() > 0 {
        let first = records.first();
        let others = records.drop_first();
        let report = choose|report: ReportView|
            well_formed(report) && #[trigger] bare_encoding(report) == Some(first);
        lemma_decode_one(report);
        lemma_decode_segment(others);
    }
}

/// Reading each record of each segment is reading each of all records.
proof fn lemma_decode_each_flatten(segments: Seq<Seq<Seq<u8>>>)
    ensures
        Seq::new(segments.len(), |i: int| decode_each(segments[i])).flatten() == decode_each(
            segments.flatten(),
        ),
    decreases segments.len(),
{
    let each = Seq::new(segments.len(), |i: int| decode_each(segments[i]));
    if segments.len() > 0 {
        let front = segments.drop_last();
        let front_each = Seq::new(front.len(), |i: int| decode_each(front[i]));
        lemma_decode_each_flatten(front);
        assert(each =~= front_each.push(decode_each(segments.last())));
        front_each.lemma_flatten_push(decode_each(segments.last()));
        assert(segments =~= front.push(segments.last()));
        front.lemma_flatten_push(segments.last());
    }
}

} // verus!
