//! The shape of one sample, and the pacing of the counters behind it.

use vstd::prelude::*;

verus! {

/// Load averages over the last one, five and fifteen minutes.
///
/// Each field is the bit pattern of a double (`f64::to_bits`).
#[derive(Clone, Copy, Debug, PartialEq, Eq)]
pub struct Load {
    pub min1: u64,
    pub min5: u64,
    pub min15: u64,
}

/// Size, available part and usage in percent of main memory or of swap.
///
/// Each field is the bit pattern of a double (`f64::to_bits`).
#[derive(Clone, Copy, Debug, PartialEq, Eq)]
pub struct Memory {
    pub size: u64,
    pub available: u64,
    pub usage: u64,
}

/// A point in calendar time: a year, the day of that year, the time of day
/// and the offset from UTC in which the first two are expressed.
#[derive(Clone, Copy, Debug, PartialEq, Eq)]
pub struct Timestamp {
    pub year: i32,
    pub ordinal: u16,
    pub hour: u8,
    pub minute: u8,
    pub second: u8,
    pub nanosecond: u32,
    pub offset_hours: i8,
    pub offset_minutes: i8,
    pub offset_seconds: i8,
}

/// One mounted volume: its mount point, and size, available part and usage
/// in percent as bit patterns of doubles.
#[derive(Clone, Debug, PartialEq, Eq)]
pub struct VolumeInfo {
    pub name: String,
    pub size: u64,
    pub available: u64,
    pub usage: u64,
}

/// What a `VolumeInfo` is in contracts.
pub struct VolumeInfoView {
    pub name: Seq<char>,
    pub size: u64,
    pub available: u64,
    pub usage: u64,
}

impl View for VolumeInfo {
    type V = VolumeInfoView;

    open spec fn view(&self) -> VolumeInfoView {
        VolumeInfoView {
            name: self.name@,
            size: self.size,
            available: self.available,
            usage: self.usage,
        }
    }
}

/// One sample of the host's state.
#[derive(Clone, Debug, PartialEq, Eq)]
pub struct Report {
    pub load: Load,
    pub at: Timestamp,
    /// CPU usage in percent, as the bit pattern of a double.
    pub cpu_usage: u64,
    pub memory: Memory,
    pub swap: Memory,
    pub volumes: Vec<VolumeInfo>,
}

/// What a `Report` is in contracts.
pub struct ReportView {
    pub load: Load,
    pub at: Timestamp,
    pub cpu_usage: u64,
    pub memory: Memory,
    pub swap: Memory,
    pub volumes: Seq<VolumeInfoView>,
}

impl View for Report {
    type V = ReportView;

    open spec fn view(&self) -> ReportView {
        ReportView {
            load: self.load,
            at: self.at,
            cpu_usage: self.cpu_usage,
            memory: self.memory,
            swap: self.swap,
            volumes: self.volumes@.map_values(|v: VolumeInfo| v@),
        }
    }
}

/// The views of a sequence of reports, in the same order.
pub open spec fn report_views(reports: Seq<Report>) -> Seq<ReportView> {
    reports.map_values(|r: Report| r@)
}

/// One measurement out of a report: what was measured, the tags that tell
/// the rows of one metric apart, when it was measured, and the value as the
/// bit pattern of a double.
#[derive(Clone, Debug, PartialEq, Eq)]
pub struct Row {
    pub metric: String,
    pub dimensions: Vec<(String, String)>,
    pub at: Timestamp,
    pub value: u64,
}

/// What a `Row` is in contracts.
pub struct RowView {
    pub metric: Seq<char>,
    pub dimensions: Seq<(Seq<char>, Seq<char>)>,
    pub at: Timestamp,
    pub value: u64,
}

impl View for Row {
    type V = RowView;

    open spec fn view(&self) -> RowView {
        RowView {
            metric: self.metric@,
            dimensions: self.dimensions@.map_values(|d: (String, String)| (d.0@, d.1@)),
            at: self.at,
            value: self.value,
        }
    }
}

/// The views of a sequence of rows, in the same order.
pub open spec fn row_views(rows: Seq<Row>) -> Seq<RowView> {
    rows.map_values(|r: Row| r@)
}

/// The row of a metric without tags.
pub open spec fn plain_row(metric: Seq<char>, at: Timestamp, value: u64) -> RowView {
    RowView { metric, dimensions: Seq::empty(), at, value }
}

/// The row of a metric with one tag.
pub open spec fn tagged_row(
    metric: Seq<char>,
    key: Seq<char>,
    tag: Seq<char>,
    at: Timestamp,
    value: u64,
) -> RowView {
    RowView { metric, dimensions: seq![(key, tag)], at, value }
}

/// The rows of what a report says of the host as a whole: the three load
/// averages, CPU usage, and usage, size and available part of memory and of
/// swap.
pub open spec fn host_rows(r: ReportView) -> Seq<RowView> {
    seq![
        tagged_row("load_average"@, "duration"@, "1m"@, r.at, r.load.min1),
        tagged_row("load_average"@, "duration"@, "5m"@, r.at, r.load.min5),
        tagged_row("load_average"@, "duration"@, "15m"@, r.at, r.load.min15),
        plain_row("cpu_usage"@, r.at, r.cpu_usage),
        plain_row("memory_usage"@, r.at, r.memory.usage),
        plain_row("memory_size"@, r.at, r.memory.size),
        plain_row("memory_available"@, r.at, r.memory.available),
        plain_row("swap_usage"@, r.at, r.swap.usage),
        plain_row("swap_size"@, r.at, r.swap.size),
        plain_row("swap_available"@, r.at, r.swap.available),
    ]
}

/// The rows of one volume: its usage, size and available part, each tagged
/// with the volume's name.
pub open spec fn volume_rows(v: VolumeInfoView, at: Timestamp) -> Seq<RowView> {
    seq![
        tagged_row("disk_usage"@, "fs"@, v.name, at, v.usage),
        tagged_row("disk_size"@, "fs"@, v.name, at, v.size),
        tagged_row("disk_available"@, "fs"@, v.name, at, v.available),
    ]
}

/// The rows of a report: those of the host, then those of each volume in
/// the order of the volumes.
pub open spec fn report_rows(r: ReportView) -> Seq<RowView> {
    host_rows(r) + r.volumes.map_values(|v: VolumeInfoView| volume_rows(v, r.at)).flatten()
}

fn plain(metric: &str, at: Timestamp, value: u64) -> (out: Row)
    ensures
        out@ == plain_row(metric@, at, value),
{
    let out = Row { metric: metric.to_owned(), dimensions: Vec::new(), at, value };
    assert(out@.dimensions =~= Seq::empty());
    out
}

fn tagged(metric: &str, key: &str, tag: &str, at: Timestamp, value: u64) -> (out: Row)
    ensures
        out@ == tagged_row(metric@, key@, tag@, at, value),
{
    let mut dimensions: Vec<(String, String)> = Vec::new();
    dimensions.push((key.to_owned(), tag.to_owned()));
    let out = Row { metric: metric.to_owned(), dimensions, at, value };
    assert(out@.dimensions =~= seq![(key@, tag@)]);
    out
}

impl Report {
    /// The report as rows, one for each measurement in it.
    pub fn rows(&self) -> (out: Vec<Row>)
        ensures
            row_views(out@) == report_rows(self@),
            out@.len() == 10 + 3 * self.volumes@.len(),
    {
        let at = self.at;
        let mut out: Vec<Row> = Vec::new();
        out.push(tagged("load_average", "duration", "1m", at, self.load.min1));
        out.push(tagged("load_average", "duration", "5m", at, self.load.min5));
        out.push(tagged("load_average", "duration", "15m", at, self.load.min15));
        out.push(plain("cpu_usage", at, self.cpu_usage));
        out.push(plain("memory_usage", at, self.memory.usage));
        out.push(plain("memory_size", at, self.memory.size));
        out.push(plain("memory_available", at, self.memory.available));
        out.push(plain("swap_usage", at, self.swap.usage));
        out.push(plain("swap_size", at, self.swap.size));
        out.push(plain("swap_available", at, self.swap.available));
        let ghost per_volume = self@.volumes.map_values(|v: VolumeInfoView| volume_rows(v, at));
        let n: usize = self.volumes.len();
        let mut i: usize = 0;
        while i < n
            invariant
                n == self.volumes@.len(),
                i <= n,
                at == self.at,
                per_volume == self@.volumes.map_values(|v: VolumeInfoView| volume_rows(v, at)),
                row_views(out@) == host_rows(self@) + per_volume.take(i as int).flatten(),
                out@.len() == 10 + 3 * i,
            decreases n - i,
        {
            let volume = &self.volumes[i];
            let ghost before = row_views(out@);
            let name = volume.name.as_str();
            out.push(tagged("disk_usage", "fs", name, at, volume.usage));
            out.push(tagged("disk_size", "fs", name, at, volume.size));
            out.push(tagged("disk_available", "fs", name, at, volume.available));
            proof {
                assert(row_views(out@) =~= before + per_volume[i as int]);
                assert(per_volume.take(i + 1) =~= per_volume.take(i as int).push(
                    per_volume[i as int],
                ));
                per_volume.take(i as int).lemma_flatten_push(per_volume[i as int]);
            }
            i += 1;
        }
        proof {
            assert(per_volume.take(n as int) =~= per_volume);
        }
        out
    }
}

/// Paces the refreshes of the counters behind a report: CPU usage is only
/// meaningful between two refreshes that lie far enough apart.
#[derive(Clone, Copy, Debug, PartialEq, Eq)]
pub struct Collector {
    /// The reading of the clock, in nanoseconds, at the last refresh.
    pub last_refresh: Option<u128>,
}

impl Collector {
    /// The time since the last refresh at `now`: none before the first
    /// refresh, and none where the clock reads less than it did then.
    pub open spec fn passed(self, now: u128) -> nat {
        match self.last_refresh {
            Some(then) => if now >= then {
                (now - then) as nat
            } else {
                0
            },
            None => 0,
        }
    }

    /// A collector that has not refreshed anything yet.
    pub fn new() -> (out: Self)
        ensures
            out.last_refresh is None,
    {
        Collector { last_refresh: None }
    }

    /// Whether the counters have been refreshed at least once.
    pub fn is_initialized(&self) -> (out: bool)
        ensures
            out == self.last_refresh is Some,
    {
        self.last_refresh.is_some()
    }

    /// Records that the counters were first refreshed at `now`.
    pub fn cache_initialization(&mut self, now: u128)
        ensures
            final(self).last_refresh == Some(now),
    {
        self.last_refresh = Some(now);
    }

    /// Records that the counters were refreshed at `now`.
    pub fn refresh(&mut self, now: u128)
        ensures
            final(self).last_refresh == Some(now),
    {
        self.last_refresh = Some(now);
    }

    /// How long to sleep before the next refresh so that `minimum`
    /// nanoseconds lie between it and the last one: what is missing of
    /// `minimum`, and `None` where more than `minimum` has passed already.
    pub fn cpu_safe_sleep(&self, now: u128, minimum: u128) -> (out: Option<u128>)
        ensures
            out == if self.passed(now) <= minimum {
                Some((minimum - self.passed(now)) as u128)
            } else {
                None
            },
    {
        let passed: u128 = match self.last_refresh {
            Some(then) => now.saturating_sub(then),
            None => 0,
        };
        minimum.checked_sub(passed)
    }
}

} // verus!
