//! Reports as bytes: the record format, written and read by `serde_bare`.
//!
//! A report goes over the wire as the tuple of its fields, each nested
//! structure again as the tuple of its fields, so that the serializer sees
//! plain values only.

use crate::collector::{Load, Memory, Report, ReportView, Timestamp, VolumeInfo, VolumeInfoView};
use vstd::prelude::*;

verus! {

/// The fields of a volume, borrowed from it.
type VolumeRef<'a> = (&'a str, u64, u64, u64);

/// The fields of a volume.
type VolumeFields = (String, u64, u64, u64);

/// The fields of a timestamp.
type TimestampFields = (i32, u16, u8, u8, u8, u32, i8, i8, i8);

/// The fields of a report, borrowed from it where they own memory.
type FieldsRef<'a> = (
    (u64, u64, u64),
    TimestampFields,
    u64,
    (u64, u64, u64),
    (u64, u64, u64),
    Vec<VolumeRef<'a>>,
);

/// The fields of a report.
type Fields = (
    (u64, u64, u64),
    TimestampFields,
    u64,
    (u64, u64, u64),
    (u64, u64, u64),
    Vec<VolumeFields>,
);

spec fn load_of(f: (u64, u64, u64)) -> Load {
    Load { min1: f.0, min5: f.1, min15: f.2 }
}

spec fn memory_of(f: (u64, u64, u64)) -> Memory {
    Memory { size: f.0, available: f.1, usage: f.2 }
}

spec fn timestamp_of(f: TimestampFields) -> Timestamp {
    Timestamp {
        year: f.0,
        ordinal: f.1,
        hour: f.2,
        minute: f.3,
        second: f.4,
        nanosecond: f.5,
        offset_hours: f.6,
        offset_minutes: f.7,
        offset_seconds: f.8,
    }
}

spec fn volume_ref_view(f: VolumeRef) -> VolumeInfoView {
    VolumeInfoView { name: f.0@, size: f.1, available: f.2, usage: f.3 }
}

spec fn volume_fields_view(f: VolumeFields) -> VolumeInfoView {
    VolumeInfoView { name: f.0@, size: f.1, available: f.2, usage: f.3 }
}

/// The report that borrowed fields describe.
spec fn fields_ref_view(f: FieldsRef) -> ReportView {
    ReportView {
        load: load_of(f.0),
        at: timestamp_of(f.1),
        cpu_usage: f.2,
        memory: memory_of(f.3),
        swap: memory_of(f.4),
        volumes: f.5@.map_values(|v: VolumeRef| volume_ref_view(v)),
    }
}

/// The report that owned fields describe.
spec fn fields_view(f: Fields) -> ReportView {
    ReportView {
        load: load_of(f.0),
        at: timestamp_of(f.1),
        cpu_usage: f.2,
        memory: memory_of(f.3),
        swap: memory_of(f.4),
        volumes: f.5@.map_values(|v: VolumeFields| volume_fields_view(v)),
    }
}

#[verifier::external_type_specification]
#[verifier::external_body]
pub struct ExBareError(serde_bare::error::Error);

/// The bytes that `serde_bare::to_writer` produces for the fields of a
/// report; `None` where it reports an error.
pub uninterp spec fn bare_encoding(report: ReportView) -> Option<Seq<u8>>;

/// What `serde_bare::from_reader` makes of the front of `bytes` when asked
/// for the fields of a report: the report it reads and the bytes it leaves
/// unread, or `None` where it reports an error.
pub uninterp spec fn bare_decoding(bytes: Seq<u8>) -> Option<(ReportView, Seq<u8>)>;

/// Calls `serde_bare::to_writer` on a fresh buffer. The contract only names
/// the outcome: the bytes written, or the fact that the serializer gave an
/// error. Nothing is claimed about which bytes they are.
#[verifier::external_body]
fn bare_encode(fields: &FieldsRef) -> (out: Result<Vec<u8>, serde_bare::error::Error>)
    ensures
        match out {
            Ok(bytes) => bare_encoding(fields_ref_view(*fields)) == Some(bytes@),
            Err(_) => bare_encoding(fields_ref_view(*fields)) is None,
        },
{
    let mut bytes = Vec::new();
    serde_bare::to_writer(&mut bytes, fields)?;
    Ok(bytes)
}

/// Calls `serde_bare::from_reader` on `bytes`, which as a reader hands out
/// its front and keeps the rest. The contract only names the outcome: the
/// fields read together with the bytes not consumed, or the fact that the
/// deserializer gave an error. Nothing is claimed about how the two names
/// relate.
#[verifier::external_body]
fn bare_decode<'a>(bytes: &'a [u8]) -> (out: Result<(Fields, &'a [u8]), serde_bare::error::Error>)
    ensures
        match out {
            Ok((fields, rest)) => bare_decoding(bytes@) == Some((fields_view(fields), rest@)),
            Err(_) => bare_decoding(bytes@) is None,
        },
{
    let mut rest = bytes;
    let fields = serde_bare::from_reader(&mut rest)?;
    Ok((fields, rest))
}

/// The fields of `report`, borrowed from it.
fn fields_of<'a>(report: &'a Report) -> (fields: FieldsRef<'a>)
    ensures
        fields_ref_view(fields) == report@,
{
    let mut volumes: Vec<VolumeRef<'a>> = Vec::new();
    let n: usize = report.volumes.len();
    let mut i: usize = 0;
    while i < n
        invariant
            n == report.volumes.len(),
            i <= n,
            volumes@.len() == i,
            forall|j: int|
                0 <= j < i ==> volume_ref_view(#[trigger] volumes@[j]) == report.volumes@[j]@,
        decreases n - i,
    {
        let v = &report.volumes[i];
        volumes.push((v.name.as_str(), v.size, v.available, v.usage));
        i += 1;
    }
    let fields = (
        (report.load.min1, report.load.min5, report.load.min15),
        (
            report.at.year,
            report.at.ordinal,
            report.at.hour,
            report.at.minute,
            report.at.second,
            report.at.nanosecond,
            report.at.offset_hours,
            report.at.offset_minutes,
            report.at.offset_seconds,
        ),
        report.cpu_usage,
        (report.memory.size, report.memory.available, report.memory.usage),
        (report.swap.size, report.swap.available, report.swap.usage),
        volumes,
    );
    assert(fields_ref_view(fields).volumes =~= report@.volumes);
    fields
}

/// The report with the given fields.
fn report_of(fields: Fields) -> (report: Report)
    ensures
        report@ == fields_view(fields),
{
    let (load, at, cpu_usage, memory, swap, listed) = fields;
    let ghost all = listed@;
    let mut volumes: Vec<VolumeInfo> = Vec::new();
    for v in it: listed
        invariant
            it.seq() == all,
            volumes@.len() == it.index(),
            forall|j: int|
                0 <= j < it.index() ==> (#[trigger] volumes@[j])@ == volume_fields_view(all[j]),
    {
        let (name, size, available, usage) = v;
        volumes.push(VolumeInfo { name, size, available, usage });
    }
    let report = Report {
        load: Load { min1: load.0, min5: load.1, min15: load.2 },
        at: Timestamp {
            year: at.0,
            ordinal: at.1,
            hour: at.2,
            minute: at.3,
            second: at.4,
            nanosecond: at.5,
            offset_hours: at.6,
            offset_minutes: at.7,
            offset_seconds: at.8,
        },
        cpu_usage,
        memory: Memory { size: memory.0, available: memory.1, usage: memory.2 },
        swap: Memory { size: swap.0, available: swap.1, usage: swap.2 },
        volumes,
    };
    assert(report@.volumes =~= fields_view(fields).volumes);
    report
}

/// Serializes one report: `None` where the serializer refuses it.
pub fn encode(report: &Report) -> (out: Option<Vec<u8>>)
    ensures
        match out {
            Some(bytes) => bare_encoding(report@) == Some(bytes@),
            None => bare_encoding(report@) is None,
        },
{
    let fields = fields_of(report);
    match bare_encode(&fields) {
        Ok(bytes) => Some(bytes),
        Err(_) => None,
    }
}

/// Reads one report off the front of `bytes` and returns it with the bytes
/// that follow it: `None` where the deserializer refuses the bytes.
pub fn decode<'a>(bytes: &'a [u8]) -> (out: Option<(Report, &'a [u8])>)
    ensures
        match out {
            Some((report, rest)) => bare_decoding(bytes@) == Some((report@, rest@)),
            None => bare_decoding(bytes@) is None,
        },
{
    match bare_decode(bytes) {
        Ok((fields, rest)) => Some((report_of(fields), rest)),
        Err(_) => None,
    }
}

} // verus!
