//! Records: what the index keeps of one filesystem entry, and how a record
//! is made from what a directory walk could read of the entry.

use vstd::prelude::*;

verus! {

/// One indexed filesystem entry.
#[derive(Clone, Debug)]
pub struct Record {
    /// The entry's path, as the walk reported it.
    pub path: String,
    /// The platform's file identity (the inode number), 0 where there is none.
    pub identity: i64,
    /// Modification time in seconds since the epoch, 0 where unreadable.
    pub modified_at: i64,
    /// Length in bytes, 0 where unreadable.
    pub size: i64,
}

/// A record as a mathematical value.
pub struct RecordView {
    pub path: Seq<char>,
    pub identity: int,
    pub modified_at: int,
    pub size: int,
}

impl View for Record {
    type V = RecordView;

    open spec fn view(&self) -> RecordView {
        RecordView {
            path: self.path@,
            identity: self.identity as int,
            modified_at: self.modified_at as int,
            size: self.size as int,
        }
    }
}

/// What could be read of an entry's metadata; each field on its own may be
/// missing.
#[derive(Clone, Copy, Debug)]
pub struct Metadata {
    pub identity: Option<i64>,
    pub modified_at: Option<i64>,
    pub size: Option<i64>,
}

/// One step of a directory walk.
#[derive(Clone, Debug)]
pub enum Walked {
    /// An entry whose metadata could be read, at least in part.
    Entry { path: String, metadata: Metadata },
    /// An entry that could not be read at all; it is passed over.
    Unreadable,
}

/// A metadata field, with 0 standing for a missing one.
pub open spec fn field_or_zero(field: Option<i64>) -> int {
    match field {
        Some(v) => v as int,
        None => 0,
    }
}

/// The record of an entry at `path` with the given metadata.
pub open spec fn extract_spec(path: Seq<char>, metadata: Metadata) -> RecordView {
    RecordView {
        path,
        identity: field_or_zero(metadata.identity),
        modified_at: field_or_zero(metadata.modified_at),
        size: field_or_zero(metadata.size),
    }
}

/// The records of a walk, in the walk's order: one for each readable entry,
/// none for an unreadable one.
pub open spec fn records_of(walk: Seq<Walked>) -> Seq<RecordView>
    decreases walk.len(),
{
    if walk.len() == 0 {
        Seq::empty()
    } else {
        let rest = records_of(walk.drop_last());
        match walk.last() {
            Walked::Entry { path, metadata } => rest.push(extract_spec(path@, metadata)),
            Walked::Unreadable => rest,
        }
    }
}

/// The number of unreadable steps in a walk.
pub open spec fn unreadable_count(walk: Seq<Walked>) -> nat
    decreases walk.len(),
{
    if walk.len() == 0 {
        0
    } else {
        let rest = unreadable_count(walk.drop_last());
        match walk.last() {
            Walked::Entry { .. } => rest,
            Walked::Unreadable => rest + 1,
        }
    }
}

/// The views of a vector of records, in order.
pub open spec fn record_views(records: Seq<Record>) -> Seq<RecordView> {
    Seq::new(records.len(), |i: int| records[i]@)
}

/// Every step of a walk either yields one record or is unreadable.
pub proof fn records_and_unreadable_partition(walk: Seq<Walked>)
    ensures
        records_of(walk).len() + unreadable_count(walk) == walk.len(),
    decreases walk.len(),
{
    if walk.len() > 0 {
        records_and_unreadable_partition(walk.drop_last());
    }
}

fn or_zero(field: Option<i64>) -> (r: i64)
    ensures
        r == field_or_zero(field),
{
    match field {
        Some(v) => v,
        None => 0,
    }
}

/// Makes the record of an entry. It never fails: a field that could not be
/// read becomes 0.
pub fn extract(path: String, metadata: &Metadata) -> (r: Record)
    ensures
        r@ == extract_spec(path@, *metadata),
{
    Record {
        path,
        identity: or_zero(metadata.identity),
        modified_at: or_zero(metadata.modified_at),
        size: or_zero(metadata.size),
    }
}

/// Makes the records of a walk, passing over the unreadable entries.
pub fn readable_records(walk: &Vec<Walked>) -> (r: Vec<Record>)
    ensures
        record_views(r@) == records_of(walk@),
{
    let mut out: Vec<Record> = Vec::new();
    let mut i: usize = 0;
    while i < walk.len()
        invariant
            i <= walk.len(),
            record_views(out@) == records_of(walk@.subrange(0, i as int)),
        decreases walk.len() - i,
    {
        let ghost before = out@;
        assert(walk@.subrange(0, i + 1).drop_last() =~= walk@.subrange(0, i as int));
        match &walk[i] {
            Walked::Entry { path, metadata } => {
                let record = extract(path.clone(), metadata);
                out.push(record);
                assert(record_views(out@) =~= record_views(before).push(record@));
            },
            Walked::Unreadable => {},
        }
        i += 1;
    }
    assert(walk@.subrange(0, i as int) =~= walk@);
    out
}

} // verus!
