//! The three operations on a store at a given location: rebuilding the
//! index from a directory walk, searching it, and reporting its size. Each
//! opens the store for itself and closes it when it returns. Each returns,
//! beside its result, the record of the steps it made, the opening first.

use vstd::prelude::*;
use crate::pattern::effective_limit_spec;
use crate::record::{
    field_or_zero, records_and_unreadable_partition, records_of, unreadable_count, Walked,
};
use crate::sql::COUNT_FILES;
use crate::store::{
    carried_out, carried_out_after, carried_out_ended, completed, every_insert_counts, halts,
    inserted, inserted_of_both, no_insert_no_count, open_store, path_views, raised_by, rebuild_calls,
    reply_count, schema_calls, search_calls, search_result, Call, Stats, Step, StorageError,
};

verus! {

/// The calls of a whole operation: the store at `location` is opened, then
/// `rest` follow, in their order, on the connection that the opening
/// gave.
pub open spec fn opened_then(location: Seq<char>, rest: Seq<Call>) -> Seq<Call> {
    seq![Call::Open { location }] + rest
}

/// Searches the index at `location` for `pattern`: opens the store, creates
/// what is absent of the schema and, unless the pattern is empty, runs the
/// query of its mode. Returns the rows that the query gave, at most `limit`
/// of them (1000 by default). It fails exactly where the opening, a
/// statement of the schema, the preparing of the query or the query fails.
pub fn search_files(location: &str, pattern: &str, limit: Option<usize>) -> (r: (
    Result<Vec<String>, StorageError>,
    Ghost<Seq<Step>>,
))
    ensures
        carried_out(r.1@, opened_then(location@, search_calls(pattern@, limit))),
        r.0 is Ok <==> completed(r.1@, opened_then(location@, search_calls(pattern@, limit))),
        r.0 is Ok ==> path_views(r.0->Ok_0@) == search_result(r.1@, pattern@, limit),
        r.0 is Ok ==> r.0->Ok_0@.len() <= effective_limit_spec(limit),
        r.0 is Err ==> r.0->Err_0 is Open || r.0->Err_0 is Schema || r.0->Err_0 is Prepare
            || r.0->Err_0 is Query,
        r.0 is Err ==> raised_by(r.0->Err_0, r.1@.last().call),
{
    let ghost rest = search_calls(pattern@, limit);
    let (opened, Ghost(first)) = open_store(location);
    let ghost head = seq![first];
    let ghost opening = seq![Call::Open { location: location@ }];
    proof {
        assert(carried_out(head, opening));
    }
    match opened {
        Ok(mut store) => {
            let outcome = store.search(pattern, limit);
            let Ghost(steps) = store.steps();
            proof {
                assert(steps =~= head + steps.skip(1));
                assert(completed(head, opening));
                carried_out_after(head, opening, steps.skip(1), rest);
            }
            (outcome, Ghost(steps))
        },
        Err(e) => {
            proof {
                assert(halts(head[0]));
                carried_out_ended(head, opening, rest);
            }
            (Err(e), Ghost(head))
        },
    }
}

/// Rebuilds the index at `location` from a directory walk: opens the store,
/// creates what is absent of the schema, deletes the records, and inserts
/// those of the walk's readable entries in one transaction. Returns the
/// number of inserts that went in. It fails exactly where the opening, a
/// statement of the schema, the delete, the start of the transaction, the
/// preparing of the insert or the commit fails; an unreadable entry, or a
/// record whose insert fails, is passed over.
pub fn reindex(location: &str, walk: &Vec<Walked>) -> (r: (
    Result<usize, StorageError>,
    Ghost<Seq<Step>>,
))
    ensures
        carried_out(r.1@, opened_then(location@, rebuild_calls(records_of(walk@)))),
        r.0 is Ok <==> completed(r.1@, opened_then(location@, rebuild_calls(records_of(walk@)))),
        r.0 is Ok ==> r.0->Ok_0 == inserted(r.1@),
        r.0 is Ok ==> r.0->Ok_0 + unreadable_count(walk@) <= walk@.len(),
        r.0 is Err ==> r.0->Err_0 is Open || r.0->Err_0 is Schema || r.0->Err_0 is Clear
            || r.0->Err_0 is Begin || r.0->Err_0 is Prepare || r.0->Err_0 is Commit,
        r.0 is Err ==> raised_by(r.0->Err_0, r.1@.last().call),
{
    let ghost rest = rebuild_calls(records_of(walk@));
    let (opened, Ghost(first)) = open_store(location);
    let ghost head = seq![first];
    let ghost opening = seq![Call::Open { location: location@ }];
    proof {
        assert(carried_out(head, opening));
        no_insert_no_count(head);
        records_and_unreadable_partition(walk@);
    }
    match opened {
        Ok(mut store) => {
            let outcome = store.rebuild(walk);
            let Ghost(steps) = store.steps();
            proof {
                assert(steps =~= head + steps.skip(1));
                assert(completed(head, opening));
                carried_out_after(head, opening, steps.skip(1), rest);
            }
            (outcome, Ghost(steps))
        },
        Err(e) => {
            proof {
                assert(halts(head[0]));
                carried_out_ended(head, opening, rest);
            }
            (Err(e), Ghost(head))
        },
    }
}

/// Reports the statistics of the index at `location`: opens the store,
/// creates what is absent of the schema, and counts the records.
/// `byte_size` is the store's size on disk where the caller could read it.
/// It fails exactly where the store cannot be opened: a schema that cannot
/// be created is passed over, and a count that cannot be had is reported
/// as 0.
pub fn get_stats(location: &str, byte_size: Option<i64>) -> (r: (
    Result<Stats, StorageError>,
    Ghost<Seq<Step>>,
))
    ensures
        r.1@.len() >= 1,
        r.1@[0].call == (Call::Open { location: location@ }),
        r.0 is Ok <==> !(r.1@[0].reply is Failed),
        r.0 is Err ==> r.0->Err_0 is Open && r.1@.len() == 1,
        r.0 is Ok ==> carried_out(r.1@.skip(1).drop_last(), schema_calls()),
        r.0 is Ok ==> r.1@.last().call == (Call::Count { sql: COUNT_FILES@ }),
        r.0 is Ok ==> r.0->Ok_0.record_count == reply_count(r.1@.last().reply),
        r.0 is Ok ==> r.0->Ok_0.byte_size == field_or_zero(byte_size),
{
    let (opened, Ghost(first)) = open_store(location);
    match opened {
        Ok(mut store) => {
            let stats = store.stats(byte_size);
            let Ghost(steps) = store.steps();
            proof {
                assert(steps =~= seq![first] + steps.skip(1));
            }
            (Ok(stats), Ghost(steps))
        },
        Err(e) => {
            let ghost only = seq![first];
            (Err(e), Ghost(only))
        },
    }
}

/// Where a rebuild ran to its end and no call of it failed, the count it
/// returns is the number of the walk's readable entries: with one entry of
/// the walk unreadable, one less than the walk is long.
pub proof fn count_of_a_rebuild_without_failure(
    steps: Seq<Step>,
    location: Seq<char>,
    walk: Seq<Walked>,
)
    requires
        carried_out(steps, opened_then(location, rebuild_calls(records_of(walk)))),
        completed(steps, opened_then(location, rebuild_calls(records_of(walk)))),
        forall|i: int| 0 <= i < steps.len() ==> !((#[trigger] steps[i]).reply is Failed),
    ensures
        inserted(steps) == records_of(walk).len(),
        inserted(steps) + unreadable_count(walk) == walk.len(),
{
    let records = records_of(walk);
    let calls = opened_then(location, rebuild_calls(records));
    let n = records.len() as int;
    assert(calls.len() == 10 + n);
    let head = steps.subrange(0, 9);
    let middle = steps.subrange(9, 9 + n);
    let tail = steps.subrange(9 + n, 10 + n);
    assert(steps =~= (head + middle) + tail);
    assert forall|i: int| 0 <= i < head.len() implies !((#[trigger] head[i]).call is Insert) by {
        assert(head[i] == steps[i]);
        assert(steps[i].call == calls[i]);
    }
    assert forall|i: int| 0 <= i < middle.len() implies crate::store::went_in(
        #[trigger] middle[i],
    ) by {
        assert(middle[i] == steps[9 + i]);
        assert(steps[9 + i].call == calls[9 + i]);
        assert(calls[9 + i] == (Call::Insert { record: records[i] }));
    }
    assert forall|i: int| 0 <= i < tail.len() implies !((#[trigger] tail[i]).call is Insert) by {
        assert(tail[i] == steps[9 + n + i]);
        assert(steps[9 + n + i].call == calls[9 + n + i]);
    }
    no_insert_no_count(head);
    every_insert_counts(middle);
    no_insert_no_count(tail);
    inserted_of_both(head, middle);
    inserted_of_both(head + middle, tail);
    records_and_unreadable_partition(walk);
}

} // verus!
