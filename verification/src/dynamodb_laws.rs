//! What reads of the key-value tables give back of what was written to them.
use crate::dynamodb_claims;
use crate::dynamodb_events;
use crate::dynamodb_item;
use crate::dynamodb_item::Val;
use crate::dynamodb_store;
use crate::snapshot::Snap;
use crate::text;
use crate::time::Timestamp;
use vstd::prelude::*;

verus! {

/// The attributes of a stored snapshot that are read back have different names.
proof fn lemma_snapshot_names()
    ensures
        "data"@ != "version"@,
        "data"@ != "status"@,
        "data"@ != "definition_hash"@,
        "data"@ != "updated_at"@,
        "data"@ != "instance_id"@,
        "data"@ != "completed_task_count"@,
        "data"@ != "current_task_id"@,
        "data"@ != "error"@,
        "data"@ != "position_kind"@,
        "data"@ != "delay_wake_at"@,
        "data"@ != "completed_at"@,
        "version"@ != "status"@,
        "version"@ != "definition_hash"@,
        "version"@ != "updated_at"@,
        "version"@ != "instance_id"@,
        "version"@ != "completed_task_count"@,
        "version"@ != "current_task_id"@,
        "version"@ != "error"@,
        "version"@ != "position_kind"@,
        "version"@ != "delay_wake_at"@,
        "version"@ != "completed_at"@,
{
    reveal_strlit("data");
    reveal_strlit("version");
    reveal_strlit("status");
    reveal_strlit("definition_hash");
    reveal_strlit("updated_at");
    reveal_strlit("instance_id");
    reveal_strlit("completed_task_count");
    reveal_strlit("current_task_id");
    reveal_strlit("error");
    reveal_strlit("position_kind");
    reveal_strlit("delay_wake_at");
    reveal_strlit("completed_at");
    assert("data"@.len() == 4 && "version"@.len() == 7 && "status"@.len() == 6);
    assert("definition_hash"@.len() == 15 && "updated_at"@.len() == 10);
    assert("instance_id"@.len() == 11 && "completed_task_count"@.len() == 20);
    assert("current_task_id"@.len() == 15 && "error"@.len() == 5);
    assert("position_kind"@.len() == 13 && "delay_wake_at"@.len() == 13);
    assert("completed_at"@.len() == 12);
}

/// The stored form holds the bytes and the version.
pub open spec fn holds(m: Map<Seq<char>, Val>, data: Seq<u8>, version: nat) -> bool {
    dynamodb_item::bytes_of(m, "data"@) == Some(data) && dynamodb_store::stored_version(Some(m))
        == version
}

/// Every form in which a snapshot is stored gives back the bytes and the version that
/// were written.
pub proof fn law_stored_snapshot_is_read_back(
    instance_id: Seq<char>,
    s: Snap,
    data: Seq<u8>,
    version: nat,
    now: Timestamp,
)
    requires
        version <= u64::MAX,
    ensures
        holds(dynamodb_store::snapshot_map(s, data, version, now), data, version),
        holds(dynamodb_store::result_map(instance_id, s, data, version, now), data, version),
        holds(dynamodb_store::cancelled_map(instance_id, s, data, version, now), data, version),
        holds(dynamodb_store::held_map(instance_id, s, data, version, now), data, version),
{
    lemma_snapshot_names();
    text::law_decimal_is_read_back(version);
}

/// A write that is guarded by a version writes the next one, so a second write that is
/// guarded by the same version does not go through.
pub proof fn law_guarded_writes_exclude_each_other(
    instance_id: Seq<char>,
    s: Snap,
    data: Seq<u8>,
    version: nat,
    now: Timestamp,
)
    requires
        version < u64::MAX,
    ensures
        dynamodb_store::stored_version(
            Some(dynamodb_store::result_map(instance_id, s, data, version + 1, now)),
        ) != version,
        dynamodb_store::stored_version(
            Some(dynamodb_store::cancelled_map(instance_id, s, data, version + 1, now)),
        ) != version,
        dynamodb_store::stored_version(
            Some(dynamodb_store::held_map(instance_id, s, data, version + 1, now)),
        ) != version,
{
    law_stored_snapshot_is_read_back(instance_id, s, data, version + 1, now);
}

/// The oldest event of a queue is what was written, and under its id.
pub proof fn law_event_is_read_back(
    instance_id: Seq<char>,
    signal_name: Seq<char>,
    id: Seq<char>,
    payload: Seq<u8>,
    rest: Seq<Map<Seq<char>, Val>>,
)
    ensures
        dynamodb_events::oldest(
            seq![dynamodb_events::event_map(instance_id, signal_name, id, payload)] + rest,
        ) == Ok::<Option<(Seq<char>, Seq<u8>)>, Seq<char>>(Some((id, payload))),
{
    reveal_strlit("SK");
    reveal_strlit("payload");
    assert("SK"@.len() == 2 && "payload"@.len() == 7);
}

/// A claim can be released by the worker that holds it, and by no other.
pub proof fn law_claim_belongs_to_its_worker(
    instance_id: Seq<char>,
    task_id: Seq<char>,
    worker_id: Seq<char>,
    other: Seq<char>,
    claimed_at: u64,
    expires_at: Option<u64>,
)
    ensures
        dynamodb_claims::owner_check(
            Some(
                dynamodb_claims::claim_map(instance_id, task_id, worker_id, claimed_at, expires_at),
            ),
            instance_id,
            task_id,
            other,
        ) is Ok == (other == worker_id),
{
    reveal_strlit("worker_id");
    reveal_strlit("instance_id");
    reveal_strlit("task_id");
    reveal_strlit("claimed_at");
    reveal_strlit("expires_at_epoch");
    assert("worker_id"@.len() == 9 && "instance_id"@.len() == 11 && "task_id"@.len() == 7);
    assert("claimed_at"@.len() == 10 && "expires_at_epoch"@.len() == 16);
}

/// A stored claim is active exactly until it expires; one without an expiry always is.
pub proof fn law_claim_is_active_until_it_expires(
    instance_id: Seq<char>,
    task_id: Seq<char>,
    worker_id: Seq<char>,
    claimed_at: u64,
    expires_at: Option<u64>,
    now: i64,
)
    requires
        expires_at matches Some(e) ==> e <= i64::MAX,
    ensures
        dynamodb_claims::active_claim(
            Some(
                dynamodb_claims::claim_map(instance_id, task_id, worker_id, claimed_at, expires_at),
            ),
            now,
        ) == (match expires_at {
            Some(e) => now <= e,
            None => true,
        }),
{
    reveal_strlit("PK");
    reveal_strlit("worker_id");
    reveal_strlit("instance_id");
    reveal_strlit("task_id");
    reveal_strlit("claimed_at");
    reveal_strlit("expires_at_epoch");
    assert("PK"@.len() == 2 && "expires_at_epoch"@.len() == 16);
    assert("worker_id"@.len() == 9 && "instance_id"@.len() == 11 && "task_id"@.len() == 7);
    assert("claimed_at"@.len() == 10);
    if let Some(e) = expires_at {
        text::law_decimal_is_read_back(e as nat);
    }
}

/// Every saved version has a history entry of its own: a later save does not overwrite an
/// earlier entry.
pub proof fn law_history_is_kept(a: nat, b: nat)
    ensures
        dynamodb_store::history_sk(a) == dynamodb_store::history_sk(b) ==> a == b,
{
    reveal_strlit("v");
    let x = text::padded(text::decimal(a), 8);
    let y = text::padded(text::decimal(b), 8);
    if dynamodb_store::history_sk(a) == dynamodb_store::history_sk(b) {
        assert(x =~= ("v"@ + x).skip(1));
        assert(y =~= ("v"@ + y).skip(1));
    }
    text::law_numerals_differ(a, b, 8);
}

/// Snapshots, history entries and signals share a table without sharing a partition, and
/// no two instances share one.
pub proof fn law_partitions_are_apart(a: Seq<char>, b: Seq<char>)
    ensures
        "SNAP#"@ + a != "HIST#"@ + b,
        "SNAP#"@ + a != "SIG#"@ + b,
        "HIST#"@ + a != "SIG#"@ + b,
        "SNAP#"@ + a == "SNAP#"@ + b ==> a == b,
        "HIST#"@ + a == "HIST#"@ + b ==> a == b,
        "SIG#"@ + a == "SIG#"@ + b ==> a == b,
{
    reveal_strlit("SNAP#");
    reveal_strlit("HIST#");
    reveal_strlit("SIG#");
    assert(("SNAP#"@ + a)[0] == 'S' && ("SNAP#"@ + a)[1] == 'N');
    assert(("HIST#"@ + b)[0] == 'H' && ("HIST#"@ + a)[0] == 'H');
    assert(("SIG#"@ + b)[0] == 'S' && ("SIG#"@ + b)[1] == 'I');
    assert(a =~= ("SNAP#"@ + a).skip(5) && b =~= ("SNAP#"@ + b).skip(5));
    assert(a =~= ("HIST#"@ + a).skip(5) && b =~= ("HIST#"@ + b).skip(5));
    assert(a =~= ("SIG#"@ + a).skip(4) && b =~= ("SIG#"@ + b).skip(4));
}

/// The queues of two signals, and the claims of two tasks, have different keys, where no
/// instance id holds a `#`.
pub proof fn law_joined_keys_differ(a: Seq<char>, x: Seq<char>, b: Seq<char>, y: Seq<char>)
    requires
        !a.contains('#'),
        !b.contains('#'),
    ensures
        dynamodb_item::joined_key(a, x) == dynamodb_item::joined_key(b, y) ==> a == b && x == y,
{
    reveal_strlit("#");
    let k = dynamodb_item::joined_key(a, x);
    let l = dynamodb_item::joined_key(b, y);
    assert(k[a.len() as int] == '#' && l[b.len() as int] == '#');
    if k == l {
        if a.len() < b.len() {
            assert(b[a.len() as int] == k[a.len() as int]);
            assert(b.contains('#'));
        } else if b.len() < a.len() {
            assert(a[b.len() as int] == l[b.len() as int]);
            assert(a.contains('#'));
        } else {
            assert(a =~= k.take(a.len() as int) && b =~= l.take(b.len() as int));
            assert(x =~= k.skip(a.len() as int + 1) && y =~= l.skip(b.len() as int + 1));
        }
    }
}

} // verus!
