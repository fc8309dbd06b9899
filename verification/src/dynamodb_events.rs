//! Queues of external events, and the listing of stored snapshots.
use crate::backend_error::{BackendError, BackendFault, WriteOutcome};
use crate::dynamodb_item;
use crate::dynamodb_item::{
    event_pk, key_item, query_partition, Guard, Item, Query, Val, Value, Write, WriteSpec,
};
use crate::dynamodb_store;
use crate::dynamodb_store::DynamoDbBackend;
use crate::text;
use vstd::prelude::*;

verus! {

/// A character of Crockford's base 32.
pub open spec fn base32_char(c: char) -> bool {
    ('0' <= c <= '9') || ('A' <= c <= 'Z' && c != 'I' && c != 'L' && c != 'O' && c != 'U')
}

/// `ulid::Ulid::new` as text: 26 characters of Crockford's base 32. Which ones depends
/// on the clock and on chance.
#[verifier::external_body]
fn new_ulid() -> (r: String)
    ensures
        r@.len() == 26,
        forall|i: int| 0 <= i < r@.len() ==> base32_char(#[trigger] r@[i]),
{
    ulid::Ulid::new().to_string()
}

/// The generator of ids gave this one.
pub closed spec fn generated_id(id: Seq<char>) -> bool {
    exists|r: String| r@ == id && #[trigger] call_ensures(new_ulid, (), r)
}

/// The stored form of an event.
pub open spec fn event_map(
    instance_id: Seq<char>,
    signal_name: Seq<char>,
    id: Seq<char>,
    payload: Seq<u8>,
) -> Map<Seq<char>, Val> {
    dynamodb_item::key_map(dynamodb_item::joined_key(instance_id, signal_name), id).insert(
        "payload"@,
        Val::B(payload),
    )
}

/// What the oldest event in an answer to a query is: its sort key and its payload.
pub open spec fn oldest(items: Seq<Map<Seq<char>, Val>>) -> Result<
    Option<(Seq<char>, Seq<u8>)>,
    Seq<char>,
> {
    if items.len() == 0 {
        Ok(None)
    } else {
        match dynamodb_item::text_of(items[0], "SK"@) {
            None => Err("missing SK in event"@),
            Some(sk) => match dynamodb_item::bytes_of(items[0], "payload"@) {
                None => Err("missing payload in event"@),
                Some(p) => Ok(Some((sk, p))),
            },
        }
    }
}

/// The contents of a list of items.
pub open spec fn item_maps(v: Seq<Item>) -> Seq<Map<Seq<char>, Val>> {
    Seq::new(v.len(), |i: int| v[i]@)
}

/// The oldest event in an answer to a query: its sort key and its payload.
pub fn oldest_event(items: &Vec<Item>) -> (r: Result<Option<(String, Vec<u8>)>, BackendError>)
    ensures
        match oldest(item_maps(items@)) {
            Ok(Some(x)) => r is Ok && r->Ok_0 is Some && (r->Ok_0->0).0@ == x.0 && (
            r->Ok_0->0).1@ == x.1,
            Ok(None) => r is Ok && r->Ok_0 is None,
            Err(m) => r is Err && r->Err_0@ == BackendFault::Backend(m),
        },
{
    if items.len() == 0 {
        return Ok(None);
    }
    let sk = match items[0].text("SK") {
        Some(s) => String::from_str(s),
        None => {
            return Err(BackendError::Backend(String::from_str("missing SK in event")));
        },
    };
    match items[0].bytes("payload") {
        Some(p) => Ok(Some((sk, p))),
        None => Err(BackendError::Backend(String::from_str("missing payload in event"))),
    }
}

/// What consuming an event came to: its payload, or nothing where somebody else
/// consumed it first.
pub fn event_consumed(payload: Vec<u8>, outcome: WriteOutcome) -> (r: Result<
    Option<Vec<u8>>,
    BackendError,
>)
    ensures
        match outcome {
            WriteOutcome::Done => r == Ok::<Option<Vec<u8>>, BackendError>(Some(payload)),
            WriteOutcome::ConditionFailed => r is Ok && r->Ok_0 is None,
            WriteOutcome::Failed(e) => r is Err && r->Err_0@ == BackendFault::Backend(e@),
        },
{
    match outcome {
        WriteOutcome::Done => Ok(Some(payload)),
        WriteOutcome::ConditionFailed => Ok(None),
        WriteOutcome::Failed(e) => Err(BackendError::Backend(e)),
    }
}

impl<C> DynamoDbBackend<C> {
    /// The write of an event under an id of its own.
    pub fn event_write(
        &self,
        instance_id: &str,
        signal_name: &str,
        id: &str,
        payload: Vec<u8>,
    ) -> (r: Write)
        ensures
            r@ == dynamodb_store::plain_put(
                self.events_table@,
                event_map(instance_id@, signal_name@, id@, payload@),
            ),
    {
        let mut item = key_item(event_pk(instance_id, signal_name).as_str(), id);
        item.set("payload", Value::B(payload));
        Write::Put { table: self.events_table.clone(), item, guard: None }
    }

    /// The write of an event under a new id.
    pub fn send_event(&self, instance_id: &str, signal_name: &str, payload: Vec<u8>) -> (r: Write)
        ensures
            exists|id: Seq<char>| #[trigger]
                generated_id(id) && id.len() == 26 && (forall|i: int|
                    0 <= i < id.len() ==> base32_char(#[trigger] id[i])) && r@
                    == dynamodb_store::plain_put(
                    self.events_table@,
                    event_map(instance_id@, signal_name@, id, payload@),
                ),
    {
        let id = new_ulid();
        proof {
            assert(call_ensures(new_ulid, (), id));
            assert(generated_id(id@));
        }
        self.event_write(instance_id, signal_name, id.as_str(), payload)
    }

    /// The query for the oldest event of a signal.
    pub fn event_query(&self, instance_id: &str, signal_name: &str) -> (r: Query)
        ensures
            r@ == dynamodb_item::partition_query(
                self.events_table@,
                dynamodb_item::joined_key(instance_id@, signal_name@),
                true,
            ),
    {
        query_partition(
            self.events_table.as_str(),
            event_pk(instance_id, signal_name).as_str(),
            true,
        )
    }

    /// The deletion of an event, which has to be there still.
    pub fn consume_event(&self, instance_id: &str, signal_name: &str, sk: &str) -> (r: Write)
        ensures
            r@ == (WriteSpec::Delete {
                table: self.events_table@,
                key: dynamodb_item::key_map(
                    dynamodb_item::joined_key(instance_id@, signal_name@),
                    sk@,
                ),
                guard: Some(dynamodb_store::presence_guard()),
            }),
    {
        Write::Delete {
            table: self.events_table.clone(),
            key: key_item(event_pk(instance_id, signal_name).as_str(), sk),
            guard: Some(
                Guard { expression: String::from_str("attribute_exists(PK)"), values: Item::new() },
            ),
        }
    }
}

/// The ids in the first `k` items of a page of a scan; items without one are left out.
pub open spec fn listed_ids(items: Seq<Map<Seq<char>, Val>>, k: nat) -> Seq<Seq<char>>
    decreases k,
{
    if k == 0 || k > items.len() {
        seq![]
    } else {
        let p = listed_ids(items, (k - 1) as nat);
        match dynamodb_item::text_of(items[k - 1], "instance_id"@) {
            Some(id) => p.push(id),
            None => p,
        }
    }
}

/// The filter of the scan for current snapshots, with the values that it names.
pub fn snapshot_filter() -> (r: Guard)
    ensures
        r.expression@ == "SK = :current AND begins_with(PK, :snap_prefix)"@,
        r.values@ == Map::<Seq<char>, Val>::empty().insert(
            ":current"@,
            Val::S("current"@),
        ).insert(":snap_prefix"@, Val::S("SNAP#"@)),
{
    let mut values = Item::new();
    values.set_text(":current", "current");
    values.set_text(":snap_prefix", "SNAP#");
    Guard {
        expression: String::from_str("SK = :current AND begins_with(PK, :snap_prefix)"),
        values,
    }
}

/// Take in a page of the scan for current snapshots. The result says where the next
/// page starts; `None` where there is none.
pub fn list_snapshots(ids: &mut Vec<String>, items: &Vec<Item>, last_key: Option<Item>) -> (r:
    Option<Item>)
    ensures
        text::texts(final(ids)@) == text::texts(old(ids)@) + listed_ids(
            item_maps(items@),
            items@.len(),
        ),
        match last_key {
            Some(k) => if k@.dom() == Set::<Seq<char>>::empty() {
                r is None
            } else {
                r == Some(k)
            },
            None => r is None,
        },
{
    let ghost s = item_maps(items@);
    let ghost start = text::texts(ids@);
    let mut i: usize = 0;
    proof {
        assert(start + listed_ids(s, 0) =~= start);
    }
    while i < items.len()
        invariant
            i <= items@.len(),
            s == item_maps(items@),
            text::texts(ids@) == start + listed_ids(s, i as nat),
        decreases items@.len() - i,
    {
        if let Some(id) = items[i].text("instance_id") {
            let t = String::from_str(id);
            proof {
                text::lemma_texts_push(ids@, t);
                assert(start + listed_ids(s, i as nat).push(t@) =~= (start + listed_ids(
                    s,
                    i as nat,
                )).push(t@));
            }
            ids.push(t);
        }
        i = i + 1;
    }
    match last_key {
        Some(k) => {
            proof {
                assert(k@.dom() =~= k.attributes@.dom());
                if k.attributes@ == Map::<Seq<char>, Value>::empty() {
                    assert(k@.dom() =~= Set::<Seq<char>>::empty());
                } else if k@.dom() == Set::<Seq<char>>::empty() {
                    assert(k.attributes@ =~= Map::<Seq<char>, Value>::empty());
                }
            }
            if k.attributes.is_empty() {
                None
            } else {
                Some(k)
            }
        },
        None => None,
    }
}

} // verus!
