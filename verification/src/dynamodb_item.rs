//! Items of a key-value table and the requests on them.
use crate::string_map::StringMap;
use crate::text;
use crate::text::{clone_bytes, concat};
use vstd::prelude::*;

verus! {

/// The value of an attribute.
#[derive(Debug)]
pub enum Value {
    /// A string.
    S(String),
    /// A number, as its decimal text.
    N(String),
    /// Bytes.
    B(Vec<u8>),
}

/// The contents of a [`Value`].
pub enum Val {
    S(Seq<char>),
    N(Seq<char>),
    B(Seq<u8>),
}

impl View for Value {
    type V = Val;

    open spec fn view(&self) -> Val {
        match *self {
            Value::S(s) => Val::S(s@),
            Value::N(s) => Val::N(s@),
            Value::B(b) => Val::B(b@),
        }
    }
}

/// The attributes of an item by name.
pub struct Item {
    /// The attributes.
    pub attributes: StringMap<Value>,
}

/// The contents of a map of attributes.
pub open spec fn vals(m: Map<Seq<char>, Value>) -> Map<Seq<char>, Val> {
    m.map_values(|v: Value| v@)
}

impl View for Item {
    type V = Map<Seq<char>, Val>;

    open spec fn view(&self) -> Map<Seq<char>, Val> {
        vals(self.attributes@)
    }
}

/// The string under a name, if there is one.
pub open spec fn text_of(m: Map<Seq<char>, Val>, name: Seq<char>) -> Option<Seq<char>> {
    if m.dom().contains(name) {
        match m[name] {
            Val::S(s) => Some(s),
            _ => None,
        }
    } else {
        None
    }
}

/// The number under a name, if there is one, as its decimal text.
pub open spec fn number_of(m: Map<Seq<char>, Val>, name: Seq<char>) -> Option<Seq<char>> {
    if m.dom().contains(name) {
        match m[name] {
            Val::N(s) => Some(s),
            _ => None,
        }
    } else {
        None
    }
}

/// The bytes under a name, if there are any.
pub open spec fn bytes_of(m: Map<Seq<char>, Val>, name: Seq<char>) -> Option<Seq<u8>> {
    if m.dom().contains(name) {
        match m[name] {
            Val::B(b) => Some(b),
            _ => None,
        }
    } else {
        None
    }
}

/// An item with a string more, where there is one.
pub open spec fn with_text(
    m: Map<Seq<char>, Val>,
    name: Seq<char>,
    o: Option<Seq<char>>,
) -> Map<Seq<char>, Val> {
    match o {
        Some(s) => m.insert(name, Val::S(s)),
        None => m,
    }
}

impl Item {
    /// An item without attributes.
    pub fn new() -> (r: Self)
        ensures
            r@ == Map::<Seq<char>, Val>::empty(),
    {
        let r = Item { attributes: StringMap::new() };
        proof {
            assert(r@ =~= Map::<Seq<char>, Val>::empty());
        }
        r
    }

    /// Put a value under a name.
    pub fn set(&mut self, name: &str, value: Value)
        ensures
            final(self)@ == old(self)@.insert(name@, value@),
    {
        let ghost before = self@;
        self.attributes.insert(String::from_str(name), value);
        proof {
            assert(self@ =~= before.insert(name@, value@));
        }
    }

    /// Put a string under a name.
    pub fn set_text(&mut self, name: &str, value: &str)
        ensures
            final(self)@ == old(self)@.insert(name@, Val::S(value@)),
    {
        self.set(name, Value::S(String::from_str(value)));
    }

    /// Put a string under a name, if there is one.
    pub fn set_opt_text(&mut self, name: &str, value: Option<&str>)
        ensures
            final(self)@ == with_text(
                old(self)@,
                name@,
                crate::continuation::opt_str(value),
            ),
    {
        if let Some(v) = value {
            self.set_text(name, v);
        }
    }

    /// Put a number under a name.
    pub fn set_number(&mut self, name: &str, value: u64)
        ensures
            final(self)@ == old(self)@.insert(name@, Val::N(text::decimal(value as nat))),
    {
        self.set(name, Value::N(text::decimal_text(value as u128)));
    }

    /// The value under a name.
    pub fn get(&self, name: &str) -> (r: Option<&Value>)
        ensures
            match r {
                Some(v) => self@.dom().contains(name@) && self@[name@] == v@,
                None => !self@.dom().contains(name@),
            },
    {
        self.attributes.get(name)
    }

    /// The string under a name.
    pub fn text(&self, name: &str) -> (r: Option<&str>)
        ensures
            crate::continuation::opt_str(r) == text_of(self@, name@),
    {
        match self.get(name) {
            Some(Value::S(s)) => Some(s.as_str()),
            _ => None,
        }
    }

    /// The number under a name, as its decimal text.
    pub fn number(&self, name: &str) -> (r: Option<&str>)
        ensures
            crate::continuation::opt_str(r) == number_of(self@, name@),
    {
        match self.get(name) {
            Some(Value::N(s)) => Some(s.as_str()),
            _ => None,
        }
    }

    /// The bytes under a name.
    pub fn bytes(&self, name: &str) -> (r: Option<Vec<u8>>)
        ensures
            crate::snapshot::opt_bytes(r) == bytes_of(self@, name@),
    {
        match self.get(name) {
            Some(Value::B(b)) => Some(clone_bytes(b)),
            _ => None,
        }
    }
}

/// The key of an item: partition key and sort key.
pub open spec fn key_map(pk: Seq<char>, sk: Seq<char>) -> Map<Seq<char>, Val> {
    Map::<Seq<char>, Val>::empty().insert("PK"@, Val::S(pk)).insert("SK"@, Val::S(sk))
}

/// The key of an item: partition key and sort key.
pub fn key_item(pk: &str, sk: &str) -> (r: Item)
    ensures
        r@ == key_map(pk@, sk@),
{
    let mut k = Item::new();
    k.set_text("PK", pk);
    k.set_text("SK", sk);
    k
}

/// The key of an item that has a partition key alone.
pub open spec fn lone_key_map(pk: Seq<char>) -> Map<Seq<char>, Val> {
    Map::<Seq<char>, Val>::empty().insert("PK"@, Val::S(pk))
}

/// The key of an item that has a partition key alone.
pub fn lone_key_item(pk: &str) -> (r: Item)
    ensures
        r@ == lone_key_map(pk@),
{
    let mut k = Item::new();
    k.set_text("PK", pk);
    k
}

/// A condition on a write, with the values that it names.
pub struct Guard {
    /// The condition.
    pub expression: String,
    /// The values by placeholder.
    pub values: Item,
}

/// The contents of a [`Guard`].
pub struct GuardSpec {
    pub expression: Seq<char>,
    pub values: Map<Seq<char>, Val>,
}

impl View for Guard {
    type V = GuardSpec;

    open spec fn view(&self) -> GuardSpec {
        GuardSpec { expression: self.expression@, values: self.values@ }
    }
}

/// The contents of an optional [`Guard`].
pub open spec fn opt_guard(o: Option<Guard>) -> Option<GuardSpec> {
    match o {
        Some(g) => Some(g@),
        None => None,
    }
}

/// A write to a table.
#[allow(inconsistent_fields)]
pub enum Write {
    /// Put an item in place of what may be under its key.
    Put {
        /// The table.
        table: String,
        /// The item.
        item: Item,
        /// The condition, if any.
        guard: Option<Guard>,
    },
    /// Delete the item under a key.
    Delete {
        /// The table.
        table: String,
        /// The key.
        key: Item,
        /// The condition, if any.
        guard: Option<Guard>,
    },
    /// Change the item under a key.
    Update {
        /// The table.
        table: String,
        /// The key.
        key: Item,
        /// The change.
        update: String,
        /// The condition, with the values that it and the change name.
        guard: Guard,
    },
}

/// The contents of a [`Write`].
#[allow(inconsistent_fields)]
pub enum WriteSpec {
    Put { table: Seq<char>, item: Map<Seq<char>, Val>, guard: Option<GuardSpec> },
    Delete { table: Seq<char>, key: Map<Seq<char>, Val>, guard: Option<GuardSpec> },
    Update { table: Seq<char>, key: Map<Seq<char>, Val>, update: Seq<char>, guard: GuardSpec },
}

impl View for Write {
    type V = WriteSpec;

    open spec fn view(&self) -> WriteSpec {
        match *self {
            Write::Put { table, item, guard } => WriteSpec::Put {
                table: table@,
                item: item@,
                guard: opt_guard(guard),
            },
            Write::Delete { table, key, guard } => WriteSpec::Delete {
                table: table@,
                key: key@,
                guard: opt_guard(guard),
            },
            Write::Update { table, key, update, guard } => WriteSpec::Update {
                table: table@,
                key: key@,
                update: update@,
                guard: guard@,
            },
        }
    }
}

/// The contents of a list of writes.
pub open spec fn writes(v: Seq<Write>) -> Seq<WriteSpec> {
    Seq::new(v.len(), |i: int| v[i]@)
}

/// A query on a table or on an index of it.
pub struct Query {
    /// The table.
    pub table: String,
    /// The index, if not the table itself.
    pub index: Option<String>,
    /// The condition on the keys.
    pub key_condition: String,
    /// The attribute names by placeholder.
    pub names: StringMap<String>,
    /// The values by placeholder.
    pub values: Item,
    /// Whether the order of the sort keys is asked for.
    pub forward: bool,
    /// How many items at most; `None` for no limit.
    pub limit: Option<i32>,
}

/// The contents of a [`Query`].
pub struct QuerySpec {
    pub table: Seq<char>,
    pub index: Option<Seq<char>>,
    pub key_condition: Seq<char>,
    pub names: Map<Seq<char>, Seq<char>>,
    pub values: Map<Seq<char>, Val>,
    pub forward: bool,
    pub limit: Option<i32>,
}

impl View for Query {
    type V = QuerySpec;

    open spec fn view(&self) -> QuerySpec {
        QuerySpec {
            table: self.table@,
            index: text::opt_text(self.index),
            key_condition: self.key_condition@,
            names: self.names@.map_values(|s: String| s@),
            values: self.values@,
            forward: self.forward,
            limit: self.limit,
        }
    }
}

/// The query for the items under a partition key.
pub open spec fn partition_query(
    table: Seq<char>,
    pk: Seq<char>,
    forward: bool,
) -> QuerySpec {
    QuerySpec {
        table,
        index: None,
        key_condition: "PK = :pk"@,
        names: Map::empty(),
        values: Map::<Seq<char>, Val>::empty().insert(":pk"@, Val::S(pk)),
        forward,
        limit: Some(1),
    }
}

/// The query for the first item under a partition key.
pub fn query_partition(table: &str, pk: &str, forward: bool) -> (r: Query)
    ensures
        r@ == partition_query(table@, pk@, forward),
{
    let mut values = Item::new();
    values.set_text(":pk", pk);
    let r = Query {
        table: String::from_str(table),
        index: None,
        key_condition: String::from_str("PK = :pk"),
        names: StringMap::new(),
        values,
        forward,
        limit: Some(1),
    };
    proof {
        assert(r@.names =~= Map::<Seq<char>, Seq<char>>::empty());
    }
    r
}

/// `{a}#{b}`.
pub open spec fn joined_key(a: Seq<char>, b: Seq<char>) -> Seq<char> {
    a + "#"@ + b
}

/// `{a}#{b}`.
pub fn join_key(a: &str, b: &str) -> (r: String)
    ensures
        r@ == joined_key(a@, b@),
{
    text::concat3(a, "#", b)
}

/// The partition key of a snapshot: `SNAP#{instance_id}`.
pub fn snap_pk(instance_id: &str) -> (r: String)
    ensures
        r@ == "SNAP#"@ + instance_id@,
{
    concat("SNAP#", instance_id)
}

/// The partition key of a history entry: `HIST#{instance_id}`.
pub fn hist_pk(instance_id: &str) -> (r: String)
    ensures
        r@ == "HIST#"@ + instance_id@,
{
    concat("HIST#", instance_id)
}

/// The partition key of a signal: `SIG#{instance_id}`.
pub fn sig_pk(instance_id: &str) -> (r: String)
    ensures
        r@ == "SIG#"@ + instance_id@,
{
    concat("SIG#", instance_id)
}

/// The partition key of the events of a signal: `{instance_id}#{signal_name}`.
pub fn event_pk(instance_id: &str, signal_name: &str) -> (r: String)
    ensures
        r@ == joined_key(instance_id@, signal_name@),
{
    join_key(instance_id, signal_name)
}

/// The partition key of a claim: `{instance_id}#{task_id}`.
pub fn claim_pk(instance_id: &str, task_id: &str) -> (r: String)
    ensures
        r@ == joined_key(instance_id@, task_id@),
{
    join_key(instance_id, task_id)
}

} // verus!
