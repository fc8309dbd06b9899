//! Named branch results — the outputs of parallel fork branches.
use crate::codec::{Codec, DecodeValue};
use crate::error::{BoxError, WorkflowError};
use crate::string_map;
use crate::string_map::StringMap;
use crate::text;
use crate::text::clone_bytes;
use std::sync::Arc;
use vstd::prelude::*;

verus! {

/// Named branch results — the outputs of parallel fork branches.
#[derive(Debug)]
pub struct NamedBranchResults {
    /// The pairs of name and data.
    pub results: Vec<(String, Vec<u8>)>,
}

/// The contents of a list of named results.
pub open spec fn named(v: Seq<(String, Vec<u8>)>) -> Seq<(Seq<char>, Seq<u8>)> {
    Seq::new(v.len(), |i: int| (v[i].0@, v[i].1@))
}

/// The lookup map of the first `k` named results. The last of equal names wins.
pub open spec fn lookup(s: Seq<(Seq<char>, Seq<u8>)>, k: nat) -> Map<Seq<char>, Seq<u8>>
    decreases k,
{
    if k == 0 || k > s.len() {
        Map::empty()
    } else {
        lookup(s, (k - 1) as nat).insert(s[k - 1].0, s[k - 1].1)
    }
}

/// The contents of a map of byte strings.
pub open spec fn contents(m: Map<Seq<char>, Vec<u8>>) -> Map<Seq<char>, Seq<u8>> {
    m.map_values(|b: Vec<u8>| b@)
}

impl View for NamedBranchResults {
    type V = Seq<(Seq<char>, Seq<u8>)>;

    open spec fn view(&self) -> Seq<(Seq<char>, Seq<u8>)> {
        named(self.results@)
    }
}

impl NamedBranchResults {
    /// Create from a vec of `(name, data)` pairs.
    pub fn new(results: Vec<(String, Vec<u8>)>) -> (r: Self)
        ensures
            r@ == named(results@),
    {
        NamedBranchResults { results }
    }

    /// View the underlying pairs.
    pub fn as_slice(&self) -> (r: &[(String, Vec<u8>)])
        ensures
            named(r@) == self@,
    {
        self.results.as_slice()
    }

    /// Number of branch results.
    pub fn len(&self) -> (r: usize)
        ensures
            r == self@.len(),
    {
        self.results.len()
    }

    /// Whether there are no results.
    pub fn is_empty(&self) -> (r: bool)
        ensures
            r == (self@.len() == 0),
    {
        self.results.len() == 0
    }

    /// Consume into the inner vec.
    pub fn into_vec(self) -> (r: Vec<(String, Vec<u8>)>)
        ensures
            named(r@) == self@,
    {
        self.results
    }

    /// Convert to a lookup map. When duplicate names exist, the last value wins.
    pub fn into_map(self) -> (r: StringMap<Vec<u8>>)
        ensures
            contents(r@) == lookup(self@, self@.len()),
    {
        let mut m: StringMap<Vec<u8>> = StringMap::new();
        let all = &self.results;
        let mut i: usize = 0;
        proof {
            assert(contents(m@) =~= lookup(self@, 0));
        }
        while i < all.len()
            invariant
                i <= all@.len(),
                *all == self.results,
                contents(m@) == lookup(self@, i as nat),
            decreases all@.len() - i,
        {
            let ghost before = m@;
            let value = clone_bytes(&all[i].1);
            let ghost put = value@;
            m.insert(all[i].0.clone(), value);
            proof {
                assert(self@[i as int] == (all@[i as int].0@, put));
                assert(contents(m@) =~= contents(before).insert(all@[i as int].0@, put));
            }
            i = i + 1;
        }
        m
    }
}

impl vstd::std_specs::convert::FromSpecImpl<Vec<(String, Vec<u8>)>> for NamedBranchResults {
    open spec fn obeys_from_spec() -> bool {
        true
    }

    open spec fn from_spec(results: Vec<(String, Vec<u8>)>) -> Self {
        NamedBranchResults { results }
    }
}

impl From<Vec<(String, Vec<u8>)>> for NamedBranchResults {
    fn from(results: Vec<(String, Vec<u8>)>) -> (r: Self) {
        NamedBranchResults { results }
    }
}

/// A map of branch outputs for a join, with the codec to decode them.
pub struct BranchOutputs<C> {
    /// The outputs by branch name.
    pub outputs: StringMap<Vec<u8>>,
    /// The codec.
    pub codec: Arc<C>,
}

impl<C> BranchOutputs<C> {
    /// Create a new `BranchOutputs` from raw data.
    pub fn new(outputs: StringMap<Vec<u8>>, codec: Arc<C>) -> (r: Self)
        ensures
            r.outputs == outputs,
            r.codec == codec,
    {
        BranchOutputs { outputs, codec }
    }

    /// Get the names of all branches, in order.
    pub fn branch_names(&self) -> (r: Vec<String>)
        ensures
            r@.len() == self.outputs.entries().len(),
            forall|i: int| 0 <= i < r@.len() ==> #[trigger] r@[i] == self.outputs.entries()[i].0,
            text::texts(r@).to_set() == self.outputs@.dom(),
            text::texts(r@).no_duplicates(),
    {
        let mut r: Vec<String> = Vec::new();
        let mut i: usize = 0;
        while i < self.outputs.len()
            invariant
                i <= self.outputs.entries().len(),
                r@.len() == i,
                forall|j: int|
                    0 <= j < i ==> #[trigger] r@[j] == self.outputs.entries()[j].0,
            decreases self.outputs.entries().len() - i,
        {
            r.push(self.outputs.key_at(i).clone());
            i = i + 1;
        }
        self.outputs.check_order();
        proof {
            let names = text::texts(r@);
            let all = self.outputs.entries();
            assert forall|k: Seq<char>|
                names.to_set().contains(k) == #[trigger] self.outputs@.dom().contains(k) by {
                if names.contains(k) {
                    let j = names.index_of(k);
                    assert(all[j].0@ == k);
                }
                if string_map::has_key(all, k) {
                    let j = choose|j: int| 0 <= j < all.len() && (#[trigger] all[j]).0@ == k;
                    assert(names[j] == k);
                }
            }
            assert(names.to_set() =~= self.outputs@.dom());
            assert forall|j: int, k: int| 0 <= j < k < names.len() implies names[j] != names[k] by {
                assert(string_map::key_less(all[j].0@, all[k].0@));
                string_map::lemma_key_less_irreflexive(all[j].0@);
            }
        }
        r
    }

    /// Check if a branch exists.
    pub fn contains(&self, name: &str) -> (r: bool)
        ensures
            r == self.outputs@.dom().contains(name@),
    {
        self.outputs.contains_key(name)
    }

    /// Get the number of branches.
    pub fn len(&self) -> (r: usize)
        ensures
            r == self.outputs@.len(),
    {
        self.outputs.len()
    }

    /// Check if there are no branches.
    pub fn is_empty(&self) -> (r: bool)
        ensures
            r == (self.outputs@ == Map::<Seq<char>, Vec<u8>>::empty()),
    {
        self.outputs.is_empty()
    }

    /// The raw output of a branch, or the error that there is none.
    pub fn get_bytes(&self, name: &str) -> (r: Result<Vec<u8>, WorkflowError>)
        ensures
            match r {
                Ok(b) => self.outputs@.dom().contains(name@) && b@ == self.outputs@[name@]@,
                Err(e) => !self.outputs@.dom().contains(name@) && (e
                    matches WorkflowError::BranchNotFound(n) && n@ == name@),
            },
    {
        match self.outputs.get(name) {
            Some(b) => Ok(clone_bytes(b)),
            None => Err(WorkflowError::BranchNotFound(String::from_str(name))),
        }
    }
}

impl<C: Codec> BranchOutputs<C> {
    /// Get a branch output by name, decoded to the requested type. What the codec makes
    /// of the bytes is the codec's; where there is no such branch, the error says so.
    pub fn get<T>(&self, name: &str) -> (r: Result<T, BoxError>) where C: DecodeValue<T>
        ensures
            if self.outputs@.dom().contains(name@) {
                exists|bytes: &[u8]|
                    bytes@ == self.outputs@[name@]@ && #[trigger] call_ensures(
                        C::decode_value,
                        (&*self.codec, bytes),
                        r,
                    )
            } else {
                r is Err && r->Err_0.message@ == "Branch '"@ + name@ + "' not found"@
            },
    {
        match self.get_bytes(name) {
            Ok(bytes) => self.codec.decode_value(bytes.as_slice()),
            Err(e) => Err(BoxError { message: e.to_string() }),
        }
    }
}

} // verus!
