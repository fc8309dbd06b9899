//! Task lookups by [`TaskId`], built once for each workflow.
use crate::continuation;
use crate::continuation::{NodeInfo, WorkflowContinuation};
use crate::duration::Duration;
use crate::hash32;
use crate::hash32::TaskId;
use crate::string_map::StringMap;
use crate::task;
use crate::task::{clone_opt_retry, Meta, Retry, RetryPolicy, TaskMetadata};
use crate::text;
use crate::text::{clone_opt_text, clone_texts};
use crate::tree;
use crate::tree::Info;
use crate::workflow::NodeKind;
use vstd::prelude::*;

verus! {

/// Metadata captured of a node, found under its [`TaskId`].
#[derive(Debug)]
pub struct TaskNodeMetadata {
    /// Human-readable node id.
    pub name: String,
    /// Configured timeout of a task.
    pub timeout: Option<Duration>,
    /// Configured priority (1–5; lower runs first).
    pub priority: Option<u8>,
    /// Affinity tags.
    pub tags: Vec<String>,
    /// Configured retry policy.
    pub retry_policy: Option<RetryPolicy>,
    /// Optional version string.
    pub version: Option<String>,
}

/// The contents of a [`TaskNodeMetadata`].
pub struct NodeMeta {
    pub name: Seq<char>,
    pub timeout: Option<Duration>,
    pub priority: Option<u8>,
    pub tags: Seq<Seq<char>>,
    pub retry: Option<Retry>,
    pub version: Option<Seq<char>>,
}

impl View for TaskNodeMetadata {
    type V = NodeMeta;

    open spec fn view(&self) -> NodeMeta {
        NodeMeta {
            name: self.name@,
            timeout: self.timeout,
            priority: self.priority,
            tags: text::texts(self.tags@),
            retry: task::opt_retry(self.retry_policy),
            version: text::opt_text(self.version),
        }
    }
}

/// The digest of a node id.
pub open spec fn id_digest(id: Seq<char>) -> Seq<u8> {
    hash32::sha256_digest(vstd::utf8::encode_utf8(id))
}

/// The key under which the node with a digest is kept.
pub open spec fn digest_key(d: Seq<u8>) -> Seq<char> {
    hash32::hex_text(d)
}

/// A node that the index knows: tasks, delays and signals.
pub open spec fn indexed(i: Info) -> bool {
    i.kind == NodeKind::Task || i.kind == NodeKind::Delay || i.kind == NodeKind::AwaitSignal
}

/// What the index keeps of a node. Only a task has a timeout in it.
pub open spec fn entry(i: Info) -> NodeMeta {
    NodeMeta {
        name: i.id,
        timeout: if i.kind == NodeKind::Task {
            i.timeout
        } else {
            None
        },
        priority: i.priority,
        tags: i.tags,
        retry: i.retry,
        version: i.version,
    }
}

/// The index of the first `k` nodes of a walk. The last of equal keys wins.
pub open spec fn index_of(s: Seq<Info>, k: nat) -> Map<Seq<char>, NodeMeta>
    decreases k,
{
    if k == 0 || k > s.len() {
        Map::empty()
    } else {
        let p = index_of(s, (k - 1) as nat);
        if indexed(s[k - 1]) {
            p.insert(digest_key(id_digest(s[k - 1].id)), entry(s[k - 1]))
        } else {
            p
        }
    }
}

/// The contents of a map of node metadata.
pub open spec fn metas_of(m: Map<Seq<char>, TaskNodeMetadata>) -> Map<Seq<char>, NodeMeta> {
    m.map_values(|x: TaskNodeMetadata| x@)
}

/// Lookup table from [`TaskId`] to node metadata.
pub struct TaskIndex {
    /// The metadata by the hexadecimal text of the task id.
    pub nodes: StringMap<TaskNodeMetadata>,
}

impl View for TaskIndex {
    type V = Map<Seq<char>, NodeMeta>;

    open spec fn view(&self) -> Map<Seq<char>, NodeMeta> {
        metas_of(self.nodes@)
    }
}

impl TaskNodeMetadata {
    /// What the index keeps of a reported node.
    fn of_node(n: &NodeInfo) -> (r: Self)
        ensures
            r@ == entry(n.info()),
    {
        TaskNodeMetadata {
            name: String::from_str(n.id),
            timeout: match n.kind {
                NodeKind::Task => n.timeout,
                _ => None,
            },
            priority: n.priority,
            tags: match n.tags {
                Some(t) => clone_texts(t),
                None => {
                    let none: Vec<String> = Vec::new();
                    proof {
                        assert(text::texts(none@) =~= seq![]);
                    }
                    none
                },
            },
            retry_policy: match n.retry_policy {
                Some(p) => Some(p.clone()),
                None => None,
            },
            version: match n.version {
                Some(v) => Some(v.clone()),
                None => None,
            },
        }
    }

    /// Human-readable node id.
    pub fn name(&self) -> (r: &str)
        ensures
            r@ == self@.name,
    {
        self.name.as_str()
    }

    /// Configured timeout, if any.
    pub fn timeout(&self) -> (r: Option<Duration>)
        ensures
            r == self@.timeout,
    {
        self.timeout
    }

    /// Configured priority.
    pub fn priority(&self) -> (r: Option<u8>)
        ensures
            r == self@.priority,
    {
        self.priority
    }

    /// Affinity tags for worker-pool routing.
    pub fn tags(&self) -> (r: &Vec<String>)
        ensures
            text::texts(r@) == self@.tags,
    {
        &self.tags
    }

    /// Configured retry policy.
    pub fn retry_policy(&self) -> (r: Option<&RetryPolicy>)
        ensures
            (match r {
                Some(p) => Some(p@),
                None => None,
            }) == self@.retry,
    {
        match &self.retry_policy {
            Some(p) => Some(p),
            None => None,
        }
    }

    /// Optional version string.
    pub fn version(&self) -> (r: Option<&str>)
        ensures
            continuation::opt_str(r) == self@.version,
    {
        match &self.version {
            Some(v) => Some(v.as_str()),
            None => None,
        }
    }
}

/// What an index holds under a digest.
pub open spec fn found(m: Map<Seq<char>, NodeMeta>, d: Seq<u8>) -> Option<NodeMeta> {
    if m.dom().contains(digest_key(d)) {
        Some(m[digest_key(d)])
    } else {
        None
    }
}

impl TaskIndex {
    /// Build the index by walking over a tree once.
    pub fn build(cont: &WorkflowContinuation) -> (r: Self)
        ensures
            r@ == index_of(
                tree::infos(cont.node(), None),
                tree::infos(cont.node(), None).len(),
            ),
    {
        let mut walk = cont.iter_nodes();
        let all = walk.collect_all();
        let ghost s = tree::infos(cont.node(), None);
        let mut nodes: StringMap<TaskNodeMetadata> = StringMap::new();
        let mut i: usize = 0;
        proof {
            assert(metas_of(nodes@) =~= index_of(s, 0));
        }
        while i < all.len()
            invariant
                i <= all@.len(),
                s == continuation::reports(all@),
                metas_of(nodes@) == index_of(s, i as nat),
            decreases all@.len() - i,
        {
            let n = &all[i];
            proof {
                assert(s[i as int] == n.info());
            }
            let keep = match n.kind {
                NodeKind::Task => true,
                NodeKind::Delay => true,
                NodeKind::AwaitSignal => true,
                _ => false,
            };
            if keep {
                let ghost before = nodes@;
                let meta = TaskNodeMetadata::of_node(n);
                let ghost put = meta@;
                let key = TaskId::from(n.id).to_hex();
                let ghost k = key@;
                nodes.insert(key, meta);
                proof {
                    assert(metas_of(nodes@) =~= metas_of(before).insert(k, put));
                }
            }
            i = i + 1;
        }
        TaskIndex { nodes }
    }

    /// `true` if the index knows about `task_id`.
    pub fn contains(&self, task_id: &TaskId) -> (r: bool)
        ensures
            r == (found(self@, task_id@) is Some),
    {
        self.nodes.contains_key(task_id.to_hex().as_str())
    }

    /// Borrow the metadata for `task_id`.
    pub fn get(&self, task_id: &TaskId) -> (r: Option<&TaskNodeMetadata>)
        ensures
            (match r {
                Some(m) => Some(m@),
                None => None,
            }) == found(self@, task_id@),
    {
        self.nodes.get(task_id.to_hex().as_str())
    }

    /// Human-readable node id for `task_id`, if any.
    pub fn name(&self, task_id: &TaskId) -> (r: Option<&str>)
        ensures
            continuation::opt_str(r) == (match found(self@, task_id@) {
                Some(m) => Some(m.name),
                None => None,
            }),
    {
        match self.get(task_id) {
            Some(m) => Some(m.name()),
            None => None,
        }
    }

    /// Look up the priority configured on `task_id`.
    pub fn priority(&self, task_id: &TaskId) -> (r: Option<u8>)
        ensures
            r == (match found(self@, task_id@) {
                Some(m) => m.priority,
                None => None,
            }),
    {
        match self.get(task_id) {
            Some(m) => m.priority,
            None => None,
        }
    }

    /// Look up the timeout configured on `task_id`.
    pub fn timeout(&self, task_id: &TaskId) -> (r: Option<Duration>)
        ensures
            r == (match found(self@, task_id@) {
                Some(m) => m.timeout,
                None => None,
            }),
    {
        match self.get(task_id) {
            Some(m) => m.timeout,
            None => None,
        }
    }

    /// Look up the affinity tags configured on `task_id`.
    pub fn tags(&self, task_id: &TaskId) -> (r: Vec<String>)
        ensures
            text::texts(r@) == (match found(self@, task_id@) {
                Some(m) => m.tags,
                None => seq![],
            }),
    {
        match self.get(task_id) {
            Some(m) => clone_texts(&m.tags),
            None => {
                let none: Vec<String> = Vec::new();
                proof {
                    assert(text::texts(none@) =~= seq![]);
                }
                none
            },
        }
    }

    /// Look up the retry policy configured on `task_id`.
    pub fn retry_policy(&self, task_id: &TaskId) -> (r: Option<&RetryPolicy>)
        ensures
            (match r {
                Some(p) => Some(p@),
                None => None,
            }) == (match found(self@, task_id@) {
                Some(m) => m.retry,
                None => None,
            }),
    {
        match self.get(task_id) {
            Some(m) => m.retry_policy(),
            None => None,
        }
    }

    /// Build a [`TaskMetadata`] from the indexed fields.
    pub fn build_task_metadata(&self, task_id: &TaskId) -> (r: TaskMetadata)
        ensures
            r@ == found_meta(self@, task_id@),
    {
        match self.get(task_id) {
            Some(m) => TaskMetadata::from_node_fields(
                m.timeout,
                clone_opt_retry(&m.retry_policy),
                clone_opt_text(&m.version),
                m.priority,
                clone_texts(&m.tags),
            ),
            None => TaskMetadata::default(),
        }
    }

    /// Number of indexed nodes.
    pub fn len(&self) -> (r: usize)
        ensures
            r == self@.len(),
    {
        proof {
            assert(self@.dom() =~= self.nodes@.dom());
        }
        self.nodes.len()
    }

    /// `true` when no nodes are indexed.
    pub fn is_empty(&self) -> (r: bool)
        ensures
            r == (self@ == Map::<Seq<char>, NodeMeta>::empty()),
    {
        proof {
            if self.nodes@ == Map::<Seq<char>, TaskNodeMetadata>::empty() {
                assert(self@ =~= Map::<Seq<char>, NodeMeta>::empty());
            } else if self@ == Map::<Seq<char>, NodeMeta>::empty() {
                assert(self.nodes@.dom() =~= self@.dom());
                assert(self.nodes@ =~= Map::<Seq<char>, TaskNodeMetadata>::empty());
            }
        }
        self.nodes.is_empty()
    }
}

/// The task metadata that an index describes.
pub open spec fn found_meta(m: Map<Seq<char>, NodeMeta>, d: Seq<u8>) -> Meta {
    match found(m, d) {
        Some(x) => task::node_meta(x.timeout, x.retry, x.version, x.priority, x.tags),
        None => task::no_meta(),
    }
}

/// Every task, delay and signal that a walk reports is in the index: under
/// the digest of its id, unless a later one has the same digest.
pub proof fn law_index_knows_every_node(s: Seq<Info>, k: nat, j: int)
    requires
        k <= s.len(),
        0 <= j < k,
        indexed(s[j]),
        forall|i: int|
            j < i < k && indexed(#[trigger] s[i]) ==> digest_key(id_digest(s[i].id)) != digest_key(
                id_digest(s[j].id),
            ),
    ensures
        found(index_of(s, k), id_digest(s[j].id)) == Some(entry(s[j])),
    decreases k,
{
    if j < k - 1 {
        law_index_knows_every_node(s, (k - 1) as nat, j);
        assert(indexed(s[k - 1]) ==> digest_key(id_digest(s[k - 1].id)) != digest_key(
            id_digest(s[j].id),
        ));
    }
}

/// The index holds nothing but nodes of the walk.
pub proof fn law_index_holds_only_nodes(s: Seq<Info>, k: nat, key: Seq<char>)
    requires
        k <= s.len(),
        index_of(s, k).dom().contains(key),
    ensures
        exists|j: int|
            0 <= j < k && indexed(#[trigger] s[j]) && digest_key(id_digest(s[j].id)) == key
                && index_of(s, k)[key] == entry(s[j]),
    decreases k,
{
    if k > 0 {
        if indexed(s[k - 1]) && digest_key(id_digest(s[k - 1].id)) == key {
            assert(indexed(s[k - 1]));
        } else {
            law_index_holds_only_nodes(s, (k - 1) as nat, key);
        }
    }
}

} // verus!
