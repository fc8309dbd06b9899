//! The task registry: which implementation stands behind a task id.
use crate::string_map::StringMap;
use crate::task;
use crate::task::{Meta, TaskHandle, TaskMetadata};
use vstd::prelude::*;

verus! {

/// A registered task: its implementation and its metadata.
#[derive(Debug)]
pub struct RegisteredTask {
    /// The implementation.
    pub handle: TaskHandle,
    /// The metadata given at registration.
    pub metadata: TaskMetadata,
}

/// Task ids with the implementations and metadata registered under them.
pub struct TaskRegistry {
    /// The registered tasks by id.
    pub tasks: StringMap<RegisteredTask>,
}

impl TaskRegistry {
    /// The implementation registered under each id.
    pub open spec fn handles(self) -> Map<Seq<char>, TaskHandle> {
        Map::new(
            |k: Seq<char>| self.tasks@.dom().contains(k),
            |k: Seq<char>| self.tasks@[k].handle,
        )
    }

    /// The metadata registered under each id.
    pub open spec fn metas(self) -> Map<Seq<char>, Meta> {
        Map::new(
            |k: Seq<char>| self.tasks@.dom().contains(k),
            |k: Seq<char>| self.tasks@[k].metadata@,
        )
    }

    /// An empty registry.
    pub fn new() -> (r: Self)
        ensures
            r.handles() == Map::<Seq<char>, TaskHandle>::empty(),
            r.metas() == Map::<Seq<char>, Meta>::empty(),
    {
        TaskRegistry { tasks: StringMap::new() }
    }

    /// Register an implementation without metadata. A later registration under the
    /// same id takes the place of an earlier one.
    pub fn register(&mut self, id: &str, handle: TaskHandle)
        ensures
            final(self).handles() == old(self).handles().insert(id@, handle),
            final(self).metas() == old(self).metas().insert(id@, task::no_meta()),
    {
        self.register_with_metadata(id, handle, TaskMetadata::default());
    }

    /// Register an implementation with metadata. A later registration under the
    /// same id takes the place of an earlier one.
    pub fn register_with_metadata(
        &mut self,
        id: &str,
        handle: TaskHandle,
        metadata: TaskMetadata,
    )
        ensures
            final(self).handles() == old(self).handles().insert(id@, handle),
            final(self).metas() == old(self).metas().insert(id@, metadata@),
    {
        self.tasks.insert(String::from_str(id), RegisteredTask { handle, metadata });
    }

    /// Whether an implementation is registered under the id.
    pub fn contains(&self, id: &str) -> (r: bool)
        ensures
            r == self.handles().dom().contains(id@),
    {
        self.tasks.contains_key(id)
    }

    /// The implementation registered under the id.
    pub fn get(&self, id: &str) -> (r: Option<TaskHandle>)
        ensures
            match r {
                Some(h) => self.handles().dom().contains(id@) && h == self.handles()[id@],
                None => !self.handles().dom().contains(id@),
            },
    {
        match self.tasks.get(id) {
            Some(t) => Some(t.handle),
            None => None,
        }
    }

    /// The metadata registered under the id.
    pub fn get_metadata(&self, id: &str) -> (r: Option<&TaskMetadata>)
        ensures
            match r {
                Some(m) => self.metas().dom().contains(id@) && m@ == self.metas()[id@],
                None => !self.metas().dom().contains(id@),
            },
    {
        match self.tasks.get(id) {
            Some(t) => Some(&t.metadata),
            None => None,
        }
    }

    /// Set the metadata of a registered task; an id that is not registered is left
    /// out.
    pub fn set_metadata(&mut self, id: &str, metadata: TaskMetadata)
        ensures
            final(self).handles() == old(self).handles(),
            final(self).metas() == (if old(self).metas().dom().contains(id@) {
                old(self).metas().insert(id@, metadata@)
            } else {
                old(self).metas()
            }),
    {
        let handle = match self.get(id) {
            Some(h) => h,
            None => {
                return;
            },
        };
        self.register_with_metadata(id, handle, metadata);
        proof {
            assert(self.handles() =~= old(self).handles());
        }
    }

    /// Take over all tasks of another registry. They take the place of tasks under
    /// the same ids.
    pub fn merge(&mut self, other: TaskRegistry)
        ensures
            final(self).handles() == old(self).handles().union_prefer_right(other.handles()),
            final(self).metas() == old(self).metas().union_prefer_right(other.metas()),
    {
        let ghost before = *self;
        let ghost more = other;
        self.tasks.absorb(other.tasks);
        proof {
            assert(self.handles() =~= before.handles().union_prefer_right(more.handles()));
            assert(self.metas() =~= before.metas().union_prefer_right(more.metas()));
        }
    }

    /// The number of registered ids.
    pub fn len(&self) -> (r: usize)
        ensures
            r == self.tasks.entries().len(),
    {
        self.tasks.len()
    }

    /// Whether nothing is registered.
    pub fn is_empty(&self) -> (r: bool)
        ensures
            r == (self.tasks.entries().len() == 0),
    {
        self.tasks.is_empty()
    }
}

} // verus!
