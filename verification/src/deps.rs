//! Dependency-injection container.
//!
//! A [`Deps`] holds at most one value for each type. The type of a value is its
//! key, given by its name; there is no coercion between types. `V` is what the
//! container holds of a value.
use crate::string_map::StringMap;
use crate::text::concat3;
use vstd::prelude::*;

verus! {

/// A container of dependencies, one for each type.
pub struct Deps<V> {
    /// The dependencies by the name of their type.
    pub map: StringMap<V>,
}

/// Builder for [`Deps`].
pub struct DepsBuilder<V> {
    /// What has been inserted so far.
    pub inner: Deps<V>,
}

/// A dependency that is not in the container.
#[derive(Debug)]
pub struct MissingDep {
    /// The name of the type that is missing.
    pub dep_type: String,
}

impl MissingDep {
    /// A dependency of this type is missing.
    pub fn of(dep_type: &str) -> (r: Self)
        ensures
            r.dep_type@ == dep_type@,
    {
        MissingDep { dep_type: String::from_str(dep_type) }
    }

    /// The message of the error.
    pub fn to_string(&self) -> (r: String)
        ensures
            r@ == "missing dependency `"@ + self.dep_type@ + "` in Deps container"@,
    {
        concat3("missing dependency `", self.dep_type.as_str(), "` in Deps container")
    }
}

impl<V> Deps<V> {
    /// An empty container.
    pub fn new() -> (r: Self)
        ensures
            r.map@ == Map::<Seq<char>, V>::empty(),
    {
        Deps { map: StringMap::new() }
    }

    /// A builder of a container.
    pub fn builder() -> (r: DepsBuilder<V>)
        ensures
            r.inner.map@ == Map::<Seq<char>, V>::empty(),
    {
        DepsBuilder { inner: Deps::new() }
    }

    /// The dependency of a type, if it is there.
    pub fn get(&self, dep_type: &str) -> (r: Option<&V>)
        ensures
            match r {
                Some(v) => self.map@.dom().contains(dep_type@) && *v == self.map@[dep_type@],
                None => !self.map@.dom().contains(dep_type@),
            },
    {
        self.map.get(dep_type)
    }

    /// The dependency of a type, or the error that it is missing.
    pub fn try_get(&self, dep_type: &str) -> (r: Result<&V, MissingDep>)
        ensures
            match r {
                Ok(v) => self.map@.dom().contains(dep_type@) && *v == self.map@[dep_type@],
                Err(m) => !self.map@.dom().contains(dep_type@) && m.dep_type@ == dep_type@,
            },
    {
        match self.map.get(dep_type) {
            Some(v) => Ok(v),
            None => Err(MissingDep::of(dep_type)),
        }
    }

    /// The dependency of a type that is known to be there.
    pub fn expect(&self, dep_type: &str) -> (r: &V)
        requires
            self.map@.dom().contains(dep_type@),
        ensures
            *r == self.map@[dep_type@],
    {
        match self.map.get(dep_type) {
            Some(v) => v,
            None => self.map.value_at(0),
        }
    }

    /// Whether a dependency of a type is there.
    pub fn contains(&self, dep_type: &str) -> (r: bool)
        ensures
            r == self.map@.dom().contains(dep_type@),
    {
        self.map.contains_key(dep_type)
    }

    /// The number of dependencies.
    pub fn len(&self) -> (r: usize)
        ensures
            r == self.map@.len(),
    {
        self.map.len()
    }

    /// Whether there is no dependency.
    pub fn is_empty(&self) -> (r: bool)
        ensures
            r == (self.map@ == Map::<Seq<char>, V>::empty()),
    {
        self.map.is_empty()
    }

    /// Take over the dependencies of `other`, which win over those already there.
    pub fn merge(&mut self, other: Self)
        ensures
            final(self).map@ == old(self).map@.union_prefer_right(other.map@),
    {
        self.map.absorb(other.map);
    }
}

impl<V> DepsBuilder<V> {
    /// Put in the dependency of a type, in place of one that may be there.
    pub fn insert(self, dep_type: &str, dep: V) -> (r: Self)
        ensures
            r.inner.map@ == self.inner.map@.insert(dep_type@, dep),
    {
        let mut map = self.inner.map;
        map.insert(String::from_str(dep_type), dep);
        DepsBuilder { inner: Deps { map } }
    }

    /// Take over the dependencies of `other`, which win over those already there.
    pub fn merge(self, other: Deps<V>) -> (r: Self)
        ensures
            r.inner.map@ == self.inner.map@.union_prefer_right(other.map@),
    {
        let mut inner = self.inner;
        inner.merge(other);
        DepsBuilder { inner }
    }

    /// The container.
    pub fn build(self) -> (r: Deps<V>)
        ensures
            r.map@ == self.inner.map@,
    {
        self.inner
    }
}

/// A task that can be made of the dependencies in a container.
pub trait DepsInjectable<V> where Self: Sized {
    /// Make the task.
    fn from_deps(deps: &Deps<V>) -> Self;

    /// The dependencies of the task that the container lacks.
    fn verify_deps(deps: &Deps<V>) -> Vec<MissingDep>;
}

} // verus!
