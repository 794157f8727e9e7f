//! A value kept in a cache file, typed by whether the file has been read yet.

use vstd::prelude::*;

verus! {

/// Implemented only by the two states below.
pub trait Sealed {}

/// The state of a `Cached`: `Unresolved` or `Resolved`.
pub trait CachedState: Sealed {}

/// The cache file has not been read yet.
#[derive(Debug)]
pub struct Unresolved;

/// The cache file has been read, and holds this value.
#[derive(Debug)]
pub struct Resolved<T>(pub T);

impl Sealed for Unresolved {}

impl<T> Sealed for Resolved<T> {}

impl CachedState for Unresolved {}

impl<T> CachedState for Resolved<T> {}

/// A value cached in the file at `path`.
#[derive(Debug)]
pub struct Cached<S: CachedState> {
    state: S,
    path: String,
}

impl<S: CachedState> Cached<S> {
    /// The cache file.
    pub closed spec fn file(&self) -> Seq<char> {
        self.path@
    }

    /// The cache file.
    pub fn path(&self) -> (r: &str)
        ensures
            r@ == self.file(),
    {
        self.path.as_str()
    }
}

impl Cached<Unresolved> {
    /// A cache in the file at `path`, not read yet.
    pub fn at(path: String) -> (r: Cached<Unresolved>)
        ensures
            r.file() == path@,
    {
        Cached { state: Unresolved, path }
    }

    /// The cache once its file has been read and holds `value` (or has been
    /// created holding it).
    pub fn resolve<T>(self, value: T) -> (r: Cached<Resolved<T>>)
        ensures
            r.file() == self.file(),
            r.value() == value,
    {
        Cached { state: Resolved(value), path: self.path }
    }
}

impl<T> Cached<Resolved<T>> {
    /// The cached value.
    pub closed spec fn value(&self) -> T {
        self.state.0
    }

    /// The cached value.
    pub fn get(&self) -> (r: &T)
        ensures
            *r == self.value(),
    {
        &self.state.0
    }

    /// The cached value, to change in place.
    pub fn get_mut(&mut self) -> (r: &mut T)
        ensures
            *r == old(self).value(),
            final(self).value() == *final(r),
            final(self).file() == old(self).file(),
    {
        &mut self.state.0
    }
}

} // verus!
