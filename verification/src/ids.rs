//! The identifiers that peers, endpoints, sessions, documents and contents
//! go by. Each is a fixed number of bytes; two are the same where their bytes
//! are.
use vstd::prelude::*;
use vstd::slice::slice_to_vec;

use crate::path::{components, components_of, same_component, steps_view, Component, FsPath, Step};
use crate::text::bytes_eq;

verus! {

/// A value that can key a [`crate::table::Table`]: it is known by its view.
pub trait Key: View + Sized {
    /// Whether two keys are the same.
    fn same(&self, other: &Self) -> (res: bool)
        ensures
            res == (self@ == other@),
    ;

    /// The same key again.
    fn duplicate(&self) -> (key: Self)
        ensures
            key@ == self@,
    ;
}

/// A path as a key: known by its components, so that `a//b` and `a/b` are one.
#[derive(Clone, Debug, PartialEq, Eq)]
pub struct PathKey {
    /// The path.
    pub path: FsPath,
}

impl View for PathKey {
    type V = Seq<Step>;

    open spec fn view(&self) -> Seq<Step> {
        components(self.path@)
    }
}

impl PathKey {
    /// The key for a path.
    pub fn of(path: &FsPath) -> (key: PathKey)
        ensures
            key@ == components(path@),
            key.path@ == path@,
    {
        PathKey { path: FsPath { raw: slice_to_vec(path.as_bytes()) } }
    }
}

impl Key for PathKey {
    fn same(&self, other: &Self) -> (res: bool) {
        let a = components_of(self.path.as_bytes());
        let b = components_of(other.path.as_bytes());
        same_components(&a, &b)
    }

    fn duplicate(&self) -> (key: Self) {
        PathKey::of(&self.path)
    }
}

/// Whether two lists of components are the same.
fn same_components(a: &Vec<Component<Vec<u8>>>, b: &Vec<Component<Vec<u8>>>) -> (res: bool)
    ensures
        res == (steps_view(a@) == steps_view(b@)),
{
    let ghost x = steps_view(a@);
    let ghost y = steps_view(b@);
    if a.len() != b.len() {
        assert(x.len() != y.len());
        return false;
    }
    let mut i: usize = 0;
    while i < a.len()
        invariant
            i <= a@.len(),
            a@.len() == b@.len(),
            x == steps_view(a@),
            y == steps_view(b@),
            forall|k: int| 0 <= k < i ==> x[k] == y[k],
        decreases a@.len() - i,
    {
        if !same_component(&a[i], &b[i]) {
            assert(x[i as int] != y[i as int]);
            return false;
        }
        i += 1;
    }
    assert(x =~= y);
    true
}

/// A session member, as the daemon knows it.
#[derive(Clone, Copy, Debug, PartialEq, Eq, Hash)]
pub struct PeerId(pub [u8; 32]);

/// A network endpoint, which is also the author of document entries.
#[derive(Clone, Copy, Debug, PartialEq, Eq, Hash)]
pub struct EndpointId(pub [u8; 32]);

/// A session.
#[derive(Clone, Copy, Debug, PartialEq, Eq, Hash)]
pub struct SessionId(pub [u8; 16]);

/// A document namespace.
#[derive(Clone, Copy, Debug, PartialEq, Eq, Hash)]
pub struct NamespaceId(pub [u8; 32]);

/// The BLAKE3 hash of some content.
#[derive(Clone, Copy, Debug, PartialEq, Eq, Hash)]
pub struct ContentHash(pub [u8; 32]);

impl View for PeerId {
    type V = Seq<u8>;

    open spec fn view(&self) -> Seq<u8> {
        self.0@
    }
}

impl View for EndpointId {
    type V = Seq<u8>;

    open spec fn view(&self) -> Seq<u8> {
        self.0@
    }
}

impl View for SessionId {
    type V = Seq<u8>;

    open spec fn view(&self) -> Seq<u8> {
        self.0@
    }
}

impl View for NamespaceId {
    type V = Seq<u8>;

    open spec fn view(&self) -> Seq<u8> {
        self.0@
    }
}

impl View for ContentHash {
    type V = Seq<u8>;

    open spec fn view(&self) -> Seq<u8> {
        self.0@
    }
}

impl Key for PeerId {
    fn same(&self, other: &Self) -> (res: bool) {
        bytes_eq(self.0.as_slice(), other.0.as_slice())
    }

    fn duplicate(&self) -> (key: Self) {
        *self
    }
}

impl Key for EndpointId {
    fn same(&self, other: &Self) -> (res: bool) {
        bytes_eq(self.0.as_slice(), other.0.as_slice())
    }

    fn duplicate(&self) -> (key: Self) {
        *self
    }
}

impl Key for SessionId {
    fn same(&self, other: &Self) -> (res: bool) {
        bytes_eq(self.0.as_slice(), other.0.as_slice())
    }

    fn duplicate(&self) -> (key: Self) {
        *self
    }
}

impl Key for NamespaceId {
    fn same(&self, other: &Self) -> (res: bool) {
        bytes_eq(self.0.as_slice(), other.0.as_slice())
    }

    fn duplicate(&self) -> (key: Self) {
        *self
    }
}

impl Key for ContentHash {
    fn same(&self, other: &Self) -> (res: bool) {
        bytes_eq(self.0.as_slice(), other.0.as_slice())
    }

    fn duplicate(&self) -> (key: Self) {
        *self
    }
}

impl Key for FsPath {
    fn same(&self, other: &Self) -> (res: bool) {
        bytes_eq(self.as_bytes(), other.as_bytes())
    }

    fn duplicate(&self) -> (key: Self) {
        FsPath { raw: slice_to_vec(self.as_bytes()) }
    }
}

} // verus!
