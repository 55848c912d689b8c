//! Shared copies of texts that recur.

use std::sync::Arc;

use vstd::prelude::*;

verus! {

/// The concurrent set of the crate `dashmap`.
#[verifier::external_type_specification]
#[verifier::external_body]
#[verifier::reject_recursive_types(K)]
#[verifier::reject_recursive_types(S)]
pub struct ExDashSet<K, S>(dashmap::DashSet<K, S>);

/// Hands out one shared copy of each text. It may be used from several threads
/// at once.
#[derive(Debug)]
pub struct Interner {
    set: dashmap::DashSet<Arc<str>>,
}

/// `DashSet::new`. The set changes behind shared references, so nothing is said
/// of what it holds.
#[verifier::external_body]
fn new_set() -> (r: dashmap::DashSet<Arc<str>>) {
    dashmap::DashSet::new()
}

/// `DashSet::get`: what it finds is equal to what was looked for. Whether it
/// finds anything depends on what has been put in, by any thread.
#[verifier::external_body]
fn find(set: &dashmap::DashSet<Arc<str>>, s: &str) -> (r: Option<Arc<str>>)
    ensures
        r matches Some(a) ==> a@ == s@,
{
    set.get(s).map(|e| Arc::clone(e.key()))
}

/// `DashSet::insert`: whether the text was new depends on what has been put in,
/// by any thread.
#[verifier::external_body]
fn put(set: &dashmap::DashSet<Arc<str>>, a: Arc<str>) -> (r: bool) {
    set.insert(a)
}

/// `Arc::from`: a shared copy of the text.
#[verifier::external_body]
fn shared(s: &str) -> (r: Arc<str>)
    ensures
        r@ == s@,
{
    Arc::from(s)
}

/// `Arc::clone`: another handle on the same text.
#[verifier::external_body]
fn again(a: &Arc<str>) -> (r: Arc<str>)
    ensures
        r@ == a@,
{
    Arc::clone(a)
}

/// `DashSet::len`: how many texts it holds at the moment of the call.
#[verifier::external_body]
fn size(set: &dashmap::DashSet<Arc<str>>) -> (r: usize) {
    set.len()
}

impl Default for Interner {
    fn default() -> (r: Self) {
        Interner::new()
    }
}

impl Interner {
    pub fn new() -> (r: Self) {
        Interner { set: new_set() }
    }

    /// The shared copy of a text; it is made the first time.
    pub fn intern(&self, s: &str) -> (r: Arc<str>)
        ensures
            r@ == s@,
    {
        if let Some(existing) = find(&self.set, s) {
            return existing;
        }
        let fresh = shared(s);
        if put(&self.set, again(&fresh)) {
            fresh
        } else {
            match find(&self.set, s) {
                Some(existing) => existing,
                None => fresh,
            }
        }
    }

    /// The number of different texts.
    pub fn len(&self) -> (r: usize) {
        size(&self.set)
    }

    pub fn is_empty(&self) -> (r: bool) {
        size(&self.set) == 0
    }
}

} // verus!
