//! Building a link from a key and a target.
use vstd::prelude::*;
use crate::data::Data;
use crate::link::NoKey;
use crate::links::Link;

verus! {

/// A link under construction: a key and a target.
///
/// The `_ownable` and `_with` constructors take the part as it is; the part is handed
/// out unchanged when the link is taken apart.
#[derive(Debug, Clone, Copy)]
pub struct LinkBuilder<K, T> {
    key: K,
    target: T,
}

impl<K, T> LinkBuilder<K, T> {
    /// The key.
    pub closed spec fn spec_key_part(&self) -> K {
        self.key
    }

    /// The target.
    pub closed spec fn spec_target_part(&self) -> T {
        self.target
    }
}

impl<T> LinkBuilder<NoKey, T> {
    /// A link to `target`, keyed by `NoKey`.
    pub fn new(target: T) -> (r: Self)
        ensures
            r.spec_target_part() == target,
    {
        LinkBuilder { key: NoKey, target }
    }
}

impl LinkBuilder<NoKey, NoKey> {
    /// A link to `target`, keyed by `NoKey`; the target is one that can be owned.
    pub fn new_ownable<T>(target: T) -> (r: LinkBuilder<NoKey, T>)
        ensures
            r.spec_target_part() == target,
    {
        LinkBuilder { key: NoKey, target }
    }

    /// A link to `target`, keyed by `NoKey`; the target is one that an eraser hands out.
    pub fn new_with<T>(target: T) -> (r: LinkBuilder<NoKey, T>)
        ensures
            r.spec_target_part() == target,
    {
        LinkBuilder { key: NoKey, target }
    }
}

impl<K, T> LinkBuilder<K, T> {
    /// The same link to another target.
    pub fn target<T2>(self, target: T2) -> (r: LinkBuilder<K, T2>)
        ensures
            r.spec_key_part() == self.spec_key_part(),
            r.spec_target_part() == target,
    {
        LinkBuilder { key: self.key, target }
    }

    /// The same link to another target, one that can be owned.
    pub fn target_ownable<T2>(self, target: T2) -> (r: LinkBuilder<K, T2>)
        ensures
            r.spec_key_part() == self.spec_key_part(),
            r.spec_target_part() == target,
    {
        LinkBuilder { key: self.key, target }
    }

    /// The same link to another target, one that an eraser hands out.
    pub fn target_with<T2>(self, target: T2) -> (r: LinkBuilder<K, T2>)
        ensures
            r.spec_key_part() == self.spec_key_part(),
            r.spec_target_part() == target,
    {
        LinkBuilder { key: self.key, target }
    }

    /// The same link under another key.
    pub fn key<K2>(self, key: K2) -> (r: LinkBuilder<K2, T>)
        ensures
            r.spec_key_part() == key,
            r.spec_target_part() == self.spec_target_part(),
    {
        LinkBuilder { key, target: self.target }
    }

    /// The same link under another key, one that can be owned.
    pub fn key_ownable<K2>(self, key: K2) -> (r: LinkBuilder<K2, T>)
        ensures
            r.spec_key_part() == key,
            r.spec_target_part() == self.spec_target_part(),
    {
        LinkBuilder { key, target: self.target }
    }

    /// The same link under another key, one that an eraser hands out.
    pub fn key_with<K2>(self, key: K2) -> (r: LinkBuilder<K2, T>)
        ensures
            r.spec_key_part() == key,
            r.spec_target_part() == self.spec_target_part(),
    {
        LinkBuilder { key, target: self.target }
    }
}

impl<K: Data, T: Data> Link for LinkBuilder<K, T> {
    type Key = K;
    type Target = T;

    open spec fn spec_key(&self) -> Option<K> {
        Some(self.spec_key_part())
    }

    open spec fn spec_target(&self) -> T {
        self.spec_target_part()
    }

    fn key(&self) -> (r: Option<&K>) {
        Some(&self.key)
    }

    fn target(&self) -> (r: &T) {
        &self.target
    }

    fn into_parts(self) -> (r: (Option<K>, T)) {
        (Some(self.key), self.target)
    }
}

} // verus!
