//! A cache that keeps what was used last.
use crate::error::SystemOneError;
use vstd::pervasive::cloned;
use vstd::prelude::*;

verus! {

/// What values are kept under.
pub trait CacheKey: Sized {
    /// What tells one key from another.
    spec fn id(&self) -> Seq<usize>;

    /// Whether both keys are one.
    fn same(&self, other: &Self) -> (yes: bool)
        ensures
            yes == (self.id() == other.id()),
    ;

    /// The same key again.
    fn copy(&self) -> (copy: Self)
        ensures
            copy.id() == self.id(),
    ;
}

impl CacheKey for usize {
    open spec fn id(&self) -> Seq<usize> {
        seq![*self]
    }

    fn same(&self, other: &Self) -> (yes: bool) {
        assert(self.id()[0] == *self && other.id()[0] == *other);
        *self == *other
    }

    fn copy(&self) -> (copy: Self) {
        *self
    }
}

impl CacheKey for Vec<usize> {
    open spec fn id(&self) -> Seq<usize> {
        self@
    }

    fn same(&self, other: &Self) -> (yes: bool) {
        crate::tokens::same_numbers(self, other)
    }

    fn copy(&self) -> (copy: Self) {
        crate::tensor::copy_numbers(self)
    }
}

/// One slot for the value that was used last. The layers of one pass share a
/// key, and the next pass most often has another: more slots would fill memory
/// with values that are not used again.
pub struct LastUsedCache<K, V> {
    pub slot: Option<(K, V)>,
}

impl<K: CacheKey, V: Clone> LastUsedCache<K, V> {
    /// The value that is kept under a key.
    pub open spec fn kept(&self, key: Seq<usize>) -> Option<V> {
        match self.slot {
            Some((k, v)) => if k.id() == key {
                Some(v)
            } else {
                None
            },
            None => None,
        }
    }

    /// An empty slot.
    pub fn new() -> (cache: Self)
        ensures
            cache.slot is None,
    {
        LastUsedCache { slot: None }
    }

    /// The value that is kept under `key`, or else what `build` makes, which
    /// then takes the slot. A failure to build leaves the slot alone.
    pub fn get_or_try_insert<F: FnOnce() -> Result<V, SystemOneError>>(&mut self, key: &K, build: F) -> (result:
        Result<V, SystemOneError>)
        requires
            build.requires(()),
        ensures
            match old(self).kept(key.id()) {
                Some(value) => {
                    &&& result is Ok
                    &&& cloned(value, result->Ok_0)
                    &&& *final(self) == *old(self)
                },
                None => match result {
                    Ok(value) => {
                        &&& build.ensures((), Ok(value))
                        &&& final(self).kept(key.id()) is Some
                        &&& cloned(value, final(self).kept(key.id())->0)
                    },
                    Err(e) => build.ensures((), Err(e)) && *final(self) == *old(self),
                },
            },
    {
        if let Some((cached_key, value)) = &self.slot {
            if cached_key.same(key) {
                return Ok(value.clone());
            }
        }
        match build() {
            Ok(value) => {
                self.slot = Some((key.copy(), value.clone()));
                Ok(value)
            },
            Err(e) => Err(e),
        }
    }
}

/// What took the slot is the only thing that is kept.
pub proof fn only_the_last_is_kept<K: CacheKey, V: Clone>(
    cache: LastUsedCache<K, V>,
    key: Seq<usize>,
    other: Seq<usize>,
)
    requires
        cache.kept(key) is Some,
        other != key,
    ensures
        cache.kept(other) is None,
{
}

} // verus!
