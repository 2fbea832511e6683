//! Memoization: a function together with a store of the results it has
//! already given.
use std::collections::HashMap;
use std::hash::Hash;
use vstd::prelude::*;
use vstd::std_specs::hash::obeys_key_model;

verus! {

/// The value that a store holds for `k` where it holds one, and `v` where it
/// does not.
pub open spec fn stored_or<T, U>(store: Map<T, U>, k: T, v: U) -> U {
    if store.contains_key(k) {
        store[k]
    } else {
        v
    }
}

/// `a` and `k` stand for the same argument: one is a clone of the other.
pub open spec fn same_argument<T: Clone>(a: T, k: T) -> bool {
    cloned(a, k) || cloned(k, a)
}

/// Every value in `store` is one that `f` may return for the argument that
/// its key stands for.
pub open spec fn holds_results<T: Clone, U, F: Fn(T) -> U>(store: Map<T, U>, f: F) -> bool {
    forall|k: T| #[trigger]
        store.contains_key(k) ==> exists|a: T|
            same_argument(a, k) && call_ensures(f, (a,), store[k])
}

/// A function with a store of its results that can be inspected. The
/// function is called at every call; the store decides what is returned.
pub struct Memoizer<T, U, F> {
    pub f: F,
    pub store: HashMap<T, U>,
}

impl<T: Clone + Eq + Hash, U: Clone, F: Fn(T) -> U> Memoizer<T, U, F> {
    /// The store holds results of the function only.
    pub open spec fn is_cache(self) -> bool {
        holds_results(self.store@, self.f)
    }

    /// Wraps `f` with an empty store.
    pub fn new(f: F) -> (m: Self)
        ensures
            m.f == f,
            m.store@ == Map::<T, U>::empty(),
            m.is_cache(),
    {
        Self { f, store: HashMap::new() }
    }

    /// Calls the function on `arg` and looks up a clone of `arg` in the
    /// store. Where the store holds a value for it, a clone of that value is
    /// returned and the store stays as it is. Where it holds none, the result
    /// of the call is stored and a clone of it is returned.
    pub fn call(&mut self, arg: T) -> (r: U)
        requires
            call_requires(old(self).f, (arg,)),
        ensures
            final(self).f == old(self).f,
            obeys_key_model::<T>() ==> exists|k: T, v: U|
                {
                    &&& cloned(arg, k)
                    &&& call_ensures(old(self).f, (arg,), v)
                    &&& final(self).store@ == old(self).store@.insert(
                        k,
                        stored_or(old(self).store@, k, v),
                    )
                    &&& cloned(stored_or(old(self).store@, k, v), r)
                },
            obeys_key_model::<T>() && old(self).is_cache() ==> final(self).is_cache(),
    {
        let ghost before = self.store@;
        let key = arg.clone();
        let entry = self.store.entry(key);
        let value = (self.f)(arg);
        let slot = entry.or_insert(value);
        let r = slot.clone();
        proof {
            if obeys_key_model::<T>() {
                assert(self.store@ == before.insert(key, stored_or(before, key, value)));
                if holds_results(before, self.f) {
                    assert forall|k: T| #[trigger] self.store@.contains_key(k) implies exists|a: T|
                        same_argument(a, k) && call_ensures(self.f, (a,), self.store@[k]) by {
                        if k == key && !before.contains_key(key) {
                            assert(same_argument(arg, k) && call_ensures(
                                self.f,
                                (arg,),
                                self.store@[k],
                            ));
                        }
                    }
                }
            }
        }
        r
    }
}

/// A function with a hidden store of its results. The function is called
/// only for arguments that the store does not hold yet.
pub struct Memoized<T, U, F> {
    f: F,
    store: HashMap<T, U>,
}

impl<T, U, F> View for Memoized<T, U, F> {
    type V = Map<T, U>;

    /// The results stored so far, by argument.
    closed spec fn view(&self) -> Map<T, U> {
        self.store@
    }
}

impl<T: Clone + Eq + Hash, U: Clone, F: Fn(T) -> U> Memoized<T, U, F> {
    /// The function that is memoized.
    pub closed spec fn function(self) -> F {
        self.f
    }

    /// The store holds results of the function only.
    pub open spec fn is_cache(self) -> bool {
        holds_results(self@, self.function())
    }

    /// Returns a clone of the value stored for `x`, where there is one.
    /// Otherwise calls the function on a clone of `x`, stores the result for
    /// `x` and returns a clone of it.
    pub fn call(&mut self, x: T) -> (r: U)
        requires
            forall|c: T| cloned(x, c) ==> call_requires(old(self).function(), (c,)),
        ensures
            final(self).function() == old(self).function(),
            obeys_key_model::<T>() && old(self)@.contains_key(x) ==> {
                &&& final(self)@ == old(self)@
                &&& cloned(old(self)@[x], r)
            },
            obeys_key_model::<T>() && !old(self)@.contains_key(x) ==> exists|c: T, v: U|
                {
                    &&& cloned(x, c)
                    &&& call_ensures(old(self).function(), (c,), v)
                    &&& final(self)@ == old(self)@.insert(x, v)
                    &&& cloned(v, r)
                },
            obeys_key_model::<T>() && old(self).is_cache() ==> final(self).is_cache(),
    {
        let ghost before = self.store@;
        match self.store.get(&x) {
            Some(stored) => stored.clone(),
            None => {
                let c = x.clone();
                assert(cloned(x, c));
                let v = (self.f)(c);
                let r = v.clone();
                self.store.insert(x, v);
                proof {
                    if obeys_key_model::<T>() && holds_results(before, self.f) {
                        assert forall|k: T| #[trigger] self.store@.contains_key(k) implies exists|
                            a: T,
                        | same_argument(a, k) && call_ensures(self.f, (a,), self.store@[k]) by {
                            if k == x {
                                assert(same_argument(c, k) && call_ensures(
                                    self.f,
                                    (c,),
                                    self.store@[k],
                                ));
                            }
                        }
                    }
                }
                r
            },
        }
    }
}

/// Memoizes `f`: the result starts with an empty store.
pub fn memoized<T: Clone + PartialEq + Eq + Hash, U: Clone, F: Fn(T) -> U>(f: F) -> (m: Memoized<
    T,
    U,
    F,
>)
    ensures
        m.function() == f,
        m@ == Map::<T, U>::empty(),
        m.is_cache(),
{
    Memoized { f, store: HashMap::new() }
}

} // verus!
