//! Bifunctors: containers with two slots that can be mapped independently.
//!
//! A container is modelled by what its two slots hold. A disjoint choice
//! fills exactly one of them, a pair fills both, and an outcome fills the
//! first on success and the second on failure.
use crate::either::Either;
use vstd::prelude::*;

verus! {

/// `f` accepts what the slot holds, if it holds anything.
pub open spec fn slot_accepted<A, B, F: Fn(A) -> B>(slot: Option<A>, f: F) -> bool {
    slot matches Some(a) ==> call_requires(f, (a,))
}

/// `after` is the slot `before` with `f` applied to what it holds: an empty
/// slot stays empty, and a filled one holds a value that `f` may return for
/// the old one.
pub open spec fn slot_mapped<A, B, F: Fn(A) -> B>(before: Option<A>, f: F, after: Option<B>) -> bool {
    match before {
        Some(a) => after matches Some(b) && call_ensures(f, (a,), b),
        None => after is None,
    }
}

/// The slot with the total function `f` applied to what it holds.
pub open spec fn slot_image<A, B>(slot: Option<A>, f: spec_fn(A) -> B) -> Option<B> {
    match slot {
        Some(a) => Some(f(a)),
        None => None,
    }
}

/// The executable `f` computes the total function `sf`: whatever `f` returns
/// for an argument is the value of `sf` there.
pub open spec fn computes<A, B, F: Fn(A) -> B>(f: F, sf: spec_fn(A) -> B) -> bool {
    forall|a: A, b: B| call_ensures(f, (a,), b) ==> b == sf(a)
}

/// A container with two slots, each of which may hold a value.
pub trait TwoSlot: Sized {
    /// The type of the value in the first slot.
    type InnerFirst;

    /// The type of the value in the second slot.
    type InnerSecond;

    /// What the first slot holds.
    spec fn first_slot(self) -> Option<Self::InnerFirst>;

    /// What the second slot holds.
    spec fn second_slot(self) -> Option<Self::InnerSecond>;

    /// A container is no more than its two slots.
    proof fn lemma_slots_determine(self, other: Self)
        requires
            self.first_slot() == other.first_slot(),
            self.second_slot() == other.second_slot(),
        ensures
            self == other,
    ;
}

/// `r` is `c` with `f` applied to its first slot and the second untouched.
pub open spec fn first_mapped<C, R, F>(c: C, f: F, r: R) -> bool where
    C: TwoSlot,
    R: TwoSlot<InnerSecond = C::InnerSecond>,
    F: Fn(C::InnerFirst) -> R::InnerFirst,
 {
    &&& slot_mapped(c.first_slot(), f, r.first_slot())
    &&& r.second_slot() == c.second_slot()
}

/// `r` is `c` with `g` applied to its second slot and the first untouched.
pub open spec fn second_mapped<C, R, G>(c: C, g: G, r: R) -> bool where
    C: TwoSlot,
    R: TwoSlot<InnerFirst = C::InnerFirst>,
    G: Fn(C::InnerSecond) -> R::InnerSecond,
 {
    &&& r.first_slot() == c.first_slot()
    &&& slot_mapped(c.second_slot(), g, r.second_slot())
}

/// `r` is `c` with `f` applied to its first slot and `g` to its second.
pub open spec fn both_mapped<C, R, F, G>(c: C, f: F, g: G, r: R) -> bool where
    C: TwoSlot,
    R: TwoSlot,
    F: Fn(C::InnerFirst) -> R::InnerFirst,
    G: Fn(C::InnerSecond) -> R::InnerSecond,
 {
    &&& slot_mapped(c.first_slot(), f, r.first_slot())
    &&& slot_mapped(c.second_slot(), g, r.second_slot())
}

/// A container whose first slot can be mapped to hold a `V`.
pub trait MapFirst<V>: TwoSlot {
    /// The same shape of container with a `V` in the first slot.
    type FirstTarget: TwoSlot<InnerFirst = V, InnerSecond = Self::InnerSecond>;

    /// The container with the total function `f` applied to its first slot.
    spec fn map_first(self, f: spec_fn(Self::InnerFirst) -> V) -> Self::FirstTarget;

    /// `map_first` changes what the first slot holds, and nothing else.
    proof fn lemma_map_first(self, f: spec_fn(Self::InnerFirst) -> V)
        ensures
            self.map_first(f).first_slot() == slot_image(self.first_slot(), f),
            self.map_first(f).second_slot() == self.second_slot(),
    ;

    /// Applies `f` to the value in the first slot, if there is one, and
    /// leaves the second slot as it is.
    fn first<F: Fn(Self::InnerFirst) -> V>(self, f: F) -> (r: Self::FirstTarget)
        requires
            slot_accepted(self.first_slot(), f),
        ensures
            first_mapped(self, f, r),
    ;
}

/// A container whose second slot can be mapped to hold a `W`.
pub trait MapSecond<W>: TwoSlot {
    /// The same shape of container with a `W` in the second slot.
    type SecondTarget: TwoSlot<InnerFirst = Self::InnerFirst, InnerSecond = W>;

    /// The container with the total function `g` applied to its second slot.
    spec fn map_second(self, g: spec_fn(Self::InnerSecond) -> W) -> Self::SecondTarget;

    /// `map_second` changes what the second slot holds, and nothing else.
    proof fn lemma_map_second(self, g: spec_fn(Self::InnerSecond) -> W)
        ensures
            self.map_second(g).first_slot() == self.first_slot(),
            self.map_second(g).second_slot() == slot_image(self.second_slot(), g),
    ;

    /// Applies `g` to the value in the second slot, if there is one, and
    /// leaves the first slot as it is.
    fn second<G: Fn(Self::InnerSecond) -> W>(self, g: G) -> (r: Self::SecondTarget)
        requires
            slot_accepted(self.second_slot(), g),
        ensures
            second_mapped(self, g, r),
    ;
}

/// A container whose two slots can be mapped jointly, to hold a `V` and a
/// `W`.
pub trait Bifunctor<V, W>: MapFirst<V> + MapSecond<W> where
    <Self as MapFirst<V>>::FirstTarget: MapSecond<W, SecondTarget = Self::OuterTarget>,
    <Self as MapSecond<W>>::SecondTarget: MapFirst<V, FirstTarget = Self::OuterTarget>,
 {
    /// The same shape of container with a `V` in the first slot and a `W` in
    /// the second.
    type OuterTarget: TwoSlot<InnerFirst = V, InnerSecond = W>;

    /// The container with the total function `f` applied to its first slot
    /// and `g` to its second.
    spec fn map_both(
        self,
        f: spec_fn(Self::InnerFirst) -> V,
        g: spec_fn(Self::InnerSecond) -> W,
    ) -> Self::OuterTarget;

    /// `map_both` changes what each slot holds by its own function.
    proof fn lemma_map_both(
        self,
        f: spec_fn(Self::InnerFirst) -> V,
        g: spec_fn(Self::InnerSecond) -> W,
    )
        ensures
            self.map_both(f, g).first_slot() == slot_image(self.first_slot(), f),
            self.map_both(f, g).second_slot() == slot_image(self.second_slot(), g),
    ;

    /// Applies `f` to the first slot and `g` to the second: the first slot is
    /// mapped, then the second.
    fn bimap<F: Fn(Self::InnerFirst) -> V, G: Fn(Self::InnerSecond) -> W>(self, f: F, g: G) -> (r:
        Self::OuterTarget)
        requires
            slot_accepted(self.first_slot(), f),
            slot_accepted(self.second_slot(), g),
        ensures
            both_mapped(self, f, g, r),
    {
        self.first(f).second(g)
    }
}

/// The executable `f` is an identity: whatever it returns is its argument.
pub open spec fn returns_argument<A, F: Fn(A) -> A>(f: F) -> bool {
    forall|a: A, b: A| call_ensures(f, (a,), b) ==> b == a
}

/// The joint map decomposes: mapping both slots with `f` and `g` is mapping
/// the first slot with `f` and then the second with `g`, and is mapping the
/// second slot with `g` and then the first with `f`.
pub proof fn lemma_map_both_decomposes<C, V, W>(
    c: C,
    f: spec_fn(C::InnerFirst) -> V,
    g: spec_fn(C::InnerSecond) -> W,
) where
    C: Bifunctor<V, W>,
    <C as MapFirst<V>>::FirstTarget: MapSecond<W, SecondTarget = C::OuterTarget>,
    <C as MapSecond<W>>::SecondTarget: MapFirst<V, FirstTarget = C::OuterTarget>,

    ensures
        c.map_both(f, g) == c.map_first(f).map_second(g),
        c.map_both(f, g) == c.map_second(g).map_first(f),
{
    c.lemma_map_both(f, g);
    c.lemma_map_first(f);
    c.map_first(f).lemma_map_second(g);
    c.map_both(f, g).lemma_slots_determine(c.map_first(f).map_second(g));
    c.lemma_map_second(g);
    c.map_second(g).lemma_map_first(f);
    c.map_both(f, g).lemma_slots_determine(c.map_second(g).map_first(f));
}

/// The same of the executable maps: the results that `bimap` may give for
/// `f` and `g` are the results of `first` with `f` followed by `second` with
/// `g`, and are the results of `second` with `g` followed by `first` with
/// `f`.
pub proof fn lemma_bimap_decomposes<C, V, W, F, G>(c: C, f: F, g: G, r: C::OuterTarget) where
    C: Bifunctor<V, W>,
    <C as MapFirst<V>>::FirstTarget: MapSecond<W, SecondTarget = C::OuterTarget>,
    <C as MapSecond<W>>::SecondTarget: MapFirst<V, FirstTarget = C::OuterTarget>,
    F: Fn(C::InnerFirst) -> V,
    G: Fn(C::InnerSecond) -> W,

    ensures
        both_mapped(c, f, g, r) <==> exists|m: <C as MapFirst<V>>::FirstTarget| #[trigger]
            first_mapped(c, f, m) && second_mapped(m, g, r),
        both_mapped(c, f, g, r) <==> exists|m: <C as MapSecond<W>>::SecondTarget| #[trigger]
            second_mapped(c, g, m) && first_mapped(m, f, r),
{
    if both_mapped(c, f, g, r) {
        let v = r.first_slot();
        let w = r.second_slot();
        let m1 = c.map_first(|a: C::InnerFirst| v->0);
        c.lemma_map_first(|a: C::InnerFirst| v->0);
        assert(first_mapped(c, f, m1) && second_mapped(m1, g, r));
        let m2 = c.map_second(|b: C::InnerSecond| w->0);
        c.lemma_map_second(|b: C::InnerSecond| w->0);
        assert(second_mapped(c, g, m2) && first_mapped(m2, f, r));
    }
}

/// Where `f` and `g` compute the total functions `sf` and `sg`, a result of
/// `bimap` with `f` and `g` is the container mapped by `sf` and `sg`.
pub proof fn lemma_bimap_computes<C, V, W, F, G>(
    c: C,
    f: F,
    g: G,
    sf: spec_fn(C::InnerFirst) -> V,
    sg: spec_fn(C::InnerSecond) -> W,
    r: C::OuterTarget,
) where
    C: Bifunctor<V, W>,
    <C as MapFirst<V>>::FirstTarget: MapSecond<W, SecondTarget = C::OuterTarget>,
    <C as MapSecond<W>>::SecondTarget: MapFirst<V, FirstTarget = C::OuterTarget>,
    F: Fn(C::InnerFirst) -> V,
    G: Fn(C::InnerSecond) -> W,

    requires
        both_mapped(c, f, g, r),
        computes(f, sf),
        computes(g, sg),
    ensures
        r == c.map_both(sf, sg),
{
    c.lemma_map_both(sf, sg);
    r.lemma_slots_determine(c.map_both(sf, sg));
}

/// Where `f` computes the total function `sf`, a result of `first` with `f`
/// is the container with its first slot mapped by `sf`.
pub proof fn lemma_first_computes<C, V, F>(
    c: C,
    f: F,
    sf: spec_fn(C::InnerFirst) -> V,
    r: C::FirstTarget,
) where C: MapFirst<V>, F: Fn(C::InnerFirst) -> V
    requires
        first_mapped(c, f, r),
        computes(f, sf),
    ensures
        r == c.map_first(sf),
{
    c.lemma_map_first(sf);
    r.lemma_slots_determine(c.map_first(sf));
}

/// Where `g` computes the total function `sg`, a result of `second` with `g`
/// is the container with its second slot mapped by `sg`.
pub proof fn lemma_second_computes<C, W, G>(
    c: C,
    g: G,
    sg: spec_fn(C::InnerSecond) -> W,
    r: C::SecondTarget,
) where C: MapSecond<W>, G: Fn(C::InnerSecond) -> W
    requires
        second_mapped(c, g, r),
        computes(g, sg),
    ensures
        r == c.map_second(sg),
{
    c.lemma_map_second(sg);
    r.lemma_slots_determine(c.map_second(sg));
}

/// Identity is preserved: mapping either slot, or both, with the identity
/// function gives the container back.
pub proof fn lemma_map_identity<C, A, B>(c: C) where
    C: TwoSlot<InnerFirst = A, InnerSecond = B> + MapFirst<A, FirstTarget = C> + MapSecond<
        B,
        SecondTarget = C,
    > + Bifunctor<A, B, OuterTarget = C>,

    ensures
        c.map_first(|a: A| a) == c,
        c.map_second(|b: B| b) == c,
        c.map_both(|a: A| a, |b: B| b) == c,
{
    c.lemma_map_first(|a: A| a);
    c.map_first(|a: A| a).lemma_slots_determine(c);
    c.lemma_map_second(|b: B| b);
    c.map_second(|b: B| b).lemma_slots_determine(c);
    c.lemma_map_both(|a: A| a, |b: B| b);
    c.map_both(|a: A| a, |b: B| b).lemma_slots_determine(c);
}

/// The same of the executable maps: a result of `first` with a function that
/// returns its argument, such as `id`, is the container itself.
pub proof fn lemma_first_identity<C, F>(c: C, f: F, r: C) where
    C: TwoSlot,
    F: Fn(C::InnerFirst) -> C::InnerFirst,

    requires
        first_mapped(c, f, r),
        returns_argument(f),
    ensures
        r == c,
{
    r.lemma_slots_determine(c);
}

/// A result of `second` with a function that returns its argument is the
/// container itself.
pub proof fn lemma_second_identity<C, G>(c: C, g: G, r: C) where
    C: TwoSlot,
    G: Fn(C::InnerSecond) -> C::InnerSecond,

    requires
        second_mapped(c, g, r),
        returns_argument(g),
    ensures
        r == c,
{
    r.lemma_slots_determine(c);
}

/// A result of `bimap` with two functions that return their argument is the
/// container itself.
pub proof fn lemma_bimap_identity<C, F, G>(c: C, f: F, g: G, r: C) where
    C: TwoSlot,
    F: Fn(C::InnerFirst) -> C::InnerFirst,
    G: Fn(C::InnerSecond) -> C::InnerSecond,

    requires
        both_mapped(c, f, g, r),
        returns_argument(f),
        returns_argument(g),
    ensures
        r == c,
{
    r.lemma_slots_determine(c);
}

/// A disjoint choice fills exactly one slot: the first where it is `Left`,
/// the second where it is `Right`.
impl<T, U> TwoSlot for Either<T, U> {
    type InnerFirst = T;

    type InnerSecond = U;

    open spec fn first_slot(self) -> Option<T> {
        match self {
            Either::Left(t) => Some(t),
            Either::Right(_) => None,
        }
    }

    open spec fn second_slot(self) -> Option<U> {
        match self {
            Either::Left(_) => None,
            Either::Right(u) => Some(u),
        }
    }

    proof fn lemma_slots_determine(self, other: Self) {
    }
}

impl<T, U, V> MapFirst<V> for Either<T, U> {
    type FirstTarget = Either<V, U>;

    open spec fn map_first(self, f: spec_fn(T) -> V) -> Either<V, U> {
        match self {
            Either::Left(t) => Either::Left(f(t)),
            Either::Right(u) => Either::Right(u),
        }
    }

    proof fn lemma_map_first(self, f: spec_fn(T) -> V) {
    }

    /// A `Left` stays a `Left` and holds what `f` returns for its value; a
    /// `Right` comes back with the value it had.
    fn first<F: Fn(T) -> V>(self, f: F) -> (r: Either<V, U>)
        ensures
            match self {
                Either::Left(t) => r matches Either::Left(v) && call_ensures(f, (t,), v),
                Either::Right(u) => r == Either::<V, U>::Right(u),
            },
    {
        match self {
            Either::Left(t) => Either::Left(f(t)),
            Either::Right(u) => Either::Right(u),
        }
    }
}

impl<T, U, W> MapSecond<W> for Either<T, U> {
    type SecondTarget = Either<T, W>;

    open spec fn map_second(self, g: spec_fn(U) -> W) -> Either<T, W> {
        match self {
            Either::Left(t) => Either::Left(t),
            Either::Right(u) => Either::Right(g(u)),
        }
    }

    proof fn lemma_map_second(self, g: spec_fn(U) -> W) {
    }

    /// A `Right` stays a `Right` and holds what `g` returns for its value; a
    /// `Left` comes back with the value it had.
    fn second<G: Fn(U) -> W>(self, g: G) -> (r: Either<T, W>)
        ensures
            match self {
                Either::Left(t) => r == Either::<T, W>::Left(t),
                Either::Right(u) => r matches Either::Right(w) && call_ensures(g, (u,), w),
            },
    {
        match self {
            Either::Left(t) => Either::Left(t),
            Either::Right(u) => Either::Right(g(u)),
        }
    }
}

impl<T, U, V, W> Bifunctor<V, W> for Either<T, U> {
    type OuterTarget = Either<V, W>;

    open spec fn map_both(self, f: spec_fn(T) -> V, g: spec_fn(U) -> W) -> Either<V, W> {
        match self {
            Either::Left(t) => Either::Left(f(t)),
            Either::Right(u) => Either::Right(g(u)),
        }
    }

    proof fn lemma_map_both(self, f: spec_fn(T) -> V, g: spec_fn(U) -> W) {
    }
}

/// A pair fills both slots.
impl<T, U> TwoSlot for (T, U) {
    type InnerFirst = T;

    type InnerSecond = U;

    open spec fn first_slot(self) -> Option<T> {
        Some(self.0)
    }

    open spec fn second_slot(self) -> Option<U> {
        Some(self.1)
    }

    proof fn lemma_slots_determine(self, other: Self) {
    }
}

impl<T, U, V> MapFirst<V> for (T, U) {
    type FirstTarget = (V, U);

    open spec fn map_first(self, f: spec_fn(T) -> V) -> (V, U) {
        (f(self.0), self.1)
    }

    proof fn lemma_map_first(self, f: spec_fn(T) -> V) {
    }

    /// The first component is what `f` returns for the old one; the second is
    /// the old one.
    fn first<F: Fn(T) -> V>(self, f: F) -> (r: (V, U))
        ensures
            call_ensures(f, (self.0,), r.0),
            r.1 == self.1,
    {
        (f(self.0), self.1)
    }
}

impl<T, U, W> MapSecond<W> for (T, U) {
    type SecondTarget = (T, W);

    open spec fn map_second(self, g: spec_fn(U) -> W) -> (T, W) {
        (self.0, g(self.1))
    }

    proof fn lemma_map_second(self, g: spec_fn(U) -> W) {
    }

    /// The second component is what `g` returns for the old one; the first is
    /// the old one.
    fn second<G: Fn(U) -> W>(self, g: G) -> (r: (T, W))
        ensures
            r.0 == self.0,
            call_ensures(g, (self.1,), r.1),
    {
        (self.0, g(self.1))
    }
}

impl<T, U, V, W> Bifunctor<V, W> for (T, U) {
    type OuterTarget = (V, W);

    open spec fn map_both(self, f: spec_fn(T) -> V, g: spec_fn(U) -> W) -> (V, W) {
        (f(self.0), g(self.1))
    }

    proof fn lemma_map_both(self, f: spec_fn(T) -> V, g: spec_fn(U) -> W) {
    }
}

/// An outcome fills the first slot on success and the second on failure.
impl<T, E> TwoSlot for Result<T, E> {
    type InnerFirst = T;

    type InnerSecond = E;

    open spec fn first_slot(self) -> Option<T> {
        match self {
            Ok(t) => Some(t),
            Err(_) => None,
        }
    }

    open spec fn second_slot(self) -> Option<E> {
        match self {
            Ok(_) => None,
            Err(e) => Some(e),
        }
    }

    proof fn lemma_slots_determine(self, other: Self) {
    }
}

impl<T, E, V> MapFirst<V> for Result<T, E> {
    type FirstTarget = Result<V, E>;

    open spec fn map_first(self, f: spec_fn(T) -> V) -> Result<V, E> {
        match self {
            Ok(t) => Ok(f(t)),
            Err(e) => Err(e),
        }
    }

    proof fn lemma_map_first(self, f: spec_fn(T) -> V) {
    }

    /// A success stays a success and holds what `f` returns for its value; a
    /// failure passes through with the error it had.
    fn first<F: Fn(T) -> V>(self, f: F) -> (r: Result<V, E>)
        ensures
            match self {
                Ok(t) => r matches Ok(v) && call_ensures(f, (t,), v),
                Err(e) => r == Err::<V, E>(e),
            },
    {
        self.map(f)
    }
}

impl<T, E, W> MapSecond<W> for Result<T, E> {
    type SecondTarget = Result<T, W>;

    open spec fn map_second(self, g: spec_fn(E) -> W) -> Result<T, W> {
        match self {
            Ok(t) => Ok(t),
            Err(e) => Err(g(e)),
        }
    }

    proof fn lemma_map_second(self, g: spec_fn(E) -> W) {
    }

    /// A failure stays a failure and holds what `g` returns for its error; a
    /// success passes through with the value it had.
    fn second<G: Fn(E) -> W>(self, g: G) -> (r: Result<T, W>)
        ensures
            match self {
                Ok(t) => r == Ok::<T, W>(t),
                Err(e) => r matches Err(w) && call_ensures(g, (e,), w),
            },
    {
        self.map_err(g)
    }
}

impl<T, E, V, W> Bifunctor<V, W> for Result<T, E> {
    type OuterTarget = Result<V, W>;

    open spec fn map_both(self, f: spec_fn(T) -> V, g: spec_fn(E) -> W) -> Result<V, W> {
        match self {
            Ok(t) => Ok(f(t)),
            Err(e) => Err(g(e)),
        }
    }

    proof fn lemma_map_both(self, f: spec_fn(T) -> V, g: spec_fn(E) -> W) {
    }
}

} // verus!
