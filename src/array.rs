//! The index column: packed 64-bit values with a validity mask, validated once
//! on construction.
use vstd::prelude::*;

use std::marker::PhantomData;

use crate::error::Error;
use crate::index::H3IndexArrayValue;

verus! {

/// Every present entry of `s` decodes to a valid index of kind `V`.
pub open spec fn valid_entries<V: H3IndexArrayValue>(s: Seq<Option<u64>>) -> bool {
    forall|i: int| 0 <= i < s.len() && (#[trigger] s[i]) is Some ==> V::valid_raw(s[i]->0)
}

/// A column of grid indexes of kind `V`, each position present or null.
///
/// Every present position holds bits that were validated as a `V`, so reading
/// it back needs no validation.
pub struct H3Array<V: H3IndexArrayValue> {
    values: Vec<u64>,
    validity: Vec<bool>,
    phantom: PhantomData<V>,
}

impl<V: H3IndexArrayValue> View for H3Array<V> {
    type V = Seq<Option<u64>>;

    closed spec fn view(&self) -> Seq<Option<u64>> {
        Seq::new(
            self.values@.len(),
            |i: int|
                if self.validity@[i] {
                    Some(self.values@[i])
                } else {
                    None
                },
        )
    }
}

impl<V: H3IndexArrayValue> H3Array<V> {
    #[verifier::type_invariant]
    spec fn inv(self) -> bool {
        &&& self.values@.len() == self.validity@.len()
        &&& forall|i: int|
            0 <= i < self.values@.len() && #[trigger] self.validity@[i] ==> V::valid_raw(
                self.values@[i],
            )
    }

    /// The number of positions, present or null.
    pub fn len(&self) -> (r: usize)
        ensures
            r == self@.len(),
    {
        proof {
            use_type_invariant(self);
        }
        self.values.len()
    }

    /// Whether the column has no positions.
    pub fn is_empty(&self) -> (r: bool)
        ensures
            r == (self@.len() == 0),
    {
        proof {
            use_type_invariant(self);
        }
        self.values.len() == 0
    }

    /// The raw bits at position `i`, or `None` where it is null. Present bits
    /// are valid indexes of kind `V`.
    pub fn raw_value(&self, i: usize) -> (r: Option<u64>)
        requires
            i < self@.len(),
        ensures
            r == self@[i as int],
            r is Some ==> V::valid_raw(r->0),
    {
        proof {
            use_type_invariant(self);
        }
        if self.validity[i] {
            Some(self.values[i])
        } else {
            None
        }
    }

    /// The index at position `i`, or `None` where it is null. The stored bits
    /// are reinterpreted, not validated again.
    pub fn get(&self, i: usize) -> (r: Option<V>)
        requires
            i < self@.len(),
        ensures
            match r {
                Some(v) => self@[i as int] == Some(v.raw()),
                None => self@[i as int] is None,
            },
    {
        proof {
            use_type_invariant(self);
        }
        if self.validity[i] {
            Some(V::transmute_from_u64(self.values[i]))
        } else {
            None
        }
    }

    /// Builds a column from values and validity flags already checked.
    fn from_parts(values: Vec<u64>, validity: Vec<bool>) -> (r: Self)
        requires
            values@.len() == validity@.len(),
            forall|i: int|
                0 <= i < values@.len() && #[trigger] validity@[i] ==> V::valid_raw(values@[i]),
        ensures
            r@.len() == values@.len(),
            forall|i: int|
                0 <= i < values@.len() ==> #[trigger] r@[i] == if validity@[i] {
                    Some(values@[i])
                } else {
                    None
                },
    {
        H3Array { values, validity, phantom: PhantomData }
    }

    /// A column of values already known to be valid, all present.
    pub(crate) fn from_all_valid(values: Vec<u64>) -> (r: Self)
        requires
            forall|i: int| 0 <= i < values@.len() ==> V::valid_raw(#[trigger] values@[i]),
        ensures
            r@ == values@.map_values(|v: u64| Some(v)),
    {
        let n = values.len();
        let mut validity: Vec<bool> = Vec::with_capacity(n);
        let mut i: usize = 0;
        while i < n
            invariant
                n == values@.len(),
                i <= n,
                validity@.len() == i,
                forall|j: int| 0 <= j < i ==> #[trigger] validity@[j],
            decreases n - i,
        {
            validity.push(true);
            i = i + 1;
        }
        let r = Self::from_parts(values, validity);
        assert(r@ =~= values@.map_values(|v: u64| Some(v)));
        r
    }

    /// A column of optional values whose present ones are already known to
    /// be valid.
    pub(crate) fn from_valid_options(values: Vec<Option<u64>>) -> (r: Self)
        requires
            forall|i: int|
                0 <= i < values@.len() && (#[trigger] values@[i]) is Some ==> V::valid_raw(
                    values@[i]->0,
                ),
        ensures
            r@ == values@,
    {
        let n = values.len();
        let mut raws: Vec<u64> = Vec::with_capacity(n);
        let mut validity: Vec<bool> = Vec::with_capacity(n);
        let mut i: usize = 0;
        while i < n
            invariant
                n == values@.len(),
                i <= n,
                raws@.len() == i,
                validity@.len() == i,
                forall|j: int|
                    0 <= j < values@.len() && (#[trigger] values@[j]) is Some ==> V::valid_raw(
                        values@[j]->0,
                    ),
                forall|j: int|
                    0 <= j < i ==> (if #[trigger] validity@[j] {
                        Some(raws@[j])
                    } else {
                        None
                    }) == values@[j],
            decreases n - i,
        {
            match values[i] {
                Some(v) => {
                    raws.push(v);
                    validity.push(true);
                },
                None => {
                    raws.push(0);
                    validity.push(false);
                },
            }
            i = i + 1;
        }
        assert forall|j: int| 0 <= j < raws@.len() && #[trigger] validity@[j] implies V::valid_raw(raws@[j]) by {
            assert(values@[j] == Some(raws@[j]));
        }
        let r = Self::from_parts(raws, validity);
        assert(r@ =~= values@);
        r
    }

    /// Validates every value; the column has no null position. Fails on the
    /// first value that is not a valid index of kind `V`, and then no column
    /// is built.
    pub fn from_raw(values: Vec<u64>) -> (r: Result<Self, Error>)
        ensures
            from_raw_post(values@, r),
    {
        let n = values.len();
        let mut validity: Vec<bool> = Vec::with_capacity(n);
        let mut i: usize = 0;
        while i < n
            invariant
                n == values@.len(),
                i <= n,
                validity@.len() == i,
                forall|j: int| 0 <= j < i ==> #[trigger] validity@[j],
                forall|j: int| 0 <= j < i ==> V::valid_raw(#[trigger] values@[j]),
            decreases n - i,
        {
            let value = values[i];
            match V::try_from_u64(value) {
                Some(_) => {},
                None => {
                    return Err(Error::InvalidIndex { position: i, value });
                },
            }
            validity.push(true);
            i = i + 1;
        }
        let r = Self::from_parts(values, validity);
        assert(r@ =~= values@.map_values(|v: u64| Some(v)));
        Ok(r)
    }

    /// Validates every present value; absent values become null positions.
    /// Fails on the first present value that is not a valid index of kind
    /// `V`, and then no column is built.
    pub fn try_from_options(values: Vec<Option<u64>>) -> (r: Result<Self, Error>)
        ensures
            match r {
                Ok(a) => {
                    &&& a@ == values@
                    &&& valid_entries::<V>(values@)
                },
                Err(Error::InvalidIndex { position, value }) => {
                    &&& position < values@.len()
                    &&& values@[position as int] == Some(value)
                    &&& !V::valid_raw(value)
                    &&& valid_entries::<V>(values@.take(position as int))
                },
                Err(_) => false,
            },
    {
        let n = values.len();
        let mut i: usize = 0;
        while i < n
            invariant
                n == values@.len(),
                i <= n,
                valid_entries::<V>(values@.take(i as int)),
            decreases n - i,
        {
            match values[i] {
                Some(value) => {
                    if V::try_from_u64(value).is_none() {
                        return Err(Error::InvalidIndex { position: i, value });
                    }
                },
                None => {},
            }
            i = i + 1;
            assert forall|j: int| 0 <= j < i && (#[trigger] values@.take(i as int)[j]) is Some implies V::valid_raw(
                values@.take(i as int)[j]->0,
            ) by {
                if j < i - 1 {
                    assert(values@.take(i as int)[j] == values@.take(i - 1)[j]);
                }
            }
        }
        assert(values@.take(n as int) =~= values@);
        Ok(Self::from_valid_options(values))
    }

    /// Validates each value on its own: absent values and values that are not
    /// valid indexes of kind `V` become null positions.
    pub fn from_raw_tolerant(values: Vec<Option<u64>>) -> (r: Self)
        ensures
            r@ == values@.map_values(|v: Option<u64>| tolerant_entry::<V>(v)),
    {
        let n = values.len();
        let mut raws: Vec<u64> = Vec::with_capacity(n);
        let mut validity: Vec<bool> = Vec::with_capacity(n);
        let mut i: usize = 0;
        while i < n
            invariant
                n == values@.len(),
                i <= n,
                raws@.len() == i,
                validity@.len() == i,
                forall|j: int|
                    0 <= j < i && #[trigger] validity@[j] ==> V::valid_raw(raws@[j]),
                forall|j: int|
                    0 <= j < i ==> (if #[trigger] validity@[j] {
                        Some(raws@[j])
                    } else {
                        None
                    }) == tolerant_entry::<V>(values@[j]),
            decreases n - i,
        {
            match values[i] {
                Some(value) => {
                    match V::try_from_u64(value) {
                        Some(_) => {
                            raws.push(value);
                            validity.push(true);
                        },
                        None => {
                            raws.push(0);
                            validity.push(false);
                        },
                    }
                },
                None => {
                    raws.push(0);
                    validity.push(false);
                },
            }
            i = i + 1;
        }
        let r = Self::from_parts(raws, validity);
        assert(r@ =~= values@.map_values(|v: Option<u64>| tolerant_entry::<V>(v)));
        r
    }

    /// A column with every index of `values` present.
    pub fn from_indexes(values: Vec<V>) -> (r: Self)
        ensures
            r@ == values@.map_values(|v: V| Some(v.raw())),
    {
        let n = values.len();
        let mut raws: Vec<u64> = Vec::with_capacity(n);
        let mut validity: Vec<bool> = Vec::with_capacity(n);
        let mut i: usize = 0;
        while i < n
            invariant
                n == values@.len(),
                i <= n,
                raws@.len() == i,
                validity@.len() == i,
                forall|j: int| 0 <= j < i ==> #[trigger] validity@[j],
                forall|j: int|
                    0 <= j < i ==> #[trigger] raws@[j] == values@[j].raw() && V::valid_raw(
                        raws@[j],
                    ),
            decreases n - i,
        {
            raws.push(values[i].to_u64());
            validity.push(true);
            i = i + 1;
        }
        let r = Self::from_parts(raws, validity);
        assert(r@ =~= values@.map_values(|v: V| Some(v.raw())));
        r
    }

    /// A column with the given indexes, `None` giving a null position.
    pub fn from_options(values: Vec<Option<V>>) -> (r: Self)
        ensures
            r@ == values@.map_values(|v: Option<V>| option_raw(v)),
    {
        let n = values.len();
        let mut raws: Vec<u64> = Vec::with_capacity(n);
        let mut validity: Vec<bool> = Vec::with_capacity(n);
        let mut i: usize = 0;
        while i < n
            invariant
                n == values@.len(),
                i <= n,
                raws@.len() == i,
                validity@.len() == i,
                forall|j: int|
                    0 <= j < i && #[trigger] validity@[j] ==> V::valid_raw(raws@[j]),
                forall|j: int|
                    0 <= j < i ==> (if #[trigger] validity@[j] {
                        Some(raws@[j])
                    } else {
                        None
                    }) == option_raw(values@[j]),
            decreases n - i,
        {
            match values[i] {
                Some(v) => {
                    raws.push(v.to_u64());
                    validity.push(true);
                },
                None => {
                    raws.push(0);
                    validity.push(false);
                },
            }
            i = i + 1;
        }
        let r = Self::from_parts(raws, validity);
        assert(r@ =~= values@.map_values(|v: Option<V>| option_raw(v)));
        r
    }

    /// Applies `f` to each present index; null positions, and indexes for
    /// which `f` gives `None`, become null.
    pub fn map_values<U: H3IndexArrayValue, F: Fn(V) -> Option<U>>(&self, f: F) -> (r: H3Array<U>)
        requires
            forall|v: V| #[trigger] f.requires((v,)),
        ensures
            r@.len() == self@.len(),
            forall|i: int|
                0 <= i < self@.len() ==> match #[trigger] self@[i] {
                    None => r@[i] is None,
                    Some(raw) => exists|v: V, o: Option<U>|
                        v.raw() == raw && #[trigger] f.ensures((v,), o) && r@[i] == option_raw(o),
                },
    {
        let n = self.len();
        let mut out: Vec<Option<u64>> = Vec::with_capacity(n);
        let mut i: usize = 0;
        while i < n
            invariant
                n == self@.len(),
                i <= n,
                out@.len() == i,
                forall|v: V| #[trigger] f.requires((v,)),
                forall|j: int|
                    0 <= j < i && (#[trigger] out@[j]) is Some ==> U::valid_raw(out@[j]->0),
                forall|j: int|
                    0 <= j < i ==> match #[trigger] self@[j] {
                        None => out@[j] is None,
                        Some(raw) => exists|v: V, o: Option<U>|
                            v.raw() == raw && #[trigger] f.ensures((v,), o) && out@[j] == option_raw(o),
                    },
            decreases n - i,
        {
            match self.get(i) {
                Some(v) => {
                    let o = f(v);
                    match o {
                        Some(u) => out.push(Some(u.to_u64())),
                        None => out.push(None),
                    }
                    assert(out@[i as int] == option_raw(o));
                },
                None => out.push(None),
            }
            i = i + 1;
        }
        H3Array::<U>::from_valid_options(out)
    }

    /// Keeps only the `length` positions that start at `offset`.
    pub fn slice(&mut self, offset: usize, length: usize)
        requires
            offset + length <= old(self)@.len(),
        ensures
            final(self)@ == old(self)@.subrange(offset as int, offset + length),
    {
        *self = self.sliced(offset, length);
    }

    /// The `length` positions that start at `offset`, as a column of their own.
    pub fn sliced(&self, offset: usize, length: usize) -> (r: Self)
        requires
            offset + length <= self@.len(),
        ensures
            r@ == self@.subrange(offset as int, offset + length),
    {
        proof {
            use_type_invariant(self);
        }
        let mut raws: Vec<u64> = Vec::with_capacity(length);
        let mut validity: Vec<bool> = Vec::with_capacity(length);
        let n = self.values.len();
        let mut i: usize = 0;
        while i < length
            invariant
                n == self.values@.len(),
                offset + length <= n,
                self.values@.len() == self.validity@.len(),
                forall|j: int|
                    0 <= j < self.values@.len() && #[trigger] self.validity@[j] ==> V::valid_raw(
                        self.values@[j],
                    ),
                i <= length,
                raws@.len() == i,
                validity@.len() == i,
                forall|j: int| 0 <= j < i ==> #[trigger] raws@[j] == self.values@[offset + j],
                forall|j: int| 0 <= j < i ==> #[trigger] validity@[j] == self.validity@[offset + j],
            decreases length - i,
        {
            raws.push(self.values[offset + i]);
            validity.push(self.validity[offset + i]);
            i = i + 1;
        }
        let r = Self::from_parts(raws, validity);
        assert(r@ =~= self@.subrange(offset as int, offset + length));
        r
    }
}

impl<V: H3IndexArrayValue> Clone for H3Array<V> {
    /// A column with the same positions.
    fn clone(&self) -> (r: Self)
        ensures
            r@ == self@,
    {
        let r = self.sliced(0, self.len());
        assert(self@.subrange(0, self@.len() as int) =~= self@);
        r
    }
}

/// What a tolerant build makes of one input: null where it is absent or not
/// a valid index of kind `V`.
pub open spec fn tolerant_entry<V: H3IndexArrayValue>(v: Option<u64>) -> Option<u64> {
    match v {
        Some(raw) => if V::valid_raw(raw) {
            Some(raw)
        } else {
            None
        },
        None => None,
    }
}

/// The encoding of an optional index.
pub open spec fn option_raw<V: H3IndexArrayValue>(v: Option<V>) -> Option<u64> {
    match v {
        Some(x) => Some(x.raw()),
        None => None,
    }
}

/// What validating `values` all at once gives: a column of all of them,
/// present, when each is a valid index of kind `V`; else the error naming the
/// first one that is not.
pub open spec fn from_raw_post<V: H3IndexArrayValue>(values: Seq<u64>, r: Result<H3Array<V>, Error>) -> bool {
    match r {
        Ok(a) => {
            &&& a@ == values.map_values(|v: u64| Some(v))
            &&& forall|i: int| 0 <= i < values.len() ==> V::valid_raw(#[trigger] values[i])
        },
        Err(Error::InvalidIndex { position, value }) => {
            &&& position < values.len()
            &&& value == values[position as int]
            &&& !V::valid_raw(value)
            &&& forall|i: int| 0 <= i < position ==> V::valid_raw(#[trigger] values[i])
        },
        Err(_) => false,
    }
}

/// A single raw value builds a column exactly when it is a valid index of
/// kind `V`, and that column holds the value, present, at position 0.
pub proof fn lemma_single_value_round_trip<V: H3IndexArrayValue>(v: u64, r: Result<H3Array<V>, Error>)
    requires
        from_raw_post(seq![v], r),
    ensures
        r is Ok <==> V::valid_raw(v),
        r is Ok ==> r->Ok_0@.len() == 1 && r->Ok_0@[0] == Some(v),
{
    if let Ok(a) = r {
        assert(V::valid_raw(seq![v][0]));
        assert(a@[0] == seq![v].map_values(|x: u64| Some(x))[0]);
    }
}

/// Conversion like `From`, where inputs that are not valid indexes become
/// null positions instead of failing.
pub trait FromWithValidity<T>: Sized {
    fn from_with_validity(value: T) -> Self;
}

/// Conversion from a sequence of items, where items that are not valid
/// indexes become null positions instead of failing.
pub trait FromIteratorWithValidity<A>: Sized {
    fn from_iter_with_validity(values: Vec<A>) -> Self;
}

impl<V: H3IndexArrayValue> FromIteratorWithValidity<Option<u64>> for H3Array<V> {
    fn from_iter_with_validity(values: Vec<Option<u64>>) -> (r: Self)
        ensures
            r@ == values@.map_values(|v: Option<u64>| tolerant_entry::<V>(v)),
    {
        Self::from_raw_tolerant(values)
    }
}

impl<V: H3IndexArrayValue> FromIteratorWithValidity<u64> for H3Array<V> {
    fn from_iter_with_validity(values: Vec<u64>) -> (r: Self)
        ensures
            r@ == values@.map_values(|v: u64| tolerant_entry::<V>(Some(v))),
    {
        let mut options: Vec<Option<u64>> = Vec::with_capacity(values.len());
        let mut i: usize = 0;
        while i < values.len()
            invariant
                i <= values@.len(),
                options@ == values@.take(i as int).map_values(|v: u64| Some(v)),
            decreases values@.len() - i,
        {
            options.push(Some(values[i]));
            i = i + 1;
            assert(options@ =~= values@.take(i as int).map_values(|v: u64| Some(v)));
        }
        assert(values@.take(values@.len() as int) =~= values@);
        let r = Self::from_raw_tolerant(options);
        assert(r@ =~= values@.map_values(|v: u64| tolerant_entry::<V>(Some(v))));
        r
    }
}

impl<V: H3IndexArrayValue> FromWithValidity<Vec<u64>> for H3Array<V> {
    fn from_with_validity(value: Vec<u64>) -> (r: Self)
        ensures
            r@ == value@.map_values(|v: u64| tolerant_entry::<V>(Some(v))),
    {
        <Self as FromIteratorWithValidity<u64>>::from_iter_with_validity(value)
    }
}

impl<V: H3IndexArrayValue> FromWithValidity<Vec<Option<u64>>> for H3Array<V> {
    fn from_with_validity(value: Vec<Option<u64>>) -> (r: Self)
        ensures
            r@ == value@.map_values(|v: Option<u64>| tolerant_entry::<V>(v)),
    {
        Self::from_raw_tolerant(value)
    }
}

} // verus!
