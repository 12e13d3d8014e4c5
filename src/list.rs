//! Ragged lists of indexes: per outer position, a null or a list of zero or
//! more indexes, stored as offsets into one flat index column.
use vstd::prelude::*;

use std::marker::PhantomData;

use crate::array::H3Array;
use crate::error::Error;
use crate::index::H3IndexArrayValue;

verus! {

/// The outer elements described by `offsets` into `values` under `validity`:
/// element `i` is null where its flag is unset, else the values between its
/// two offsets.
pub open spec fn ragged_view(offsets: Seq<usize>, values: Seq<Option<u64>>, validity: Seq<bool>) -> Seq<
    Option<Seq<Option<u64>>>,
> {
    Seq::new(
        validity.len(),
        |i: int|
            if validity[i] {
                Some(values.subrange(offsets[i] as int, offsets[i + 1] as int))
            } else {
                None
            },
    )
}

/// Offsets that frame `n_values` values into `validity.len()` outer elements:
/// one more offset than elements, starting at zero, never decreasing, ending
/// at `n_values`, and equal on both sides of a null element.
pub open spec fn offsets_frame(offsets: Seq<usize>, n_values: int, validity: Seq<bool>) -> bool {
    &&& offsets.len() == validity.len() + 1
    &&& offsets[0] == 0
    &&& offsets[offsets.len() - 1] == n_values
    &&& forall|i: int| 0 <= i < validity.len() ==> #[trigger] frame_step(offsets, validity, i)
}

/// Outer element `i` ends no earlier than it starts, and is empty where null.
pub open spec fn frame_step(offsets: Seq<usize>, validity: Seq<bool>, i: int) -> bool {
    &&& offsets[i] <= offsets[i + 1]
    &&& !validity[i] ==> offsets[i] == offsets[i + 1]
}

/// The inner values of all outer elements, one after the other; a null
/// element contributes none.
pub open spec fn flatten(s: Seq<Option<Seq<Option<u64>>>>) -> Seq<Option<u64>>
    decreases s.len(),
{
    if s.len() == 0 {
        Seq::empty()
    } else {
        flatten(s.drop_last()) + match s.last() {
            Some(inner) => inner,
            None => Seq::empty(),
        }
    }
}

/// Framed values, read element by element, are the values in order.
proof fn lemma_flatten_frame(
    offsets: Seq<usize>,
    values: Seq<Option<u64>>,
    validity: Seq<bool>,
    k: int,
)
    requires
        offsets_frame(offsets, values.len() as int, validity),
        0 <= k <= validity.len(),
    ensures
        offsets[k] <= values.len(),
        flatten(ragged_view(offsets, values, validity).take(k)) == values.subrange(
            0,
            offsets[k] as int,
        ),
    decreases k,
{
    let view = ragged_view(offsets, values, validity);
    lemma_offsets_bounded(offsets, values.len() as int, validity, k);
    if k == 0 {
        assert(view.take(0) =~= Seq::<Option<Seq<Option<u64>>>>::empty());
        assert(values.subrange(0, 0) =~= Seq::<Option<u64>>::empty());
    } else {
        lemma_flatten_frame(offsets, values, validity, k - 1);
        assert(view.take(k).drop_last() =~= view.take(k - 1));
        assert(frame_step(offsets, validity, k - 1));
        if validity[k - 1] {
            assert(values.subrange(0, offsets[k] as int) =~= values.subrange(
                0,
                offsets[k - 1] as int,
            ) + values.subrange(offsets[k - 1] as int, offsets[k] as int));
        } else {
            assert(offsets[k - 1] == offsets[k]);
            assert(flatten(view.take(k)) =~= flatten(view.take(k - 1)));
        }
    }
}

/// No offset passes the last one.
proof fn lemma_offsets_bounded(offsets: Seq<usize>, n_values: int, validity: Seq<bool>, k: int)
    requires
        offsets_frame(offsets, n_values, validity),
        0 <= k <= validity.len(),
    ensures
        offsets[k] <= n_values,
    decreases validity.len() - k,
{
    if k < validity.len() {
        lemma_offsets_bounded(offsets, n_values, validity, k + 1);
        assert(frame_step(offsets, validity, k));
    }
}

/// A ragged list of indexes of kind `V`.
///
/// Each outer position is null, or a list of zero or more positions of the
/// flat value column. A null outer position and an empty list are distinct.
pub struct H3ListArray<V: H3IndexArrayValue> {
    offsets: Vec<usize>,
    values: H3Array<V>,
    validity: Vec<bool>,
}

impl<V: H3IndexArrayValue> View for H3ListArray<V> {
    type V = Seq<Option<Seq<Option<u64>>>>;

    closed spec fn view(&self) -> Seq<Option<Seq<Option<u64>>>> {
        ragged_view(self.offsets@, self.values@, self.validity@)
    }
}

impl<V: H3IndexArrayValue> H3ListArray<V> {
    #[verifier::type_invariant]
    spec fn inv(self) -> bool {
        offsets_frame(self.offsets@, self.values@.len() as int, self.validity@)
    }

    /// The number of outer positions.
    pub fn len(&self) -> (r: usize)
        ensures
            r == self@.len(),
    {
        proof {
            use_type_invariant(self);
        }
        self.validity.len()
    }

    /// Whether there is no outer position.
    pub fn is_empty(&self) -> (r: bool)
        ensures
            r == (self@.len() == 0),
    {
        proof {
            use_type_invariant(self);
        }
        self.validity.len() == 0
    }

    /// The list at outer position `i` as a column of its own, or `None` where
    /// the outer position is null.
    pub fn get(&self, i: usize) -> (r: Option<H3Array<V>>)
        requires
            i < self@.len(),
        ensures
            match r {
                Some(a) => self@[i as int] == Some(a@),
                None => self@[i as int] is None,
            },
    {
        proof {
            use_type_invariant(self);
            lemma_offsets_bounded(
                self.offsets@,
                self.values@.len() as int,
                self.validity@,
                i as int + 1,
            );
        }
        let n_off = self.offsets.len();
        assert(i + 1 < n_off);
        assert(frame_step(self.offsets@, self.validity@, i as int));
        if self.validity[i] {
            let start = self.offsets[i];
            let end = self.offsets[i + 1];
            Some(self.values.sliced(start, end - start))
        } else {
            None
        }
    }

    /// Each outer position read as by `get`; reading again gives the same.
    pub fn iter_arrays(&self) -> (r: Vec<Option<H3Array<V>>>)
        ensures
            r@.len() == self@.len(),
            forall|i: int|
                0 <= i < self@.len() ==> match #[trigger] r@[i] {
                    Some(a) => self@[i] == Some(a@),
                    None => self@[i] is None,
                },
    {
        let n = self.len();
        let mut out: Vec<Option<H3Array<V>>> = Vec::with_capacity(n);
        let mut i: usize = 0;
        while i < n
            invariant
                n == self@.len(),
                i <= n,
                out@.len() == i,
                forall|j: int|
                    0 <= j < i ==> match #[trigger] out@[j] {
                        Some(a) => self@[j] == Some(a@),
                        None => self@[j] is None,
                    },
            decreases n - i,
        {
            out.push(self.get(i));
            i = i + 1;
        }
        out
    }

    /// All inner values in order, as one column. Which outer positions were
    /// null, and where the lists began, is not kept.
    pub fn into_flattened(self) -> (r: H3Array<V>)
        ensures
            r@ == flatten(self@),
    {
        proof {
            use_type_invariant(&self);
            lemma_flatten_frame(
                self.offsets@,
                self.values@,
                self.validity@,
                self.validity@.len() as int,
            );
            assert(self@.take(self@.len() as int) =~= self@);
            assert(self.values@.subrange(0, self.values@.len() as int) =~= self.values@);
        }
        self.values
    }

    /// Builds a list from its parts. `validity` of `None` makes every outer
    /// position present. Fails where the offsets do not frame the values.
    pub fn try_new(offsets: Vec<usize>, values: H3Array<V>, validity: Option<Vec<bool>>) -> (r:
        Result<Self, Error>)
        ensures
            match r {
                Ok(l) => {
                    &&& offsets_frame(offsets@, values@.len() as int, validity_or_all(&validity, offsets@.len()))
                    &&& l@ == ragged_view(offsets@, values@, validity_or_all(&validity, offsets@.len()))
                },
                Err(e) => {
                    &&& e == Error::InvalidOffsets
                    &&& !offsets_frame(offsets@, values@.len() as int, validity_or_all(&validity, offsets@.len()))
                },
            },
    {
        let n_off = offsets.len();
        if n_off == 0 {
            return Err(Error::InvalidOffsets);
        }
        let m = n_off - 1;
        let ghost wanted = validity_or_all(&validity, offsets@.len());
        let flags = match validity {
            Some(v) => v,
            None => all_present(m),
        };
        assert(flags@ == wanted);
        if flags.len() != m || offsets[0] != 0 || offsets[m] != values.len() {
            return Err(Error::InvalidOffsets);
        }
        let mut i: usize = 0;
        while i < m
            invariant
                n_off == offsets@.len(),
                m + 1 == n_off,
                flags@.len() == m,
                flags@ == wanted,
                wanted == validity_or_all(&validity, offsets@.len()),
                offsets@[0] == 0,
                offsets@[m as int] == values@.len(),
                i <= m,
                forall|j: int| 0 <= j < i ==> #[trigger] frame_step(offsets@, wanted, j),
            decreases m - i,
        {
            let lo = offsets[i];
            let hi = offsets[i + 1];
            if lo > hi {
                assert(!frame_step(offsets@, wanted, i as int));
                assert(!offsets_frame(offsets@, values@.len() as int, wanted));
                return Err(Error::InvalidOffsets);
            }
            if !flags[i] && lo != hi {
                assert(!frame_step(offsets@, wanted, i as int));
                assert(!offsets_frame(offsets@, values@.len() as int, wanted));
                return Err(Error::InvalidOffsets);
            }
            i = i + 1;
        }
        Ok(H3ListArray { offsets, values, validity: flags })
    }
}

/// The outer validity a list is built with: the given flags, or, where none
/// are given, every one of the `n_offsets - 1` positions present.
pub open spec fn validity_or_all(validity: &Option<Vec<bool>>, n_offsets: nat) -> Seq<bool> {
    match validity {
        Some(v) => v@,
        None => Seq::new((n_offsets - 1) as nat, |i: int| true),
    }
}

/// `n` flags, all set.
fn all_present(n: usize) -> (r: Vec<bool>)
    ensures
        r@ == Seq::new(n as nat, |i: int| true),
{
    let mut r: Vec<bool> = Vec::with_capacity(n);
    let mut i: usize = 0;
    while i < n
        invariant
            i <= n,
            r@.len() == i,
            forall|j: int| 0 <= j < i ==> #[trigger] r@[j],
        decreases n - i,
    {
        r.push(true);
        i = i + 1;
    }
    assert(r@ =~= Seq::new(n as nat, |i: int| true));
    r
}

/// Appending one outer element to framed values keeps them framed, and adds
/// that element at the end of the view.
proof fn lemma_frame_push(
    offsets: Seq<usize>,
    values: Seq<Option<u64>>,
    validity: Seq<bool>,
    extra: Seq<Option<u64>>,
    present: bool,
)
    requires
        offsets_frame(offsets, values.len() as int, validity),
        values.len() + extra.len() <= usize::MAX,
        !present ==> extra.len() == 0,
    ensures
        offsets_frame(
            offsets.push((values.len() + extra.len()) as usize),
            (values.len() + extra.len()) as int,
            validity.push(present),
        ),
        ragged_view(
            offsets.push((values.len() + extra.len()) as usize),
            values + extra,
            validity.push(present),
        ) == ragged_view(offsets, values, validity).push(
            if present {
                Some(extra)
            } else {
                None
            },
        ),
{
    let offsets2 = offsets.push((values.len() + extra.len()) as usize);
    let values2 = values + extra;
    let validity2 = validity.push(present);
    let m = validity.len() as int;
    assert forall|i: int| 0 <= i < validity2.len() implies #[trigger] frame_step(
        offsets2,
        validity2,
        i,
    ) by {
        if i < m {
            assert(frame_step(offsets, validity, i));
        }
    }
    let old_view = ragged_view(offsets, values, validity);
    let new_view = ragged_view(offsets2, values2, validity2);
    assert forall|i: int| 0 <= i < m implies new_view[i] == old_view[i] by {
        assert(frame_step(offsets, validity, i));
        lemma_offsets_bounded(offsets, values.len() as int, validity, i + 1);
        if validity[i] {
            assert(values2.subrange(offsets[i] as int, offsets[i + 1] as int) =~= values.subrange(
                offsets[i] as int,
                offsets[i + 1] as int,
            ));
        }
    }
    if present {
        assert(values2.subrange(values.len() as int, values2.len() as int) =~= extra);
    }
    assert(new_view =~= old_view.push(
        if present {
            Some(extra)
        } else {
            None
        },
    ));
}

/// Builds a ragged list one outer element at a time, front to back.
pub struct H3ListArrayBuilder<V: H3IndexArrayValue> {
    offsets: Vec<usize>,
    values: Vec<u64>,
    validity: Vec<bool>,
    phantom: PhantomData<V>,
}

/// Raw values as present entries.
pub open spec fn present_all(values: Seq<u64>) -> Seq<Option<u64>> {
    values.map_values(|v: u64| Some(v))
}

impl<V: H3IndexArrayValue> View for H3ListArrayBuilder<V> {
    type V = Seq<Option<Seq<Option<u64>>>>;

    closed spec fn view(&self) -> Seq<Option<Seq<Option<u64>>>> {
        ragged_view(self.offsets@, present_all(self.values@), self.validity@)
    }
}

impl<V: H3IndexArrayValue> H3ListArrayBuilder<V> {
    /// The builder's offsets frame its values, and each value is a valid
    /// index of kind `V`.
    pub closed spec fn wf(&self) -> bool {
        &&& offsets_frame(self.offsets@, self.values@.len() as int, self.validity@)
        &&& forall|i: int| 0 <= i < self.values@.len() ==> V::valid_raw(#[trigger] self.values@[i])
    }

    /// A builder with no outer element yet.
    pub fn new() -> (r: Self)
        ensures
            r.wf(),
            r@ == Seq::<Option<Seq<Option<u64>>>>::empty(),
    {
        let mut offsets: Vec<usize> = Vec::new();
        offsets.push(0);
        let r = H3ListArrayBuilder {
            offsets,
            values: Vec::new(),
            validity: Vec::new(),
            phantom: PhantomData,
        };
        assert(r@ =~= Seq::<Option<Seq<Option<u64>>>>::empty());
        r
    }

    /// Adds a null outer element.
    pub fn push_invalid(&mut self)
        requires
            old(self).wf(),
        ensures
            final(self).wf(),
            final(self)@ == old(self)@.push(None),
    {
        proof {
            lemma_frame_push(
                self.offsets@,
                present_all(self.values@),
                self.validity@,
                Seq::empty(),
                false,
            );
            assert(present_all(self.values@) + Seq::<Option<u64>>::empty() =~= present_all(
                self.values@,
            ));
        }
        let n = self.values.len();
        self.offsets.push(n);
        self.validity.push(false);
    }

    /// Adds a present outer element holding `raws`, each a valid index of
    /// kind `V`; an empty `raws` gives an empty list, not a null.
    pub fn push_valid_u64s(&mut self, raws: &Vec<u64>)
        requires
            old(self).wf(),
            forall|i: int| 0 <= i < raws@.len() ==> V::valid_raw(#[trigger] raws@[i]),
        ensures
            final(self).wf(),
            final(self)@ == old(self)@.push(Some(present_all(raws@))),
    {
        let ghost old_values = self.values@;
        let ghost old_offsets = self.offsets@;
        let ghost old_validity = self.validity@;
        let mut i: usize = 0;
        while i < raws.len()
            invariant
                i <= raws@.len(),
                self.values@ == old_values + raws@.subrange(0, i as int),
                self.offsets@ == old_offsets,
                self.validity@ == old_validity,
                forall|j: int| 0 <= j < raws@.len() ==> V::valid_raw(#[trigger] raws@[j]),
                forall|j: int| 0 <= j < old_values.len() ==> V::valid_raw(#[trigger] old_values[j]),
            decreases raws@.len() - i,
        {
            self.values.push(raws[i]);
            i = i + 1;
            assert(self.values@ =~= old_values + raws@.subrange(0, i as int));
        }
        assert(raws@.subrange(0, raws@.len() as int) =~= raws@);
        let n = self.values.len();
        proof {
            lemma_frame_push(
                old_offsets,
                present_all(old_values),
                old_validity,
                present_all(raws@),
                true,
            );
            assert(present_all(old_values) + present_all(raws@) =~= present_all(self.values@));
            assert forall|j: int| 0 <= j < self.values@.len() implies V::valid_raw(
                #[trigger] self.values@[j],
            ) by {
                if j >= old_values.len() {
                    assert(self.values@[j] == raws@[j - old_values.len()]);
                }
            }
        }
        self.offsets.push(n);
        self.validity.push(true);
    }

    /// Adds a present outer element holding `items`; an empty `items` gives an
    /// empty list, not a null.
    pub fn push_valid(&mut self, items: Vec<V>)
        requires
            old(self).wf(),
        ensures
            final(self).wf(),
            final(self)@ == old(self)@.push(Some(items@.map_values(|v: V| Some(v.raw())))),
    {
        let mut raws: Vec<u64> = Vec::with_capacity(items.len());
        let mut i: usize = 0;
        while i < items.len()
            invariant
                i <= items@.len(),
                raws@.len() == i,
                forall|j: int|
                    0 <= j < i ==> #[trigger] raws@[j] == items@[j].raw() && V::valid_raw(
                        raws@[j],
                    ),
            decreases items@.len() - i,
        {
            raws.push(items[i].to_u64());
            i = i + 1;
        }
        assert(present_all(raws@) =~= items@.map_values(|v: V| Some(v.raw())));
        self.push_valid_u64s(&raws);
    }

    /// The finished list, with the elements pushed, in order.
    pub fn build(self) -> (r: H3ListArray<V>)
        requires
            self.wf(),
        ensures
            r@ == self@,
    {
        let values = H3Array::<V>::from_all_valid(self.values);
        H3ListArray { offsets: self.offsets, values, validity: self.validity }
    }
}

/// An outer element pushed present with no item reads back as a present,
/// empty list, and one pushed as null reads back as null: the two stay
/// distinct.
pub proof fn lemma_empty_is_not_null(
    before: Seq<Option<Seq<Option<u64>>>>,
    pushed_empty: Seq<Option<Seq<Option<u64>>>>,
    pushed_null: Seq<Option<Seq<Option<u64>>>>,
)
    requires
        pushed_empty == before.push(Some(present_all(Seq::<u64>::empty()))),
        pushed_null == before.push(None),
    ensures
        pushed_empty[before.len() as int] == Some(Seq::<Option<u64>>::empty()),
        pushed_null[before.len() as int] is None,
        pushed_empty[before.len() as int] != pushed_null[before.len() as int],
{
    assert(present_all(Seq::<u64>::empty()) =~= Seq::<Option<u64>>::empty());
}

} // verus!
