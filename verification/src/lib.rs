//! Controlled mutable access into a contiguous, fixed-length region of
//! elements.
//!
//! An [`UnsafeCellSlice`] wraps a region of `N` elements and hands out
//! mutable references to single positions ([`UnsafeCellSlice::index_mut`],
//! [`UnsafeCellSlice::get_mut`]) or to contiguous subranges described by a
//! [`RangeShape`]. Every access is checked against the region's fixed
//! length: the optional accessors report an out-of-bounds request by
//! returning `None`, while the direct accessors demand an in-bounds request
//! from their caller up front. Writes through the returned references land
//! at exactly the requested positions and leave every other position of the
//! region unchanged.
//!
//! Where work is to be carved up over disjoint parts of one region, the
//! pair accessors ([`UnsafeCellSlice::index_pair_mut`],
//! [`UnsafeCellSlice::index_range_pair_mut`]) hand out two mutable
//! references that are live at the same time; the disjointness of the two
//! targets, which no two separate accessor calls could grant, is a checked
//! precondition rather than an unchecked obligation.
//!
//! The region is consumed at construction and handed back by
//! [`UnsafeCellSlice::into_region`] once all accesses are done. A second
//! construction path, [`UnsafeCellSlice::new_from_vec_with_spare_capacity`],
//! builds a view sized to the reserved-but-unpopulated tail of a growable
//! buffer; its slots start out unfilled (`None`) and are appended onto the
//! buffer by [`UnsafeCellSlice::commit`] once every slot has been filled.
use vstd::prelude::*;

mod range_shape;

pub use range_shape::RangeShape;

verus! {

/// A view over a contiguous region of elements that hands out mutable
/// references into it.
///
/// The view owns the region for as long as it lives; the region's element
/// count is fixed at construction and never changes.
pub struct UnsafeCellSlice<T> {
    region: Vec<T>,
}

impl<T> View for UnsafeCellSlice<T> {
    type V = Seq<T>;

    closed spec fn view(&self) -> Seq<T> {
        self.region@
    }
}

impl<T> UnsafeCellSlice<T> {
    /// Build a view over `region`, consuming exclusive access to it.
    ///
    /// Never fails; the view holds exactly the elements of `region`, in
    /// order, so `len()` reports the region's element count.
    #[must_use]
    pub fn new(region: Vec<T>) -> (r: Self)
        ensures
            r@ == region@,
    {
        UnsafeCellSlice { region }
    }

    /// The fixed element count of the underlying region.
    #[must_use]
    pub fn len(&self) -> (n: usize)
        ensures
            n == self@.len(),
    {
        self.region.len()
    }

    /// Whether the underlying region holds no elements.
    #[must_use]
    pub fn is_empty(&self) -> (e: bool)
        ensures
            e == (self@.len() == 0),
    {
        self.region.len() == 0
    }

    /// Get a mutable reference to the element at position `p`, checked.
    ///
    /// The reference is handed out exactly when `p` is in bounds; an
    /// out-of-bounds request reports the absent value and leaves the region
    /// untouched. A write through the returned reference lands at position
    /// `p` and at no other position.
    #[must_use]
    pub fn get_mut(&mut self, p: usize) -> (r: Option<&mut T>)
        ensures
            r is Some <==> p < old(self)@.len(),
            p < old(self)@.len() ==> *r.unwrap() == old(self)@[p as int]
                && final(self)@ == old(self)@.update(p as int, *final(r.unwrap())),
            p >= old(self)@.len() ==> final(self)@ == old(self)@,
    {
        if p < self.region.len() {
            Some(&mut self.region[p])
        } else {
            None
        }
    }

    /// Get a mutable reference to the element at position `p`, unchecked.
    ///
    /// The caller owes an in-bounds position. A write through the returned
    /// reference lands at position `p` and at no other position.
    #[must_use]
    pub fn index_mut(&mut self, p: usize) -> (r: &mut T)
        requires
            p < old(self)@.len(),
        ensures
            *r == old(self)@[p as int],
            final(self)@ == old(self)@.update(p as int, *final(r)),
    {
        &mut self.region[p]
    }

    /// Get a mutable reference to a contiguous subrange, checked.
    ///
    /// The shape is resolved against the region's length to a half-open
    /// interval `[lo, hi)`; the reference is handed out exactly when that
    /// interval is in bounds, and covers positions `lo..hi` of the region,
    /// in order. An inverted or past-the-end request reports the absent
    /// value and leaves the region untouched. Writes through the returned
    /// reference land inside `[lo, hi)` and at no other position.
    #[must_use]
    pub fn get_range_mut(&mut self, shape: RangeShape) -> (r: Option<&mut [T]>)
        ensures
            r is Some <==> shape.in_bounds(old(self)@.len()),
            shape.in_bounds(old(self)@.len()) ==> {
                let lo = shape.lo_spec(old(self)@.len());
                let hi = shape.hi_spec(old(self)@.len());
                r.unwrap()@ == old(self)@.subrange(lo, hi)
                    && final(self)@ == old(self)@.subrange(0, lo) + final(r.unwrap())@
                        + old(self)@.subrange(hi, old(self)@.len() as int)
            },
            !shape.in_bounds(old(self)@.len()) ==> final(self)@ == old(self)@,
    {
        if shape.resolve(self.region.len()).is_some() {
            Some(self.index_range_mut(shape))
        } else {
            None
        }
    }

    /// Get a mutable reference to a contiguous subrange, unchecked.
    ///
    /// The caller owes a shape that resolves in bounds against the
    /// region's length. The returned reference covers positions `lo..hi`
    /// of the region, in order; writes through it land inside `[lo, hi)`
    /// and at no other position.
    #[must_use]
    pub fn index_range_mut(&mut self, shape: RangeShape) -> (r: &mut [T])
        requires
            shape.in_bounds(old(self)@.len()),
        ensures
            r@ == old(self)@.subrange(
                shape.lo_spec(old(self)@.len()),
                shape.hi_spec(old(self)@.len()),
            ),
            final(self)@ == old(self)@.subrange(0, shape.lo_spec(old(self)@.len()))
                + final(r)@
                + old(self)@.subrange(
                    shape.hi_spec(old(self)@.len()),
                    old(self)@.len() as int,
                ),
    {
        let n = self.region.len();
        match shape.resolve(n) {
            Some((lo, hi)) => {
                let s = self.region.as_mut_slice();
                let (_left, rest) = s.split_at_mut(lo);
                let (mid, _right) = rest.split_at_mut(hi - lo);
                mid
            },
            None => vstd::pervasive::unreached(),
        }
    }

    /// Get two simultaneously live mutable references to the elements at
    /// the distinct positions `i` and `j`.
    ///
    /// The borrow rules forbid obtaining the two references by two
    /// separate accessor calls; here the disjointness of the two positions
    /// is a checked precondition, and both references may be held and
    /// written through at the same time. A write through either reference
    /// lands at its own position and does not alter the value stored at
    /// the other, nor at any third position.
    #[must_use]
    pub fn index_pair_mut(&mut self, i: usize, j: usize) -> (r: (&mut T, &mut T))
        requires
            i < old(self)@.len(),
            j < old(self)@.len(),
            i != j,
        ensures
            *r.0 == old(self)@[i as int],
            *r.1 == old(self)@[j as int],
            final(self)@ == old(self)@.update(i as int, *final(r.0)).update(
                j as int,
                *final(r.1),
            ),
    {
        if i < j {
            disjoint_pair_mut(self.region.as_mut_slice(), i, j)
        } else {
            let (rj, ri) = disjoint_pair_mut(self.region.as_mut_slice(), j, i);
            proof {
                assert(old(self)@.update(j as int, *final(rj)).update(i as int, *final(ri))
                    =~= old(self)@.update(i as int, *final(ri)).update(j as int, *final(rj)));
            }
            (ri, rj)
        }
    }

    /// Get two simultaneously live mutable references to two disjoint
    /// contiguous subranges, the first lying entirely before the second.
    ///
    /// Both shapes are resolved against the region's length; the caller
    /// owes two in-bounds shapes whose intervals `[lo_a, hi_a)` and
    /// `[lo_b, hi_b)` satisfy `hi_a <= lo_b`. For two disjoint subranges
    /// in the other order, swap the arguments. Writes through either
    /// reference land inside its own interval and at no other position.
    #[must_use]
    pub fn index_range_pair_mut(&mut self, a: RangeShape, b: RangeShape) -> (r: (
        &mut [T],
        &mut [T],
    ))
        requires
            a.in_bounds(old(self)@.len()),
            b.in_bounds(old(self)@.len()),
            a.hi_spec(old(self)@.len()) <= b.lo_spec(old(self)@.len()),
        ensures
            r.0@ == old(self)@.subrange(
                a.lo_spec(old(self)@.len()),
                a.hi_spec(old(self)@.len()),
            ),
            r.1@ == old(self)@.subrange(
                b.lo_spec(old(self)@.len()),
                b.hi_spec(old(self)@.len()),
            ),
            final(self)@ == old(self)@.subrange(0, a.lo_spec(old(self)@.len())) + final(r.0)@
                + old(self)@.subrange(
                a.hi_spec(old(self)@.len()),
                b.lo_spec(old(self)@.len()),
            ) + final(r.1)@ + old(self)@.subrange(
                b.hi_spec(old(self)@.len()),
                old(self)@.len() as int,
            ),
    {
        let n = self.region.len();
        match (a.resolve(n), b.resolve(n)) {
            (Some((lo_a, hi_a)), Some((lo_b, hi_b))) => {
                let s = self.region.as_mut_slice();
                let (_left, rest) = s.split_at_mut(lo_a);
                let (ra, rest2) = rest.split_at_mut(hi_a - lo_a);
                let (_gap, rest3) = rest2.split_at_mut(lo_b - hi_a);
                let (rb, _tail) = rest3.split_at_mut(hi_b - lo_b);
                (ra, rb)
            },
            _ => vstd::pervasive::unreached(),
        }
    }

    /// Hand the region back to the caller, ending the view's access to it.
    ///
    /// The returned buffer holds the region's elements with every write
    /// made through the view applied.
    #[must_use]
    pub fn into_region(self) -> (r: Vec<T>)
        ensures
            r@ == self@,
    {
        self.region
    }
}

/// Produce mutable references to positions `i` and `j` of `s`, with
/// `i < j`, live at the same time.
///
/// The region splits into `[0, i)`, `[i, j)` and `[j, n)`; the two
/// references are the heads of the middle and the tail part, so writes
/// through them land at `i` and `j` and nowhere else.
fn disjoint_pair_mut<T>(s: &mut [T], i: usize, j: usize) -> (r: (&mut T, &mut T))
    requires
        i < j < old(s)@.len(),
    ensures
        *r.0 == old(s)@[i as int],
        *r.1 == old(s)@[j as int],
        final(s)@ == old(s)@.update(i as int, *final(r.0)).update(j as int, *final(r.1)),
{
    let (_left, rest) = s.split_at_mut(i);
    let (mid, tail) = rest.split_at_mut(j - i);
    let ri = match mid.first_mut() {
        Some(r) => r,
        None => vstd::pervasive::unreached(),
    };
    let rj = match tail.first_mut() {
        Some(r) => r,
        None => vstd::pervasive::unreached(),
    };
    proof {
        assert(old(s)@.subrange(0, i as int) + old(s)@.subrange(i as int, j as int).update(
            0,
            *final(ri),
        ) + old(s)@.subrange(j as int, old(s)@.len() as int).update(0, *final(rj))
            =~= old(s)@.update(i as int, *final(ri)).update(j as int, *final(rj)));
    }
    (ri, rj)
}

/// The values held by a fully filled run of slots, in order.
pub open spec fn filled_values<T>(slots: Seq<Option<T>>) -> Seq<T> {
    slots.map_values(|slot: Option<T>| slot.unwrap())
}

/// Relies on `Vec::capacity`: the total number of elements the buffer can
/// hold without reallocating, which is never less than its length.
#[verifier::external_body]
fn vec_capacity<T>(vec: &Vec<T>) -> (c: usize)
    ensures
        c >= vec@.len(),
{
    vec.capacity()
}

impl<T> UnsafeCellSlice<Option<T>> {
    /// Build a view sized to the spare capacity of `vec`: the tail of its
    /// allocation that is reserved but not yet logically populated.
    ///
    /// The buffer itself is left untouched. Every slot of the view starts
    /// out unfilled (`None`), standing for one reserved element that holds
    /// no value yet; filling the slots and then appending them onto the
    /// buffer with [`UnsafeCellSlice::commit`] rests with the caller.
    #[must_use]
    pub fn new_from_vec_with_spare_capacity(vec: &mut Vec<T>) -> (r: Self)
        ensures
            final(vec)@ == old(vec)@,
            forall|i: int| 0 <= i < r@.len() ==> r@[i] is None,
            old(vec)@.len() + r@.len() <= usize::MAX,
    {
        let c = vec_capacity(vec);
        let n = c - vec.len();
        let mut slots: Vec<Option<T>> = Vec::new();
        let mut i: usize = 0;
        while i < n
            invariant
                i <= n,
                slots@.len() == i as int,
                forall|j: int| 0 <= j < i ==> slots@[j] is None,
            decreases n - i,
        {
            slots.push(None);
            i += 1;
        }
        UnsafeCellSlice { region: slots }
    }

    /// Append the filled slots of this view onto `out`, in order, ending
    /// the view.
    ///
    /// The caller owes a fully filled view: every slot holds a value. The
    /// buffer's logical length grows by exactly the view's length, and the
    /// values land after the buffer's existing elements, in slot order.
    pub fn commit(self, out: &mut Vec<T>)
        requires
            forall|i: int| 0 <= i < self@.len() ==> self@[i] is Some,
        ensures
            final(out)@ == old(out)@ + filled_values(self@),
    {
        let mut cells = self.region;
        let n = cells.len();
        let mut i: usize = 0;
        while i < n
            invariant
                n == self@.len(),
                cells@.len() == n,
                i <= n,
                forall|j: int| i <= j < n ==> cells@[j] == self@[j],
                forall|j: int| 0 <= j < n ==> self@[j] is Some,
                out@ == old(out)@ + filled_values(self@.subrange(0, i as int)),
            decreases n - i,
        {
            let mut slot: Option<T> = None;
            core::mem::swap(&mut slot, &mut cells[i]);
            match slot {
                Option::Some(v) => {
                    out.push(v);
                },
                Option::None => {
                    proof {
                        assert(false);
                    }
                },
            }
            proof {
                assert(filled_values(self@.subrange(0, i + 1)) =~= filled_values(
                    self@.subrange(0, i as int),
                ).push(self@[i as int].unwrap()));
            }
            i += 1;
        }
        proof {
            assert(self@.subrange(0, n as int) =~= self@);
        }
    }
}

/// Law: a view built over a region reports the region's element count,
/// and is empty exactly when the region holds no elements.
pub proof fn lemma_constructed_view_length<T>(view: UnsafeCellSlice<T>, region: Seq<T>)
    requires
        view@ == region,
    ensures
        view@.len() == region.len(),
        (view@.len() == 0) <==> region.len() == 0,
{
}

/// Law: for an in-bounds position `p`, the reference handed out by either
/// single-position accessor stands for position `p` of the region and for
/// no other: it reads the value stored at `p`, and a write through it
/// updates `p` alone.
pub proof fn lemma_single_position_access<T>(region: Seq<T>, p: int, w: T)
    requires
        0 <= p < region.len(),
    ensures
        region.update(p, w)[p] == w,
        region.update(p, w).len() == region.len(),
        forall|k: int| 0 <= k < region.len() && k != p ==> region.update(p, w)[k] == region[k],
{
}

/// Law: a subrange reference for the in-bounds interval `[lo, hi)` has
/// length `hi - lo`, and putting it back — however its elements were
/// rewritten into `sub` — keeps the region's length, leaves every
/// position outside `[lo, hi)` unchanged, and makes position `lo + k`
/// hold element `k` of the subrange.
pub proof fn lemma_subrange_aliases_resolved_positions<T>(
    region: Seq<T>,
    lo: int,
    hi: int,
    sub: Seq<T>,
)
    requires
        0 <= lo <= hi <= region.len(),
        sub.len() == hi - lo,
    ensures
        region.subrange(lo, hi).len() == hi - lo,
        ({
            let put_back = region.subrange(0, lo) + sub + region.subrange(
                hi,
                region.len() as int,
            );
            put_back.len() == region.len()
                && (forall|k: int|
                    0 <= k < region.len() && !(lo <= k < hi) ==> put_back[k] == region[k])
                && (forall|k: int| lo <= k < hi ==> put_back[k] == sub[k - lo])
        }),
{
}

/// Law: writes through references obtained for two distinct positions are
/// observable independently. Writing `a` at `i` does not alter the value
/// stored at `j`, writing `b` at `j` does not alter the value stored at
/// `i`, and the two writes land in either order with the same outcome.
pub proof fn lemma_disjoint_writes_independent<T>(region: Seq<T>, i: int, j: int, a: T, b: T)
    requires
        0 <= i < region.len(),
        0 <= j < region.len(),
        i != j,
    ensures
        region.update(i, a).update(j, b)[i] == a,
        region.update(i, a).update(j, b)[j] == b,
        region.update(i, a).update(j, b) == region.update(j, b).update(i, a),
{
    assert(region.update(i, a).update(j, b) =~= region.update(j, b).update(i, a));
}

} // verus!
