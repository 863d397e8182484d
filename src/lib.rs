//! A growable, contiguous buffer of elements of one type.
//!
//! The buffer starts empty, with no storage. The first append sets aside room
//! for four elements; an append on a full buffer doubles the room. Elements are
//! read back by position, and a position past the end reads as absent.
use vstd::arithmetic::power2::pow2;
use vstd::layout::size_of;
use vstd::prelude::*;

verus! {

/// Room set aside by the first append.
pub const INITIAL_CAPACITY: usize = 4;

/// A growable buffer of `T`, in insertion order.
///
/// `capacity` is the number of element slots that the buffer has set aside;
/// the first `len()` of them hold the elements.
pub struct NyleVec<T> {
    items: Vec<T>,
    capacity: usize,
}

impl<T> View for NyleVec<T> {
    type V = Seq<T>;

    /// The elements, in the order they were appended.
    closed spec fn view(&self) -> Seq<T> {
        self.items@
    }
}

impl<T> NyleVec<T> {
    /// The number of slots set aside.
    pub closed spec fn spec_capacity(&self) -> nat {
        self.capacity as nat
    }

    /// The slot count always equals the one that the growth policy gives for
    /// the current number of elements.
    pub closed spec fn well_formed(&self) -> bool {
        self.capacity as nat == capacity_for_len(self.items@.len())
    }

    /// An empty buffer, with no storage set aside.
    pub fn new() -> (r: Self)
        ensures
            r.well_formed(),
            r@ == Seq::<T>::empty(),
            r.spec_capacity() == 0,
    {
        NyleVec { items: Vec::new(), capacity: 0 }
    }

    /// The number of slots set aside.
    pub fn capacity(&self) -> (r: usize)
        ensures
            r as nat == self.spec_capacity(),
            self.well_formed() ==> r as nat == capacity_for_len(self@.len()),
    {
        self.capacity
    }

    /// The number of elements.
    pub fn len(&self) -> (r: usize)
        ensures
            r as nat == self@.len(),
    {
        self.items.len()
    }

    /// Appends `value` as the new last element.
    ///
    /// An empty buffer first sets aside four slots; a full one doubles its
    /// slots, keeping every element at its position. `T` must not be zero
    /// sized, and the slots after the append must fit in the address space.
    pub fn push(&mut self, value: T)
        requires
            old(self).well_formed(),
            size_of::<T>() > 0,
            capacity_for_len(old(self)@.len() + 1) * size_of::<T>() <= isize::MAX,
        ensures
            final(self).well_formed(),
            final(self)@ == old(self)@.push(value),
            final(self).spec_capacity() == grown_capacity(
                old(self).spec_capacity(),
                old(self)@.len(),
            ),
            forall|i: int|
                0 <= i < old(self)@.len() ==> #[trigger] final(self)@[i] == old(self)@[i],
    {
        proof {
            lemma_capacity_step(self.items@.len());
        }
        if self.capacity == 0 {
            self.items = Vec::with_capacity(INITIAL_CAPACITY);
            self.items.push(value);
            self.capacity = INITIAL_CAPACITY;
        } else if self.items.len() < self.capacity {
            self.items.push(value);
        } else {
            proof {
                let c = self.capacity as nat;
                let z = size_of::<T>();
                assert(2 * c <= 2 * c * z) by (nonlinear_arith)
                    requires z > 0;
            }
            self.items.reserve(self.capacity);
            self.items.push(value);
            self.capacity = self.capacity * 2;
        }
    }

    /// The element at `index`, or `None` where `index` is past the end.
    pub fn get(&self, index: usize) -> (r: Option<&T>)
        ensures
            index >= self@.len() ==> r.is_none(),
            index < self@.len() ==> r.is_some() && *r.unwrap() == self@[index as int],
    {
        if index >= self.items.len() {
            None
        } else {
            Some(&self.items[index])
        }
    }
}

/// The slot count that the growth policy reaches after `n` appends from an
/// empty buffer: none for no element, else the least `4 * 2^k` that holds `n`.
pub open spec fn capacity_for_len(n: nat) -> nat
    decreases n,
{
    if n == 0 {
        0
    } else if n <= INITIAL_CAPACITY {
        INITIAL_CAPACITY as nat
    } else {
        2 * capacity_for_len(((n + 1) / 2) as nat)
    }
}

/// The slot count after one append to a buffer of `len` elements and
/// `capacity` slots: four for a buffer without storage, twice as many for a
/// full one, else unchanged.
pub open spec fn grown_capacity(capacity: nat, len: nat) -> nat {
    if capacity == 0 {
        INITIAL_CAPACITY as nat
    } else if len < capacity {
        capacity
    } else {
        2 * capacity
    }
}

/// The policy's slot count holds the elements, and one append moves it by one
/// step of the growth rule.
pub proof fn lemma_capacity_step(n: nat)
    ensures
        n <= capacity_for_len(n),
        capacity_for_len(n + 1) == grown_capacity(capacity_for_len(n), n),
    decreases n,
{
    if n > INITIAL_CAPACITY {
        let m = ((n + 1) / 2) as nat;
        lemma_capacity_step(m);
        assert(capacity_for_len(n) == 2 * capacity_for_len(m));
        assert(capacity_for_len(n + 1) == 2 * capacity_for_len(((n + 2) / 2) as nat));
        if n % 2 == 0 {
            assert(((n + 2) / 2) as nat == m + 1);
            lemma_capacity_step(m + 1);
        } else {
            assert(((n + 2) / 2) as nat == m);
        }
    } else if n == INITIAL_CAPACITY {
        assert(capacity_for_len(n + 1) == 2 * capacity_for_len(3));
    }
}

/// How many of the first `n` appends to an empty buffer found it full (or
/// without storage) and so grew it.
pub open spec fn growth_count(n: nat) -> nat
    decreases n,
{
    if n == 0 {
        0
    } else {
        let before = (n - 1) as nat;
        growth_count(before) + if before == capacity_for_len(before) {
            1nat
        } else {
            0nat
        }
    }
}

/// The slot count after `k` growths: none before the first, then `4 * 2^(k-1)`.
pub open spec fn capacity_after_growths(k: nat) -> nat {
    if k == 0 {
        0
    } else {
        INITIAL_CAPACITY as nat * pow2((k - 1) as nat)
    }
}

/// Growth law: starting from an empty buffer, after the k-th growth the slot
/// count is `4 * 2^(k-1)`; an append never lowers it, and either keeps it,
/// sets it to four where there was none, or doubles it.
pub proof fn lemma_growth_law(n: nat)
    ensures
        capacity_for_len(n) == capacity_after_growths(growth_count(n)),
        capacity_for_len(n) <= capacity_for_len(n + 1),
        capacity_for_len(n + 1) == capacity_for_len(n)
            || (capacity_for_len(n) == 0 && capacity_for_len(n + 1) == INITIAL_CAPACITY)
            || capacity_for_len(n + 1) == 2 * capacity_for_len(n),
    decreases n,
{
    lemma_capacity_step(n);
    if n > 0 {
        let before = (n - 1) as nat;
        lemma_growth_law(before);
        lemma_capacity_step(before);
        let k = growth_count(before);
        if before == capacity_for_len(before) {
            if k > 0 {
                vstd::arithmetic::power2::lemma_pow2_unfold(k);
            } else {
                vstd::arithmetic::power2::lemma2_to64();
            }
        }
    }
}

/// The elements of a buffer that starts empty and then takes each of `vs` by
/// one append, in order.
pub open spec fn appended_from_empty<T>(vs: Seq<T>) -> Seq<T>
    decreases vs.len(),
{
    if vs.len() == 0 {
        Seq::empty()
    } else {
        appended_from_empty(vs.drop_last()).push(vs.last())
    }
}

/// Appending `v0, ..., vn-1` to an empty buffer gives `n` elements, and the
/// one at each position `i` is `vi`.
pub proof fn lemma_append_then_read<T>(vs: Seq<T>)
    ensures
        appended_from_empty(vs).len() == vs.len(),
        forall|i: int| 0 <= i < vs.len() ==> #[trigger] appended_from_empty(vs)[i] == vs[i],
    decreases vs.len(),
{
    if vs.len() > 0 {
        lemma_append_then_read(vs.drop_last());
    }
}

} // verus!
