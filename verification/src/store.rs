//! The variable store: bindable cells that hold a value, a flag that gates
//! writes, and a stack of stashed states; and the arrays that the array
//! cells hold, with their addressing and their byte-wise input and output.

use vstd::prelude::*;
use crate::err::{plain, ErrCode, Error, Res};

verus! {

/// Values that a 16-bit quantity widens to.
pub trait FromU16: Copy {
    spec fn from_u16_spec(x: u16) -> Self;

    fn from_u16(x: u16) -> (r: Self)
        ensures
            r == Self::from_u16_spec(x),
    ;
}

/// Values that narrow to 16 bits, losing what does not fit.
pub trait ToU16: Copy {
    spec fn to_u16_spec(self) -> u16;

    fn to_u16(self) -> (r: u16)
        ensures
            r == self.to_u16_spec(),
    ;
}

impl FromU16 for u16 {
    open spec fn from_u16_spec(x: u16) -> u16 {
        x
    }

    fn from_u16(x: u16) -> u16 {
        x
    }
}

impl FromU16 for u32 {
    open spec fn from_u16_spec(x: u16) -> u32 {
        x as u32
    }

    fn from_u16(x: u16) -> u32 {
        x as u32
    }
}

impl ToU16 for u16 {
    open spec fn to_u16_spec(self) -> u16 {
        self
    }

    fn to_u16(self) -> u16 {
        self
    }
}

impl ToU16 for u32 {
    open spec fn to_u16_spec(self) -> u16 {
        self as u16
    }

    fn to_u16(self) -> u16 {
        #[verifier::truncate]
        (self as u16)
    }
}

/// Values of which a cell can keep a copy aside.
pub trait Snapshot: View + Sized {
    fn snapshot(&self) -> (r: Self)
        ensures
            r@ == self@,
    ;
}

impl Snapshot for u16 {
    fn snapshot(&self) -> u16 {
        *self
    }
}

impl Snapshot for u32 {
    fn snapshot(&self) -> u32 {
        *self
    }
}

/// An array: its shape and its elements in row-major order. An array that
/// was never dimensioned has neither.
pub struct Array<T> {
    pub dims: Vec<usize>,
    pub elems: Vec<T>,
}

/// The mathematical content of an [`Array`].
pub ghost struct ArrayV<T> {
    pub dims: Seq<usize>,
    pub elems: Seq<T>,
}

impl<T> View for Array<T> {
    type V = ArrayV<T>;

    open spec fn view(&self) -> ArrayV<T> {
        ArrayV { dims: self.dims@, elems: self.elems@ }
    }
}

/// The number of elements of an array of the given shape.
pub open spec fn product(dims: Seq<usize>) -> nat
    decreases dims.len(),
{
    if dims.len() == 0 {
        1
    } else {
        product(dims.drop_last()) * (dims.last() as nat)
    }
}

/// Whether every subscript lies within its dimension, counting from 1.
pub open spec fn in_range(dims: Seq<usize>, subs: Seq<usize>) -> bool {
    &&& dims.len() > 0
    &&& subs.len() == dims.len()
    &&& forall|k: int| 0 <= k < dims.len() ==> 1 <= #[trigger] subs[k] <= dims[k]
}

/// The place of an element in row-major order: the last subscript runs
/// fastest.
pub open spec fn flat_index(dims: Seq<usize>, subs: Seq<usize>) -> nat
    decreases dims.len(),
{
    if dims.len() == 0 || subs.len() != dims.len() {
        0
    } else {
        (flat_index(dims.drop_last(), subs.drop_last()) * (dims.last() as nat) + (subs.last()
            - 1)) as nat
    }
}

/// A place within range lies within the elements.
pub proof fn lemma_flat_index_bound(dims: Seq<usize>, subs: Seq<usize>)
    requires
        subs.len() == dims.len(),
        forall|k: int| 0 <= k < dims.len() ==> 1 <= #[trigger] subs[k] <= dims[k],
    ensures
        flat_index(dims, subs) < product(dims),
    decreases dims.len(),
{
    if dims.len() > 0 {
        let d = dims.drop_last();
        let s = subs.drop_last();
        lemma_flat_index_bound(d, s);
        let f = flat_index(d, s);
        let p = product(d);
        let l = dims.last() as nat;
        assert(1 <= subs[dims.len() - 1] <= dims[dims.len() - 1]);
        assert(f * l + l <= p * l) by (nonlinear_arith)
            requires
                f + 1 <= p,
        ;
    }
}

impl<T> ArrayV<T> {
    /// The shape is all positive and accounts for every element; without a
    /// shape there are no elements.
    pub open spec fn wf(self) -> bool {
        &&& forall|k: int| 0 <= k < self.dims.len() ==> #[trigger] self.dims[k] > 0
        &&& self.dims.len() == 0 ==> self.elems.len() == 0
        &&& self.dims.len() > 0 ==> self.elems.len() == product(self.dims)
    }

    /// The element at the subscripts, where they are in range.
    pub open spec fn get(self, subs: Seq<usize>) -> Option<T> {
        if in_range(self.dims, subs) {
            Some(self.elems[flat_index(self.dims, subs) as int])
        } else {
            None
        }
    }

    /// The array with the element at the subscripts replaced.
    pub open spec fn put(self, subs: Seq<usize>, x: T) -> ArrayV<T> {
        ArrayV { dims: self.dims, elems: self.elems.update(flat_index(self.dims, subs) as int, x) }
    }
}

impl<T: Copy> Array<T> {
    /// The array that was never dimensioned.
    pub fn empty() -> (a: Array<T>)
        ensures
            a@.dims.len() == 0,
            a@.elems.len() == 0,
            a@.wf(),
    {
        Array { dims: Vec::new(), elems: Vec::new() }
    }

    /// The place of the element at the subscripts, if they are in range.
    pub fn locate(&self, subs: &Vec<usize>) -> (r: Option<usize>)
        requires
            self@.wf(),
        ensures
            match r {
                Some(i) => in_range(self@.dims, subs@) && i == flat_index(self@.dims, subs@) && i
                    < self@.elems.len(),
                None => !in_range(self@.dims, subs@),
            },
    {
        let n = self.dims.len();
        if n == 0 || subs.len() != n {
            return None;
        }
        let mut k: usize = 0;
        let mut idx: usize = 0;
        proof {
            lemma_product_take(self.dims@, 0);
        }
        while k < n
            invariant
                0 <= k <= n,
                n == self.dims.len(),
                subs.len() == n,
                self@.wf(),
                forall|j: int| 0 <= j < k ==> 1 <= #[trigger] subs@[j] <= self.dims@[j],
                idx == flat_index(self.dims@.take(k as int), subs@.take(k as int)),
                k > 0 ==> idx < product(self.dims@.take(k as int)),
                k == 0 ==> idx == 0,
                product(self.dims@.take(k as int)) <= product(self.dims@),
                product(self.dims@) == self.elems.len(),
            decreases n - k,
        {
            let s = subs[k];
            let d = self.dims[k];
            if s < 1 || s > d {
                return None;
            }
            proof {
                let dk = self.dims@.take(k as int);
                let dk1 = self.dims@.take(k + 1);
                let sk1 = subs@.take(k + 1);
                assert(dk1.drop_last() =~= dk);
                assert(sk1.drop_last() =~= subs@.take(k as int));
                assert(dk1.last() == d);
                assert(sk1.last() == s);
                lemma_product_take(self.dims@, k + 1);
                assert forall|j: int| 0 <= j < dk1.len() implies 1 <= #[trigger] sk1[j]
                    <= dk1[j] by {
                    assert(sk1[j] == subs@[j]);
                }
                lemma_flat_index_bound(dk1, sk1);
            }
            idx = idx * d + (s - 1);
            k += 1;
        }
        proof {
            assert(self.dims@.take(n as int) =~= self.dims@);
            assert(subs@.take(n as int) =~= subs@);
        }
        Some(idx)
    }

    /// A copy of the array.
    pub fn dup(&self) -> (r: Array<T>)
        ensures
            r@ == self@,
    {
        let mut dims: Vec<usize> = Vec::new();
        let mut i: usize = 0;
        while i < self.dims.len()
            invariant
                i <= self.dims.len(),
                dims@ == self.dims@.take(i as int),
            decreases self.dims.len() - i,
        {
            dims.push(self.dims[i]);
            assert(self.dims@.take(i + 1) =~= self.dims@.take(i as int).push(self.dims@[i as int]));
            i += 1;
        }
        assert(self.dims@.take(self.dims.len() as int) =~= self.dims@);
        let mut elems: Vec<T> = Vec::new();
        let mut j: usize = 0;
        while j < self.elems.len()
            invariant
                j <= self.elems.len(),
                elems@ == self.elems@.take(j as int),
            decreases self.elems.len() - j,
        {
            elems.push(self.elems[j]);
            assert(self.elems@.take(j + 1) =~= self.elems@.take(j as int).push(
                self.elems@[j as int],
            ));
            j += 1;
        }
        assert(self.elems@.take(self.elems.len() as int) =~= self.elems@);
        Array { dims, elems }
    }
}

/// The product of a shape is at least that of each of its prefixes, where
/// no dimension is zero.
pub proof fn lemma_product_take(dims: Seq<usize>, k: int)
    requires
        0 <= k <= dims.len(),
        forall|j: int| 0 <= j < dims.len() ==> #[trigger] dims[j] > 0,
    ensures
        product(dims.take(k)) <= product(dims),
        product(dims) >= 1,
    decreases dims.len() - k,
{
    lemma_product_positive(dims);
    if k == dims.len() {
        assert(dims.take(k) =~= dims);
    } else {
        lemma_product_take(dims, k + 1);
        let a = dims.take(k + 1);
        assert(a.drop_last() =~= dims.take(k));
        let p = product(dims.take(k));
        let l = a.last() as nat;
        lemma_product_positive(dims.take(k));
        assert(p <= p * l) by (nonlinear_arith)
            requires
                l >= 1,
        ;
    }
}

/// A shape without a zero has a positive product.
pub proof fn lemma_product_positive(dims: Seq<usize>)
    requires
        forall|j: int| 0 <= j < dims.len() ==> #[trigger] dims[j] > 0,
    ensures
        product(dims) >= 1,
    decreases dims.len(),
{
    if dims.len() > 0 {
        lemma_product_positive(dims.drop_last());
        let p = product(dims.drop_last());
        let l = dims.last() as nat;
        assert(p * l >= 1) by (nonlinear_arith)
            requires
                p >= 1,
                l >= 1,
        ;
    }
}

impl<T: Copy> Snapshot for Array<T> {
    fn snapshot(&self) -> Array<T> {
        self.dup()
    }
}

/// A bindable cell: the current value, the flag that admits writes, and
/// the stashed states, the latest last.
pub struct Bind<T> {
    pub val: T,
    pub rw: bool,
    pub stack: Vec<(T, bool)>,
}

/// The mathematical content of a [`Bind`].
pub ghost struct BindV<V> {
    pub val: V,
    pub rw: bool,
    pub stack: Seq<(V, bool)>,
}

impl<T: View> View for Bind<T> {
    type V = BindV<T::V>;

    open spec fn view(&self) -> BindV<T::V> {
        BindV {
            val: self.val@,
            rw: self.rw,
            stack: Seq::new(
                self.stack.len() as nat,
                |i: int| (self.stack[i].0@, self.stack[i].1),
            ),
        }
    }
}

impl<V> BindV<V> {
    /// The cell after an assignment: unchanged where writes are gated off.
    pub open spec fn assign(self, x: V) -> BindV<V> {
        if self.rw {
            BindV { val: x, ..self }
        } else {
            self
        }
    }

    /// The cell after STASH.
    pub open spec fn stash(self) -> BindV<V> {
        BindV { stack: self.stack.push((self.val, self.rw)), ..self }
    }

    /// The cell after RETRIEVE, where something is stashed.
    pub open spec fn retrieve(self) -> BindV<V> {
        BindV { val: self.stack.last().0, rw: self.stack.last().1, stack: self.stack.drop_last() }
    }

    /// The cell with its write gate set.
    pub open spec fn set_rw(self, rw: bool) -> BindV<V> {
        BindV { rw, ..self }
    }
}

impl<T: Snapshot> Bind<T> {
    /// A fresh cell: writable, with nothing stashed.
    pub fn new(val: T) -> (b: Bind<T>)
        ensures
            b@ == (BindV { val: val@, rw: true, stack: Seq::empty() }),
    {
        let b = Bind { val, rw: true, stack: Vec::new() };
        assert(b@.stack =~= Seq::empty());
        b
    }

    /// Assigns `x`, unless the cell is ignored. Cannot fail.
    pub fn assign(&mut self, x: T)
        ensures
            final(self)@ == old(self)@.assign(x@),
    {
        if self.rw {
            self.val = x;
        }
    }

    /// Pushes the current value and write gate. The depth is not bounded.
    pub fn stash(&mut self)
        ensures
            final(self)@ == old(self)@.stash(),
    {
        let copy = self.val.snapshot();
        self.stack.push((copy, self.rw));
        assert(self@.stack =~= old(self)@.stash().stack);
    }

    /// Pops the latest stashed state into the cell.
    pub fn retrieve(&mut self) -> (r: Res<()>)
        ensures
            match r {
                Ok(_) => old(self)@.stack.len() > 0 && final(self)@ == old(self)@.retrieve(),
                Err(e) => {
                    &&& old(self)@.stack.len() == 0
                    &&& e@ == plain(ErrCode::IE436)
                    &&& final(self)@ == old(self)@
                },
            },
    {
        match self.stack.pop() {
            None => Err(Error::new(ErrCode::IE436)),
            Some((val, rw)) => {
                self.val = val;
                self.rw = rw;
                assert(self@.stack =~= old(self)@.retrieve().stack);
                Ok(())
            },
        }
    }
}

/// Whether a shape has a dimension of zero.
pub open spec fn has_zero(shape: Seq<usize>) -> bool {
    exists|k: int| 0 <= k < shape.len() && #[trigger] shape[k] == 0
}

/// The array that DIM makes of a shape without a zero: every element zero.
pub open spec fn zeroed<T: FromU16>(shape: Seq<usize>) -> ArrayV<T> {
    if shape.len() == 0 {
        ArrayV { dims: shape, elems: Seq::empty() }
    } else {
        ArrayV { dims: shape, elems: Seq::new(product(shape), |i: int| T::from_u16_spec(0)) }
    }
}

/// The low eight bits of an element.
pub open spec fn low8<T: ToU16>(x: T) -> u8 {
    (x.to_u16_spec() % 256) as u8
}

/// The byte that stands for `b` after the byte `state`: their difference
/// modulo 256. The end of input, 256, leaves `state` as it is.
pub open spec fn delta(state: u8, b: u16) -> u8 {
    ((state as int - b as int) % 256) as u8
}

/// The bytes that the READ OUT of an array emits, starting from `state`.
pub open spec fn readout_bytes<T: ToU16>(elems: Seq<T>, state: u8) -> Seq<u8> {
    Seq::new(
        elems.len(),
        |k: int|
            delta(
                if k == 0 {
                    state
                } else {
                    low8(elems[k - 1])
                },
                low8(elems[k]) as u16,
            ),
    )
}

/// The output state after the READ OUT of an array.
pub open spec fn readout_state<T: ToU16>(elems: Seq<T>, state: u8) -> u8 {
    if elems.len() == 0 {
        state
    } else {
        low8(elems.last())
    }
}

/// The input byte at `p`, or 256 where the input has ended.
pub open spec fn byte_at(input: Seq<u8>, p: int) -> u16 {
    if 0 <= p < input.len() {
        input[p] as u16
    } else {
        256
    }
}

/// The input state after the WRITE IN of `k` elements, which is also the
/// value of the last of them.
pub open spec fn writein_state(input: Seq<u8>, pos: int, state: u8, k: nat) -> u8
    decreases k,
{
    if k == 0 {
        state
    } else {
        delta(writein_state(input, pos, state, (k - 1) as nat), byte_at(input, pos + k - 1))
    }
}

/// The elements that the WRITE IN of `n` elements yields.
pub open spec fn writein_elems<T: FromU16>(input: Seq<u8>, pos: int, state: u8, n: nat) -> Seq<T> {
    Seq::new(n, |k: int| T::from_u16_spec(writein_state(input, pos, state, (k + 1) as nat) as u16))
}

/// The input position after the WRITE IN of `n` elements.
pub open spec fn writein_pos(input: Seq<u8>, pos: int, n: nat) -> int {
    if pos + n <= input.len() {
        pos + n
    } else {
        input.len() as int
    }
}

fn zero_filled<T: Copy + FromU16>(total: usize) -> (v: Vec<T>)
    ensures
        v@ == Seq::new(total as nat, |i: int| T::from_u16_spec(0)),
{
    let mut v: Vec<T> = Vec::new();
    let mut i: usize = 0;
    while i < total
        invariant
            i <= total,
            v@ == Seq::new(i as nat, |j: int| T::from_u16_spec(0)),
        decreases total - i,
    {
        v.push(T::from_u16(0));
        i += 1;
        assert(v@ =~= Seq::new(i as nat, |j: int| T::from_u16_spec(0)));
    }
    v
}

fn shape_total(shape: &Vec<usize>) -> (r: Option<usize>)
    requires
        !has_zero(shape@),
    ensures
        match r {
            Some(t) => t == product(shape@),
            None => product(shape@) > usize::MAX,
        },
{
    let mut total: usize = 1;
    let mut k: usize = 0;
    assert(shape@.take(0).len() == 0);
    while k < shape.len()
        invariant
            k <= shape.len(),
            !has_zero(shape@),
            total == product(shape@.take(k as int)),
        decreases shape.len() - k,
    {
        proof {
            let a = shape@.take(k + 1);
            assert(a.drop_last() =~= shape@.take(k as int));
            assert(a.last() == shape@[k as int]);
            assert forall|j: int| 0 <= j < shape@.len() implies #[trigger] shape@[j] > 0 by {
                if shape@[j] == 0 {
                    assert(has_zero(shape@));
                }
            }
            lemma_product_take(shape@, k + 1);
        }
        match total.checked_mul(shape[k]) {
            Some(t) => {
                total = t;
            },
            None => {
                return None;
            },
        }
        k += 1;
    }
    assert(shape@.take(shape.len() as int) =~= shape@);
    Some(total)
}

fn find_zero(shape: &Vec<usize>) -> (r: bool)
    ensures
        r == has_zero(shape@),
{
    let mut k: usize = 0;
    while k < shape.len()
        invariant
            k <= shape.len(),
            forall|j: int| 0 <= j < k ==> #[trigger] shape@[j] != 0,
        decreases shape.len() - k,
    {
        if shape[k] == 0 {
            return true;
        }
        k += 1;
    }
    false
}

impl<T: Copy + FromU16 + ToU16> Bind<Array<T>> {
    /// DIM: gives the array a shape and clears it. A shape with a zero is
    /// rejected, and so is one whose elements this machine cannot count.
    pub fn dimension(&mut self, shape: Vec<usize>) -> (r: Res<()>)
        ensures
            match r {
                Ok(_) => {
                    &&& !has_zero(shape@)
                    &&& product(shape@) <= usize::MAX
                    &&& final(self)@ == (BindV { val: zeroed::<T>(shape@), ..old(self)@ })
                    &&& final(self)@.val.wf()
                },
                Err(e) => {
                    &&& final(self)@ == old(self)@
                    &&& if has_zero(shape@) {
                        e@ == plain(ErrCode::IE240)
                    } else {
                        product(shape@) > usize::MAX && e@ == plain(ErrCode::IE666)
                    }
                },
            },
    {
        if find_zero(&shape) {
            return Err(Error::new(ErrCode::IE240));
        }
        let total = match shape_total(&shape) {
            Some(t) => t,
            None => {
                return Err(Error::new(ErrCode::IE666));
            },
        };
        let elems = if shape.len() == 0 {
            Vec::new()
        } else {
            zero_filled::<T>(total)
        };
        proof {
            assert forall|j: int| 0 <= j < shape@.len() implies #[trigger] shape@[j] > 0 by {
                if shape@[j] == 0 {
                    assert(has_zero(shape@));
                }
            }
            assert(elems@ =~= zeroed::<T>(shape@).elems);
        }
        self.val = Array { dims: shape, elems };
        assert(self@.stack =~= old(self)@.stack);
        Ok(())
    }

    /// The element at the subscripts, which count from 1.
    pub fn arr_lookup(&self, subs: &Vec<usize>) -> (r: Res<T>)
        requires
            self@.val.wf(),
        ensures
            match r {
                Ok(x) => self@.val.get(subs@) == Some(x),
                Err(e) => self@.val.get(subs@) is None && e@ == plain(ErrCode::IE241),
            },
    {
        match self.val.locate(subs) {
            Some(i) => Ok(self.val.elems[i]),
            None => Err(Error::new(ErrCode::IE241)),
        }
    }

    /// Assigns to the element at the subscripts, unless the array is
    /// ignored. Subscripts out of range are an error either way.
    pub fn arr_assign(&mut self, subs: &Vec<usize>, x: T) -> (r: Res<()>)
        requires
            old(self)@.val.wf(),
        ensures
            final(self)@.val.wf(),
            match r {
                Ok(_) => {
                    &&& in_range(old(self)@.val.dims, subs@)
                    &&& final(self)@ == old(self)@.assign(old(self)@.val.put(subs@, x))
                },
                Err(e) => {
                    &&& !in_range(old(self)@.val.dims, subs@)
                    &&& e@ == plain(ErrCode::IE241)
                    &&& final(self)@ == old(self)@
                },
            },
    {
        match self.val.locate(subs) {
            Some(i) => {
                if self.rw {
                    self.val.elems.set(i, x);
                }
                assert(self@.stack =~= old(self)@.stack);
                Ok(())
            },
            None => Err(Error::new(ErrCode::IE241)),
        }
    }

    /// READ OUT of the whole array: one byte for each element, each the
    /// difference between the element before it and itself.
    pub fn readout(&self, state: &mut u8, out: &mut Vec<u8>)
        ensures
            final(out)@ == old(out)@ + readout_bytes(self@.val.elems, *old(state)),
            *final(state) == readout_state(self@.val.elems, *old(state)),
    {
        let n = self.val.elems.len();
        let mut k: usize = 0;
        let ghost elems = self@.val.elems;
        let ghost s0 = *state;
        while k < n
            invariant
                k <= n,
                n == elems.len(),
                elems == self@.val.elems,
                out@ == old(out)@ + readout_bytes(elems, s0).take(k as int),
                *state == readout_state(elems.take(k as int), s0),
            decreases n - k,
        {
            let v: u8 = (self.val.elems[k].to_u16() % 256) as u8;
            let byte: u8 = ((*state as u16 + 256 - v as u16) % 256) as u8;
            proof {
                if k > 0 {
                    assert(elems.take(k as int).last() == elems[k - 1]);
                }
                assert(byte == readout_bytes(elems, s0)[k as int]);
                assert(readout_bytes(elems, s0).take(k + 1) =~= readout_bytes(elems, s0).take(
                    k as int,
                ).push(byte));
                assert(elems.take(k + 1).last() == elems[k as int]);
            }
            out.push(byte);
            *state = v;
            k += 1;
        }
        proof {
            assert(elems.take(n as int) =~= elems);
            assert(readout_bytes(elems, s0).take(n as int) =~= readout_bytes(elems, s0));
        }
    }

    /// WRITE IN of the whole array: one input byte for each element, each
    /// element the difference between the element before it and the byte.
    /// An ignored array keeps its elements; the input is consumed all the
    /// same.
    pub fn writein(&mut self, state: &mut u8, input: &Vec<u8>, pos: &mut usize)
        requires
            *old(pos) <= input.len(),
        ensures
            final(self)@ == old(self)@.assign(
                ArrayV {
                    dims: old(self)@.val.dims,
                    elems: writein_elems::<T>(
                        input@,
                        *old(pos) as int,
                        *old(state),
                        old(self)@.val.elems.len(),
                    ),
                },
            ),
            *final(state) == writein_state(
                input@,
                *old(pos) as int,
                *old(state),
                old(self)@.val.elems.len(),
            ),
            *final(pos) == writein_pos(input@, *old(pos) as int, old(self)@.val.elems.len()),
    {
        let n = self.val.elems.len();
        let ghost p0 = *pos as int;
        let ghost s0 = *state;
        let ghost before = self@;
        let mut k: usize = 0;
        while k < n
            invariant
                k <= n,
                n == before.val.elems.len(),
                self.val.elems.len() == n,
                *pos <= input.len(),
                *pos == writein_pos(input@, p0, k as nat),
                0 <= p0 <= input.len(),
                *state == writein_state(input@, p0, s0, k as nat),
                self.rw == before.rw,
                self.val.dims@ == before.val.dims,
                self@.stack == before.stack,
                self.rw ==> forall|j: int|
                    0 <= j < k ==> self.val.elems@[j] == writein_elems::<T>(
                        input@,
                        p0,
                        s0,
                        n as nat,
                    )[j],
                !self.rw ==> self.val.elems@ == before.val.elems,
            decreases n - k,
        {
            let b: u16 = if *pos < input.len() {
                let x = input[*pos] as u16;
                *pos = *pos + 1;
                x
            } else {
                256
            };
            assert(b == byte_at(input@, p0 + k));
            let c: u8 = ((*state as u16 + 256 - b) % 256) as u8;
            assert(c == writein_state(input@, p0, s0, (k + 1) as nat));
            if self.rw {
                self.val.elems.set(k, T::from_u16(c as u16));
            }
            *state = c;
            k += 1;
            assert(self@.stack =~= before.stack);
        }
        proof {
            if self.rw {
                assert(self.val.elems@ =~= writein_elems::<T>(input@, p0, s0, n as nat));
            }
        }
    }
}

} // verus!
