use crate::error::Error;
use vstd::prelude::*;
use vstd::slice::slice_subrange;

verus! {

/// The decision that one draw of a boolean yields from `unread`: the lowest
/// bit of the first byte, or `false` when nothing is left.
pub open spec fn decision_of(unread: Seq<u8>) -> bool {
    unread.len() > 0 && unread[0] & 1 == 1
}

/// The bytes that one draw of a boolean leaves unread.
pub open spec fn after_decision(unread: Seq<u8>) -> Seq<u8> {
    if unread.len() > 0 {
        unread.drop_first()
    } else {
        unread
    }
}

/// What one draw from the unread bytes produced: the decoded value, and how
/// many bytes are left unread after it.
struct Draw<T> {
    value: Result<T, Error>,
    left: usize,
}

/// Relies on arbitrary's `Unstructured::arbitrary::<bool>`, which reads one
/// `u8` and keeps its lowest bit; with no data left it returns `false` and
/// reads nothing. It never fails. The second result is how many bytes
/// remain unread.
#[verifier::external_body]
fn draw_bool(unread: &[u8]) -> (r: Draw<bool>)
    ensures
        r.value is Ok,
        r.value->Ok_0 == decision_of(unread@),
        r.left == after_decision(unread@).len(),
{
    let mut u = arbitrary::Unstructured::new(unread);
    let res = match u.arbitrary::<bool>() {
        Ok(b) => Ok(b),
        Err(arbitrary::Error::EmptyChoose) => Err(Error::EmptyChoice),
        Err(arbitrary::Error::NotEnoughData) => Err(Error::InsufficientData),
        Err(_) => Err(Error::MalformedInput),
    };
    Draw { value: res, left: u.len() }
}

/// The number of base-256 digits of `d`, without leading zeros.
pub open spec fn byte_width(d: nat) -> nat
    decreases d,
{
    if d == 0 {
        0
    } else {
        1 + byte_width(d / 256)
    }
}

/// `s` read as a big-endian integer.
pub open spec fn be_value(s: Seq<u8>) -> nat
    decreases s.len(),
{
    if s.len() == 0 {
        0
    } else {
        be_value(s.drop_last()) * 256 + s.last() as nat
    }
}

/// How many bytes one draw of an index below `len` reads from `unread`:
/// as many as `len - 1` has base-256 digits, or all that are left.
pub open spec fn index_draw_len(unread: Seq<u8>, len: nat) -> nat {
    let w = byte_width((len - 1) as nat);
    if unread.len() < w {
        unread.len()
    } else {
        w
    }
}

/// The index below `len` that one draw yields from `unread`.
pub open spec fn index_of(unread: Seq<u8>, len: nat) -> nat
    recommends
        len > 0,
{
    be_value(unread.take(index_draw_len(unread, len) as int)) % len
}

/// Relies on arbitrary's `Unstructured::choose_index`, which fails with
/// `EmptyChoose` for an empty choice and otherwise draws from
/// `int_in_range(0..=len - 1)`: that reads bytes, most significant first,
/// while `len - 1` still has digits beyond those read and data is left, and
/// reduces the integer read modulo `len`. It never fails for `len > 0`.
#[verifier::external_body]
fn draw_index(unread: &[u8], len: usize) -> (r: Draw<usize>)
    ensures
        len == 0 ==> r.value is Err && r.value->Err_0 == Error::EmptyChoice,
        len == 0 ==> r.left == unread@.len(),
        len > 0 ==> r.value is Ok && r.value->Ok_0 == index_of(unread@, len as nat),
        len > 0 ==> r.left == unread@.len() - index_draw_len(unread@, len as nat),
{
    let mut u = arbitrary::Unstructured::new(unread);
    let res = match u.choose_index(len) {
        Ok(i) => Ok(i),
        Err(arbitrary::Error::EmptyChoose) => Err(Error::EmptyChoice),
        Err(arbitrary::Error::NotEnoughData) => Err(Error::InsufficientData),
        Err(_) => Err(Error::MalformedInput),
    };
    Draw { value: res, left: u.len() }
}

/// Relies on the slice method `swap`: it exchanges the two elements, and
/// panics when either index is out of bounds.
pub assume_specification<A>[ <[A]>::swap ](s: &mut [A], a: usize, b: usize)
    requires
        a < old(s)@.len(),
        b < old(s)@.len(),
    ensures
        final(s)@ == old(s)@.update(a as int, old(s)@[b as int]).update(b as int, old(s)@[a as int]),
;

/// `s` with the elements at `i` and `j` exchanged.
pub open spec fn swapped<T>(s: Seq<T>, i: int, j: int) -> Seq<T> {
    s.update(i, s[j]).update(j, s[i])
}

/// Fisher-Yates from position `i` on: each step draws an index below the
/// length of the part not yet fixed and moves the element found there to the
/// front of that part. It stops when at most one element is left to place or
/// no byte is left to draw from. The result is the permuted sequence and the
/// bytes left unread.
pub open spec fn shuffle_from<T>(s: Seq<T>, i: nat, unread: Seq<u8>) -> (Seq<T>, Seq<u8>)
    decreases s.len() - i,
{
    if i + 1 >= s.len() || unread.len() == 0 {
        (s, unread)
    } else {
        let n = (s.len() - i) as nat;
        let k = index_of(unread, n);
        shuffle_from(
            swapped(s, i as int, (i + k) as int),
            i + 1,
            unread.skip(index_draw_len(unread, n) as int),
        )
    }
}

/// The control plane of chaos mode: the bytes a fuzzer supplied, of which
/// those before `pos` have been consumed.
#[derive(Debug)]
pub struct ControlPlane {
    data: Vec<u8>,
    pos: usize,
    placeholder: bool,
}

impl View for ControlPlane {
    type V = Seq<u8>;

    /// The bytes not consumed yet.
    closed spec fn view(&self) -> Seq<u8> {
        self.data@.subrange(self.pos as int, self.data@.len() as int)
    }
}

impl ControlPlane {
    #[verifier::type_invariant]
    spec fn inv(&self) -> bool {
        &&& self.pos <= self.data@.len()
        &&& self.placeholder ==> self.pos == self.data@.len()
    }

    /// Whether this control plane is a placeholder made by `todo`.
    pub closed spec fn is_todo(&self) -> bool {
        self.placeholder
    }

    /// A control plane that draws from `data`.
    pub fn new(data: Vec<u8>) -> (r: Self)
        ensures
            r@ == data@,
            !r.is_todo(),
    {
        let r = ControlPlane { data, pos: 0, placeholder: false };
        assert(r@ =~= r.data@);
        r
    }

    /// A placeholder for a code path that is not instrumented yet: it has
    /// no bytes, and every explicit query on it fails.
    pub fn todo() -> (r: Self)
        ensures
            r@ == Seq::<u8>::empty(),
            r.is_todo(),
    {
        let r = ControlPlane { data: Vec::new(), pos: 0, placeholder: true };
        assert(r@ =~= Seq::<u8>::empty());
        r
    }

    /// Whether all bytes have been consumed.
    pub fn is_empty(&self) -> (r: bool)
        ensures
            r == (self@.len() == 0),
    {
        proof { use_type_invariant(self); }
        self.pos == self.data.len()
    }

    fn unread(&self) -> (r: &[u8])
        ensures
            r@ == self@,
    {
        proof { use_type_invariant(self); }
        slice_subrange(self.data.as_slice(), self.pos, self.data.len())
    }

    /// Returns a pseudo-random boolean: the lowest bit of the next byte,
    /// which it consumes. Returns `false` once the bytes are exhausted, and
    /// always on a control plane made by `default` or `todo`.
    pub fn get_decision(&mut self) -> (r: bool)
        ensures
            r == decision_of(old(self)@),
            final(self)@ == after_decision(old(self)@),
            final(self).is_todo() == old(self).is_todo(),
            old(self).is_todo() ==> final(self)@ == old(self)@ && !r,
    {
        proof { use_type_invariant(&*self); }
        let d = draw_bool(self.unread());
        self.pos = self.data.len() - d.left;
        assert(self@ =~= after_decision(old(self)@));
        match d.value {
            Ok(b) => b,
            Err(_) => false,
        }
    }

    /// Like `get_decision`, but says so when no decision can be made: on a
    /// placeholder, and once the bytes are exhausted.
    pub fn get_arbitrary_bool(&mut self) -> (r: Result<bool, Error>)
        ensures
            final(self).is_todo() == old(self).is_todo(),
            old(self).is_todo() ==> r == Err::<bool, Error>(Error::PlaceholderAccessed),
            old(self).is_todo() ==> final(self)@ == old(self)@,
            !old(self).is_todo() && old(self)@.len() == 0 ==> r == Err::<bool, Error>(Error::InsufficientData),
            !old(self).is_todo() && old(self)@.len() == 0 ==> final(self)@ == old(self)@,
            !old(self).is_todo() && old(self)@.len() > 0 ==> r == Ok::<bool, Error>(decision_of(old(self)@)),
            !old(self).is_todo() && old(self)@.len() > 0 ==> final(self)@ == old(self)@.drop_first(),
    {
        proof { use_type_invariant(&*self); }
        if self.placeholder {
            return Err(Error::PlaceholderAccessed);
        }
        if self.pos == self.data.len() {
            return Err(Error::InsufficientData);
        }
        let d = draw_bool(self.unread());
        self.pos = self.data.len() - d.left;
        assert(self@ =~= old(self)@.drop_first());
        d.value
    }

    /// Shuffles `slice` into a pseudo-random permutation by Fisher-Yates,
    /// one index drawn per step. When the bytes run out the rest of the
    /// slice keeps its order; slices of length 0 or 1 consume nothing.
    pub fn shuffle<T>(&mut self, slice: &mut [T])
        ensures
            (final(slice)@, final(self)@) == shuffle_from(old(slice)@, 0, old(self)@),
            final(self).is_todo() == old(self).is_todo(),
    {
        proof { use_type_invariant(&*self); }
        let n = slice.len();
        let mut i: usize = 0;
        while n - i > 1 && self.pos < self.data.len()
            invariant
                slice@.len() == n,
                i <= n,
                self.data == old(self).data,
                self.placeholder == old(self).placeholder,
                self.pos <= self.data@.len(),
                self.placeholder ==> self.pos == self.data@.len(),
                shuffle_from(slice@, i as nat, self@) == shuffle_from(old(slice)@, 0, old(self)@),
            decreases n - i,
        {
            let d = draw_index(self.unread(), n - i);
            // The choice is never empty here, so the draw always succeeds.
            let k = match d.value {
                Ok(k) => k,
                Err(_) => 0,
            };
            let ghost dl = index_draw_len(self@, (n - i) as nat);
            let ghost before = self@;
            slice.swap(i, i + k);
            self.pos = self.data.len() - d.left;
            assert(self@ =~= before.skip(dl as int));
            i = i + 1;
        }
    }
}

impl Default for ControlPlane {
    /// A control plane with no bytes, which always answers with defaults.
    fn default() -> (r: Self)
        ensures
            r@ == Seq::<u8>::empty(),
            !r.is_todo(),
    {
        ControlPlane::new(Vec::new())
    }
}

} // verus!
