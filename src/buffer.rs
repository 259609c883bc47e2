//! The byte store a message lives in: read access, in-place writes, and
//! bounded growth.
use vstd::prelude::*;
use arrayvec::ArrayVec;

verus! {

/// Read access to the bytes of a message.
pub trait Buffer {
    /// The bytes held.
    spec fn contents(&self) -> Seq<u8>;

    /// The most bytes the buffer can hold.
    spec fn capacity(&self) -> nat;

    /// The capacity is a length that memory can hold.
    proof fn lemma_capacity_fits(&self)
        ensures
            self.capacity() <= usize::MAX,
    ;

    fn len(&self) -> (r: usize)
        ensures
            r == self.contents().len(),
    ;

    fn bytes(&self) -> (r: &[u8])
        ensures
            r@ == self.contents(),
    ;

    /// The `size` bytes from `offset`, or `Err` when they are not all held.
    fn bytes_at(&self, offset: usize, size: usize) -> (r: Result<&[u8], ()>)
        ensures
            r is Ok <==> offset + size <= self.contents().len(),
            r matches Ok(s) ==> s@ == self.contents().subrange(offset as int, offset + size),
    ;
}

/// In-place writes over bytes already held.
pub trait MutBuffer: Buffer {
    /// Overwrites the bytes from `offset` with `data`; `Err`, with nothing
    /// changed, when they are not all held.
    fn write_at(&mut self, offset: usize, data: &[u8]) -> (r: Result<(), ()>)
        ensures
            r is Ok <==> offset + data@.len() <= old(self).contents().len(),
            r is Ok ==> final(self).contents() == old(self).contents().subrange(0, offset as int)
                + data@ + old(self).contents().subrange(offset + data@.len(), old(self).contents().len() as int),
            r is Err ==> final(self).contents() == old(self).contents(),
            final(self).capacity() == old(self).capacity(),
    ;
}

/// Growth up to a fixed capacity, and truncation.
pub trait ExtendableBuffer: MutBuffer {
    /// Appends `data`; `Err`, with nothing changed, when it does not fit.
    fn extend_from_slice(&mut self, data: &[u8]) -> (r: Result<(), ()>)
        ensures
            r is Ok <==> old(self).contents().len() + data@.len() <= old(self).capacity(),
            r is Ok ==> final(self).contents() == old(self).contents() + data@,
            r is Err ==> final(self).contents() == old(self).contents(),
            final(self).capacity() == old(self).capacity(),
    ;

    /// Keeps the first `len` bytes; nothing happens when fewer are held.
    fn truncate(&mut self, len: usize)
        ensures
            final(self).contents() == if len < old(self).contents().len() {
                old(self).contents().subrange(0, len as int)
            } else {
                old(self).contents()
            },
            final(self).capacity() == old(self).capacity(),
    ;
}

/// A byte slice, read-only: it holds its bytes and can hold no more.
impl Buffer for [u8] {
    open spec fn contents(&self) -> Seq<u8> {
        self@
    }

    open spec fn capacity(&self) -> nat {
        self@.len()
    }

    proof fn lemma_capacity_fits(&self) {
        assert(vstd::slice::spec_slice_len(self) == self@.len());
    }

    fn len(&self) -> (r: usize) {
        <[u8]>::len(self)
    }

    fn bytes(&self) -> (r: &[u8]) {
        self
    }

    fn bytes_at(&self, offset: usize, size: usize) -> (r: Result<&[u8], ()>) {
        let n = <[u8]>::len(self);
        if offset > n || n - offset < size {
            return Err(());
        }
        Ok(vstd::slice::slice_subrange(self, offset, offset + size))
    }
}

/// The array-backed store of `arrayvec`, holding the bytes of a message.
#[verifier::external_type_specification]
#[verifier::external_body]
#[verifier::reject_recursive_types(T)]
pub struct ExArrayVec<T, const CAP: usize>(ArrayVec<T, CAP>);

/// The elements an array-backed buffer holds, in order.
pub uninterp spec fn array_held(v: ArrayVec<u8, 256>) -> Seq<u8>;

/// Relies on `ArrayVec::as_slice`: the slice of all elements held, of which
/// there are never more than the capacity.
#[verifier::external_body]
fn array_as_slice(v: &ArrayVec<u8, 256>) -> (r: &[u8])
    ensures
        r@ == array_held(*v),
        r@.len() <= 256,
{
    v.as_slice()
}

/// Relies on `ArrayVec::try_extend_from_slice`: appends the whole slice when
/// the capacity left is at least its length, and otherwise fails and changes nothing.
#[verifier::external_body]
fn array_try_extend(v: &mut ArrayVec<u8, 256>, data: &[u8]) -> (r: Result<(), ()>)
    ensures
        r is Ok <==> array_held(*old(v)).len() + data@.len() <= 256,
        r is Ok ==> array_held(*final(v)) == array_held(*old(v)) + data@,
        r is Err ==> array_held(*final(v)) == array_held(*old(v)),
{
    v.try_extend_from_slice(data).map_err(|_| ())
}

/// Relies on `ArrayVec::truncate`: keeps the first `len` elements, and has no
/// effect when fewer are held.
#[verifier::external_body]
fn array_truncate(v: &mut ArrayVec<u8, 256>, len: usize)
    ensures
        array_held(*final(v)) == if len < array_held(*old(v)).len() {
            array_held(*old(v)).subrange(0, len as int)
        } else {
            array_held(*old(v))
        },
{
    v.truncate(len)
}

/// Relies on `ArrayVec::as_mut_slice`: the slice of all elements held, of
/// which the one at `i` is replaced.
#[verifier::external_body]
fn array_set(v: &mut ArrayVec<u8, 256>, i: usize, x: u8)
    requires
        i < array_held(*old(v)).len(),
    ensures
        array_held(*final(v)) == array_held(*old(v)).update(i as int, x),
{
    v.as_mut_slice()[i] = x
}

/// A message buffer of 256 bytes, the size of a short mDNS message.
impl Buffer for ArrayVec<u8, 256> {
    open spec fn contents(&self) -> Seq<u8> {
        array_held(*self)
    }

    open spec fn capacity(&self) -> nat {
        256
    }

    proof fn lemma_capacity_fits(&self) {
    }

    fn len(&self) -> (r: usize) {
        array_as_slice(self).len()
    }

    fn bytes(&self) -> (r: &[u8]) {
        array_as_slice(self)
    }

    fn bytes_at(&self, offset: usize, size: usize) -> (r: Result<&[u8], ()>) {
        let all = array_as_slice(self);
        if offset > all.len() || all.len() - offset < size {
            return Err(());
        }
        Ok(vstd::slice::slice_subrange(all, offset, offset + size))
    }
}

impl MutBuffer for ArrayVec<u8, 256> {
    fn write_at(&mut self, offset: usize, data: &[u8]) -> (r: Result<(), ()>) {
        let len = array_as_slice(self).len();
        if offset > len || len - offset < data.len() {
            return Err(());
        }
        let ghost before = array_held(*self);
        let mut k: usize = 0;
        while k < data.len()
            invariant
                len == before.len(),
                offset + data@.len() <= before.len(),
                k <= data@.len(),
                array_held(*self).len() == before.len(),
                forall|m: int| 0 <= m < before.len() ==> array_held(*self)[m] == if offset <= m < offset + k {
                    data@[m - offset]
                } else {
                    before[m]
                },
            decreases data@.len() - k,
        {
            array_set(self, offset + k, data[k]);
            k = k + 1;
        }
        assert(array_held(*self) =~= before.subrange(0, offset as int) + data@ + before.subrange(
            offset + data@.len(),
            before.len() as int,
        ));
        Ok(())
    }
}

impl ExtendableBuffer for ArrayVec<u8, 256> {
    fn extend_from_slice(&mut self, data: &[u8]) -> (r: Result<(), ()>) {
        array_try_extend(self, data)
    }

    fn truncate(&mut self, len: usize) {
        array_truncate(self, len)
    }
}

} // verus!
