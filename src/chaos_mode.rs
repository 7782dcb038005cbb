//! The fuzzer's input for one iteration, owned by the fuzz entry point and
//! lent by reference to the code that consumes it, in place of a
//! process-wide buffer.

use vstd::prelude::*;
use vstd::slice::slice_to_vec;

verus! {

/// The bytes of one fuzz iteration.
#[derive(Debug)]
pub struct FuzzInput {
    data: Vec<u8>,
}

impl View for FuzzInput {
    type V = Seq<u8>;

    closed spec fn view(&self) -> Seq<u8> {
        self.data@
    }
}

/// Takes a copy of the input of a fuzz iteration.
pub fn init_unstructured(data: &[u8]) -> (r: FuzzInput)
    ensures
        r@ == data@,
{
    FuzzInput { data: slice_to_vec(data) }
}

/// Ends a fuzz iteration: the input is emptied.
pub fn drop_unstructured(input: &mut FuzzInput)
    ensures
        final(input)@ == Seq::<u8>::empty(),
{
    input.data = Vec::new();
}

/// The bytes of the current iteration, to read or consume in place.
pub fn get_mut(input: &mut FuzzInput) -> (r: &mut [u8])
    ensures
        r@ == old(input)@,
        final(input)@ == final(r)@,
{
    input.data.as_mut_slice()
}

} // verus!
