use vstd::prelude::*;

verus! {

/// A program image: the bytes of a ROM, to be loaded at the start address.
#[allow(non_camel_case_types)]
pub struct rom {
    pub data: Vec<u8>,
}

impl rom {
    /// An empty program.
    pub fn new() -> (r: Self)
        ensures
            r.data@ == Seq::<u8>::empty(),
    {
        Self { data: Vec::new() }
    }
}

} // verus!
