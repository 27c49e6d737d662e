//! Storage that a command encoder reuses from one command to the next.

use vstd::prelude::*;
use vstd::string::StringSliceAdditionalSpecFns;

verus! {

/// Miscellaneous allocation recycling pool of a command encoder.
#[derive(Debug)]
pub struct Temp {
    /// The bytes of the last label, with the NUL that ends them.
    pub marker: Vec<u8>,
}

impl Default for Temp {
    fn default() -> (temp: Temp)
        ensures
            temp.marker@ == Seq::<u8>::empty(),
    {
        Temp { marker: Vec::new() }
    }
}

impl Temp {
    /// Empties the storage and keeps what it has allocated.
    pub fn clear(&mut self)
        ensures
            final(self).marker@ == Seq::<u8>::empty(),
    {
        self.marker.clear();
    }

    /// Writes `name` as a C string into `marker`: the bytes of the name,
    /// then one NUL. What `marker` held before is gone.
    pub fn make_c_str(&mut self, name: &str)
        ensures
            final(self).marker@ == name.spec_bytes().push(0),
    {
        self.marker.clear();
        let bytes = name.as_bytes();
        let mut i: usize = 0;
        while i < bytes.len()
            invariant
                i <= bytes.len(),
                bytes@ == name.spec_bytes(),
                self.marker@ == bytes@.take(i as int),
            decreases bytes.len() - i,
        {
            self.marker.push(bytes[i]);
            i += 1;
        }
        self.marker.push(0);
    }
}

} // verus!
