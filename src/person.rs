//! A person record, the sample value that the bundled JSON example reads and
//! writes.

use vstd::prelude::*;

verus! {

#[derive(Clone, Debug)]
pub struct Person {
    pub name: String,
    pub age: u8,
}

} // verus!
