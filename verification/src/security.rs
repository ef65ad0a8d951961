//! The security system of a device: the list of malware it is patched
//! against.
use vstd::prelude::*;

use crate::malware::Malware;
use crate::malware::spec_same_malware;

verus! {

/// The set of malware a device is immune to.
#[derive(Clone, Debug, PartialEq)]
pub struct SecuritySystem {
    pub patch_list: Vec<Malware>,
}

impl SecuritySystem {
    /// The device is patched against this malware.
    pub open spec fn spec_patches(self, malware: Malware) -> bool {
        exists|i: int| 0 <= i < self.patch_list@.len() && self.patch_list@[i] == malware
    }

    pub fn new(patch_list: Vec<Malware>) -> (r: Self)
        ensures
            r.patch_list == patch_list,
    {
        Self { patch_list }
    }

    pub fn patch_list(&self) -> (r: &Vec<Malware>)
        ensures
            r == &self.patch_list,
    {
        &self.patch_list
    }

    pub fn patches(&self, malware: &Malware) -> (r: bool)
        ensures
            r == self.spec_patches(*malware),
    {
        let mut i: usize = 0;
        while i < self.patch_list.len()
            invariant
                i <= self.patch_list@.len(),
                forall|k: int| 0 <= k < i ==> self.patch_list@[k] != *malware,
            decreases self.patch_list@.len() - i,
        {
            if self.patch_list[i].same_as(malware) {
                proof {
                    assert(spec_same_malware(self.patch_list@[i as int], *malware));
                }
                return true;
            }
            i = i + 1;
        }
        false
    }
}

impl Default for SecuritySystem {
    fn default() -> (r: Self)
        ensures
            r.patch_list@.len() == 0,
    {
        Self { patch_list: Vec::new() }
    }
}

} // verus!
