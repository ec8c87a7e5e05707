//! Pod identity: two `PodInfo`s are the same pod when name and uid agree.

use super::pod::PodInfo;
use crate::text::str_eq;
use vstd::prelude::*;

verus! {

impl PartialEq for PodInfo {
    fn eq(&self, other: &Self) -> (r: bool) {
        str_eq(self.name.as_str(), other.name.as_str()) && str_eq(self.uid.as_str(), other.uid.as_str())
    }
}

impl Eq for PodInfo {
}

impl vstd::std_specs::cmp::PartialEqSpecImpl for PodInfo {
    open spec fn obeys_eq_spec() -> bool {
        true
    }

    open spec fn eq_spec(&self, other: &PodInfo) -> bool {
        self.name@ == other.name@ && self.uid@ == other.uid@
    }
}

} // verus!
