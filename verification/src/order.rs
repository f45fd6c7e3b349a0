//! Entries compare by name, and by nothing else: two entries of one name are
//! equal whatever their metadata says.

use std::cmp::Ordering;
use vstd::prelude::*;
use vstd::std_specs::cmp::{PartialEqSpecImpl, PartialOrdSpecImpl};
use crate::entry::File;
use crate::name::{
    lemma_name_le_antisymmetric, lemma_name_le_reflexive, lemma_name_le_total, name_le,
    names_in_order,
};

verus! {

/// How two names stand to each other in the order of the listing.
pub open spec fn name_ordering(a: Seq<char>, b: Seq<char>) -> Ordering {
    if a == b {
        Ordering::Equal
    } else if name_le(a, b) {
        Ordering::Less
    } else {
        Ordering::Greater
    }
}

impl PartialEq for File {
    fn eq(&self, other: &File) -> (equal: bool) {
        proof {
            lemma_name_le_reflexive(self@.name);
            if name_le(self@.name, other@.name) && name_le(other@.name, self@.name) {
                lemma_name_le_antisymmetric(self@.name, other@.name);
            }
        }
        names_in_order(self.name(), other.name()) && names_in_order(other.name(), self.name())
    }
}

impl PartialEqSpecImpl for File {
    open spec fn obeys_eq_spec() -> bool {
        true
    }

    open spec fn eq_spec(&self, other: &File) -> bool {
        self@.name == other@.name
    }
}

impl PartialOrd for File {
    fn partial_cmp(&self, other: &File) -> (ordering: Option<Ordering>) {
        proof {
            lemma_name_le_reflexive(self@.name);
            lemma_name_le_total(self@.name, other@.name);
            if name_le(self@.name, other@.name) && name_le(other@.name, self@.name) {
                lemma_name_le_antisymmetric(self@.name, other@.name);
            }
        }
        if !names_in_order(self.name(), other.name()) {
            Some(Ordering::Greater)
        } else if names_in_order(other.name(), self.name()) {
            Some(Ordering::Equal)
        } else {
            Some(Ordering::Less)
        }
    }
}

impl PartialOrdSpecImpl for File {
    open spec fn obeys_partial_cmp_spec() -> bool {
        true
    }

    open spec fn partial_cmp_spec(&self, other: &File) -> Option<Ordering> {
        Some(name_ordering(self@.name, other@.name))
    }
}

} // verus!
