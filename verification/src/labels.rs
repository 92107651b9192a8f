//! The table of labels.

use std::collections::BTreeMap;
use vstd::prelude::*;

verus! {

/// The statement that a label stands at, if the label is known.
pub fn find_label(labels: &BTreeMap<u16, usize>, label: u16) -> (r: Option<usize>)
    ensures
        r == if labels@.contains_key(label) {
            Some(labels@[label])
        } else {
            None::<usize>
        },
{
    broadcast use vstd::std_specs::btree::group_btree_axioms;
    broadcast use vstd::laws_cmp::group_laws_cmp;

    match labels.get(&label) {
        Some(i) => Some(*i),
        None => None,
    }
}

} // verus!
