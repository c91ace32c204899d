//! Which files of a model directory are there.

use vstd::prelude::*;

use crate::text::strings::{str_eq, views};

verus! {

/// Whether `name` is among the files that are there.
pub open spec fn is_present(present: Seq<Seq<char>>, name: Seq<char>) -> bool {
    present.contains(name)
}

/// Tests whether `name` is among the files that are there.
pub fn has_file(present: &Vec<String>, name: &str) -> (r: bool)
    ensures
        r == is_present(views(present@), name@),
{
    let mut i: usize = 0;
    while i < present.len()
        invariant
            i <= present@.len(),
            forall|j: int| 0 <= j < i ==> (#[trigger] present@[j])@ != name@,
        decreases present@.len() - i,
    {
        if str_eq(present[i].as_str(), name) {
            assert(views(present@)[i as int] == name@);
            return true;
        }
        i += 1;
    }
    assert(!views(present@).contains(name@)) by {
        assert forall|j: int| 0 <= j < views(present@).len() implies views(present@)[j] != name@ by {
            assert(views(present@)[j] == present@[j]@);
        }
    }
    false
}

} // verus!
