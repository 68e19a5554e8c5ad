//! Choosing a weather station's record out of a feed of station
//! measurements.

use vstd::prelude::*;

verus! {

/// Whether entry `i` of the feed is a station called `wanted`; entries
/// without a name never are.
pub open spec fn names_station(names: Seq<Option<String>>, i: int, wanted: Seq<char>) -> bool {
    names[i] matches Some(n) && n@ == wanted
}

/// The index of the last station in the feed called `wanted`, or `None`
/// when no station is. A later record of the same station replaces an
/// earlier one.
pub fn select_station(names: &Vec<Option<String>>, wanted: &String) -> (found: Option<usize>)
    ensures
        match found {
            Some(i) => {
                &&& i < names.len()
                &&& names_station(names@, i as int, wanted@)
                &&& forall|j: int|
                    i < j < names.len() ==> !names_station(names@, j, wanted@)
            },
            None => forall|j: int| 0 <= j < names.len() ==> !names_station(names@, j, wanted@),
        },
{
    let mut found: Option<usize> = None;
    let mut i: usize = 0;
    while i < names.len()
        invariant
            i <= names.len(),
            match found {
                Some(k) => {
                    &&& k < i
                    &&& names_station(names@, k as int, wanted@)
                    &&& forall|j: int| k < j < i ==> !names_station(names@, j, wanted@)
                },
                None => forall|j: int| 0 <= j < i ==> !names_station(names@, j, wanted@),
            },
        decreases names.len() - i,
    {
        match &names[i] {
            Some(n) => {
                if *n == *wanted {
                    found = Some(i);
                }
            },
            None => {},
        }
        i = i + 1;
    }
    found
}

} // verus!
