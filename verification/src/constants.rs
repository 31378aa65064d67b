//! Constants shared by the models.

use vstd::prelude::*;
use vstd::string::StringExecFns;

verus! {

/// The number of items on a page of a catalog.
pub const CATALOG_PAGE_SIZE: usize = 100;

/// The number of items in a catalog preview.
pub const CATALOG_PREVIEW_SIZE: usize = 100;

/// The priorities of the content types in listings of types: a higher
/// priority comes first, and `other` always comes last.
pub open spec fn spec_type_priorities() -> Seq<(Seq<char>, i32)> {
    seq![
        ("all"@, 5i32),
        ("movie"@, 4i32),
        ("series"@, 3i32),
        ("channel"@, 2i32),
        ("tv"@, 1i32),
        ("other"@, i32::MIN),
    ]
}

pub open spec fn priorities_view(priorities: Seq<(String, i32)>) -> Seq<(Seq<char>, i32)> {
    priorities.map_values(|p: (String, i32)| (p.0@, p.1))
}

/// No key occurs twice among the priorities, as in a map of them.
pub open spec fn keys_distinct(priorities: Seq<(Seq<char>, i32)>) -> bool {
    forall|i: int, j: int| 0 <= i < j < priorities.len() ==> priorities[i].0 != priorities[j].0
}

/// The priorities of the content types.
pub fn type_priorities() -> (r: Vec<(String, i32)>)
    ensures
        priorities_view(r@) == spec_type_priorities(),
        keys_distinct(priorities_view(r@)),
{
    let r = vec![
        (String::from_str("all"), 5i32),
        (String::from_str("movie"), 4i32),
        (String::from_str("series"), 3i32),
        (String::from_str("channel"), 2i32),
        (String::from_str("tv"), 1i32),
        (String::from_str("other"), i32::MIN),
    ];
    assert(priorities_view(r@) =~= spec_type_priorities());
    proof {
        reveal_strlit("all");
        reveal_strlit("movie");
        reveal_strlit("series");
        reveal_strlit("channel");
        reveal_strlit("tv");
        reveal_strlit("other");
        let p = spec_type_priorities();
        assert(p[0].0 != p[2].0 && p[1].0 != p[2].0) by {
            assert(p[0].0[0] != p[2].0[0]);
            assert(p[1].0[0] != p[2].0[0]);
        }
        assert(p[1].0 != p[5].0 && p[3].0 != p[2].0) by {
            assert(p[1].0[0] != p[5].0[0]);
            assert(p[3].0[0] != p[2].0[0]);
        }
        assert(p[2].0 != p[5].0 && p[1].0 != p[3].0 && p[0].0 != p[3].0) by {
            assert(p[2].0[0] != p[5].0[0]);
            assert(p[1].0[0] != p[3].0[0]);
            assert(p[0].0[0] != p[3].0[0]);
        }
    }
    r
}

} // verus!
