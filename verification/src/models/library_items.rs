//! The ids of the items in the user's library.

use vstd::prelude::*;

use crate::models::library_with_filters::strings_view;
use crate::runtime::Effects;
use crate::types::library::LibraryItem;

verus! {

/// The ids of the library items that are not removed.
pub struct LibraryItems {
    pub ids: Vec<String>,
}

/// The ids of the items that are not removed, each once, in the order in
/// which they first occur.
pub open spec fn library_ids(library: Seq<LibraryItem>) -> Seq<Seq<char>>
    decreases library.len(),
{
    if library.len() == 0 {
        Seq::empty()
    } else {
        let rest = library_ids(library.drop_last());
        let last = library.last();
        if !last.removed && !rest.contains(last.id@) {
            rest.push(last.id@)
        } else {
            rest
        }
    }
}

fn holds_id(ids: &Vec<String>, id: &str) -> (r: bool)
    ensures
        r == strings_view(ids@).contains(id@),
{
    let mut i: usize = 0;
    while i < ids.len()
        invariant
            i <= ids.len(),
            forall|j: int| 0 <= j < i ==> ids@[j]@ != id@,
        decreases ids.len() - i,
    {
        if crate::text::str_eq(ids[i].as_str(), id) {
            assert(strings_view(ids@)[i as int] == id@);
            return true;
        }
        i = i + 1;
    }
    assert(!strings_view(ids@).contains(id@)) by {
        if strings_view(ids@).contains(id@) {
            let j = choose|j: int| 0 <= j < strings_view(ids@).len() && strings_view(ids@)[j] == id@;
            assert(ids@[j]@ == id@);
        }
    }
    false
}

fn same_strings(a: &Vec<String>, b: &Vec<String>) -> (r: bool)
    ensures
        r == (strings_view(a@) == strings_view(b@)),
{
    if a.len() != b.len() {
        assert(strings_view(a@).len() != strings_view(b@).len());
        return false;
    }
    let mut i: usize = 0;
    while i < a.len()
        invariant
            i <= a.len(),
            a.len() == b.len(),
            forall|j: int| 0 <= j < i ==> a@[j]@ == #[trigger] b@[j]@,
        decreases a.len() - i,
    {
        if !crate::text::str_eq(a[i].as_str(), b[i].as_str()) {
            assert(strings_view(a@)[i as int] != strings_view(b@)[i as int]);
            return false;
        }
        i = i + 1;
    }
    assert(strings_view(a@) =~= strings_view(b@));
    true
}

/// The reducer of the ids: they become [`library_ids`] of the library, and
/// a change is reported exactly when they differ from the current ones.
pub fn ids_update<A>(ids: &mut Vec<String>, library: &[LibraryItem]) -> (r: Effects<A>)
    ensures
        strings_view(final(ids)@) == library_ids(library@),
        r.effect_list().len() == 0,
        r.has_changed == (strings_view(old(ids)@) != library_ids(library@)),
{
    let mut next: Vec<String> = Vec::new();
    let mut i: usize = 0;
    while i < library.len()
        invariant
            i <= library.len(),
            strings_view(next@) == library_ids(library@.take(i as int)),
        decreases library.len() - i,
    {
        assert(library@.take(i + 1).drop_last() =~= library@.take(i as int));
        let item = &library[i];
        if !item.removed && !holds_id(&next, item.id.as_str()) {
            next.push(item.id.clone());
            assert(strings_view(next@) =~= library_ids(library@.take(i + 1)));
        }
        i = i + 1;
    }
    assert(library@.take(library.len() as int) =~= library@);
    if same_strings(ids, &next) {
        *ids = next;
        Effects::none().unchanged()
    } else {
        *ids = next;
        Effects::none()
    }
}

/// What the ids react to.
pub enum LibraryItemsMsg {
    LibraryChanged,
    Other,
}

impl LibraryItems {
    /// The reducer of the ids: a change of the library updates them, anything
    /// else leaves them unchanged.
    pub fn update<A>(&mut self, msg: LibraryItemsMsg, library: &[LibraryItem]) -> (r: Effects<A>)
        ensures
            r.effect_list().len() == 0,
            msg is LibraryChanged ==> {
                &&& strings_view(final(self).ids@) == library_ids(library@)
                &&& r.has_changed == (strings_view(old(self).ids@) != library_ids(library@))
            },
            msg is Other ==> !r.has_changed && final(self).ids@ == old(self).ids@,
    {
        match msg {
            LibraryItemsMsg::LibraryChanged => ids_update(&mut self.ids, library),
            LibraryItemsMsg::Other => Effects::none().unchanged(),
        }
    }
}

} // verus!
