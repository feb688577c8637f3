//! The entries of one kind, by identifier, with the order in which they are
//! shown and the identifier that the next new entry gets.

use std::collections::HashMap;
use vstd::prelude::*;

use crate::entry::{GooseberryEntry, GooseberryEntryTrait, GooseberryEntryType};
use crate::errors::{Sorry, SorryView};
use crate::display::listing;
use crate::record::{decode, EntryView};
use crate::utility::formatting::{StyledText, StyledTextView};

verus! {

broadcast use vstd::std_specs::hash::group_hash_axioms;

/// A catalog as a mathematical value.
pub struct CatalogView {
    pub entry_type: GooseberryEntryType,
    pub entries: Map<u64, EntryView>,
    pub visible_ids: Seq<u64>,
    pub next_id: u64,
}

/// The position of the first `id` in `ids`, or the length of `ids` where
/// there is none.
pub open spec fn place_of(ids: Seq<u64>, id: u64) -> int
    decreases ids.len(),
{
    if ids.len() == 0 {
        0
    } else if ids[0] == id {
        0
    } else {
        1 + place_of(ids.drop_first(), id)
    }
}

/// `ids` without its first `id`.
pub open spec fn without(ids: Seq<u64>, id: u64) -> Seq<u64> {
    if ids.contains(id) {
        ids.remove(place_of(ids, id))
    } else {
        ids
    }
}

/// The error for an entry whose identifier is the last one there is: the
/// catalog could name no identifier after it.
pub open spec fn no_identifier_left() -> SorryView {
    SorryView::OutOfCheeseError { message: "No identifier is left after this one"@ }
}

impl CatalogView {
    /// The identifiers shown are those of the entries, each once; every entry
    /// is of the catalog's kind and stands under its own identifier; and the
    /// next identifier is greater than every one in use.
    pub open spec fn wf(self) -> bool {
        &&& self.visible_ids.no_duplicates()
        &&& forall|id: u64| self.entries.contains_key(id) <==> self.visible_ids.contains(id)
        &&& forall|id: u64| #[trigger]
            self.entries.contains_key(id) ==> {
                &&& self.entries[id].id() == id
                &&& self.entries[id].entry_type() == self.entry_type
                &&& id < self.next_id
            }
    }

    /// The empty catalog of a kind: its first identifier is 1.
    pub open spec fn empty(entry_type: GooseberryEntryType) -> CatalogView {
        CatalogView { entry_type, entries: Map::empty(), visible_ids: Seq::empty(), next_id: 1 }
    }

    /// The catalog with an entry put in: under a new identifier it is shown
    /// last, under one in use it takes the place of the entry there. An entry
    /// of another kind, or one with the last identifier there is, is the error.
    pub open spec fn add(self, e: EntryView) -> Result<CatalogView, SorryView> {
        if e.entry_type() != self.entry_type {
            Err(SorryView::WrongEntryType { expected: self.entry_type, got: e.entry_type() })
        } else if e.id() == u64::MAX {
            Err(no_identifier_left())
        } else {
            Ok(
                CatalogView {
                    entry_type: self.entry_type,
                    entries: self.entries.insert(e.id(), e),
                    visible_ids: if self.entries.contains_key(e.id()) {
                        self.visible_ids
                    } else {
                        self.visible_ids.push(e.id())
                    },
                    next_id: if e.id() >= self.next_id {
                        (e.id() + 1) as u64
                    } else {
                        self.next_id
                    },
                },
            )
        }
    }

    /// The catalog without the entry `id`; the next identifier stays.
    pub open spec fn remove(self, id: u64) -> CatalogView {
        CatalogView {
            entry_type: self.entry_type,
            entries: self.entries.remove(id),
            visible_ids: without(self.visible_ids, id),
            next_id: self.next_id,
        }
    }

    /// The error for an identifier that no entry has.
    pub open spec fn missing(self, id: u64) -> SorryView {
        SorryView::MissingEntryID { entry_type: self.entry_type, entry_id: id }
    }

    /// The catalog of the stored texts, put in one after the other: the first
    /// text that does not read, or whose entry cannot be put in, is the error.
    pub open spec fn loaded(entry_type: GooseberryEntryType, contents: Seq<Seq<char>>) -> Result<
        CatalogView,
        SorryView,
    >
        decreases contents.len(),
    {
        if contents.len() == 0 {
            Ok(CatalogView::empty(entry_type))
        } else {
            match CatalogView::loaded(entry_type, contents.drop_last()) {
                Err(e) => Err(e),
                Ok(catalog) => match decode(contents.last()) {
                    Err(e) => Err(e),
                    Ok(entry) => catalog.add(entry),
                },
            }
        }
    }
}

/// `place_of` finds the first occurrence.
pub proof fn lemma_place_of(ids: Seq<u64>, id: u64)
    ensures
        0 <= place_of(ids, id) <= ids.len(),
        forall|j: int| 0 <= j < place_of(ids, id) ==> ids[j] != id,
        place_of(ids, id) < ids.len() ==> ids[place_of(ids, id)] == id,
        ids.contains(id) <==> place_of(ids, id) < ids.len(),
    decreases ids.len(),
{
    if ids.len() > 0 && ids[0] != id {
        let rest = ids.drop_first();
        lemma_place_of(rest, id);
        assert forall|j: int| 0 <= j < place_of(ids, id) implies ids[j] != id by {
            if j > 0 {
                assert(ids[j] == rest[j - 1]);
            }
        }
        if ids.contains(id) {
            let k = choose|k: int| 0 <= k < ids.len() && ids[k] == id;
            assert(rest[k - 1] == id);
        }
        if place_of(rest, id) < rest.len() {
            assert(ids[place_of(rest, id) + 1] == id);
        }
    } else if ids.len() > 0 {
        assert(ids[0] == id);
    }
}

/// Without one identifier, a list free of duplicates holds the others, each
/// once and in their order.
pub proof fn lemma_without(ids: Seq<u64>, id: u64)
    requires
        ids.no_duplicates(),
    ensures
        without(ids, id).no_duplicates(),
        forall|other: u64| without(ids, id).contains(other) <==> ids.contains(other) && other != id,
{
    lemma_place_of(ids, id);
    if ids.contains(id) {
        let k = place_of(ids, id);
        let rest = ids.remove(k);
        assert forall|other: u64| rest.contains(other) <==> ids.contains(other) && other
            != id by {
            if rest.contains(other) {
                let j = choose|j: int| 0 <= j < rest.len() && rest[j] == other;
                if j < k {
                    assert(ids[j] == other);
                } else {
                    assert(ids[j + 1] == other);
                }
            }
            if ids.contains(other) && other != id {
                let j = choose|j: int| 0 <= j < ids.len() && ids[j] == other;
                if j < k {
                    assert(rest[j] == other);
                } else {
                    assert(rest[j - 1] == other);
                }
            }
        }
        assert forall|i: int, j: int| 0 <= i < rest.len() && 0 <= j < rest.len() && i != j implies rest[i]
            != rest[j] by {
            let a = if i < k {
                i
            } else {
                i + 1
            };
            let b = if j < k {
                j
            } else {
                j + 1
            };
            assert(rest[i] == ids[a] && rest[j] == ids[b]);
        }
    }
}

/// Putting in and taking out keep a catalog well formed: its identifiers
/// stay without duplicates and stay those of its entries, and its next
/// identifier stays above them all.
pub proof fn lemma_catalog_invariant(catalog: CatalogView, e: EntryView, id: u64)
    requires
        catalog.wf(),
    ensures
        catalog.add(e) matches Ok(after) ==> after.wf() && after.next_id >= catalog.next_id,
        catalog.remove(id).wf(),
        !catalog.remove(id).entries.contains_key(id),
        CatalogView::empty(catalog.entry_type).wf(),
{
    if let Ok(after) = catalog.add(e) {
        let ids = catalog.visible_ids;
        if !catalog.entries.contains_key(e.id()) {
            assert forall|i: int, j: int|
                0 <= i < after.visible_ids.len() && 0 <= j < after.visible_ids.len() && i
                    != j implies after.visible_ids[i] != after.visible_ids[j] by {
                if i < ids.len() {
                    assert(ids.contains(ids[i]));
                }
                if j < ids.len() {
                    assert(ids.contains(ids[j]));
                }
            }
            assert forall|other: u64|
                after.entries.contains_key(other) <==> after.visible_ids.contains(other) by {
                if after.visible_ids.contains(other) {
                    let j = choose|j: int|
                        0 <= j < after.visible_ids.len() && after.visible_ids[j] == other;
                    if j < ids.len() {
                        assert(ids.contains(other));
                    }
                }
                if after.entries.contains_key(other) {
                    if other == e.id() {
                        assert(after.visible_ids[ids.len() as int] == other);
                    } else {
                        assert(ids.contains(other));
                        let j = choose|j: int| 0 <= j < ids.len() && ids[j] == other;
                        assert(after.visible_ids[j] == other);
                    }
                }
            }
        }
    }
    lemma_without(catalog.visible_ids, id);
    let less = catalog.remove(id);
    assert forall|other: u64| less.entries.contains_key(other) <==> less.visible_ids.contains(
        other,
    ) by {
        assert(less.entries.contains_key(other) <==> catalog.entries.contains_key(other) && other
            != id);
        assert(catalog.entries.contains_key(other) <==> catalog.visible_ids.contains(other));
    }
    assert forall|other: u64| #[trigger] less.entries.contains_key(other) implies less.entries[other].id()
        == other && less.entries[other].entry_type() == less.entry_type && other
        < less.next_id by {
        assert(catalog.entries.contains_key(other));
    }
}

/// Putting an entry of the catalog's kind in, under any identifier but the
/// last one there is, succeeds: the identifiers of the entries gain that of
/// the entry, the entry stands under it, an identifier in use keeps its place
/// among those shown and a new one goes last, and the identifiers shown stay
/// without duplicates and stay those of the entries.
pub proof fn lemma_add(catalog: CatalogView, e: EntryView)
    requires
        catalog.wf(),
        e.entry_type() == catalog.entry_type,
        e.id() < u64::MAX,
    ensures
        catalog.add(e) is Ok,
        ({
            let after = catalog.add(e)->Ok_0;
            &&& after.wf()
            &&& after.entries.dom() =~= catalog.entries.dom().insert(e.id())
            &&& after.entries[e.id()] == e
            &&& forall|id: u64|
                id != e.id() && catalog.entries.contains_key(id) ==> after.entries[id]
                    == catalog.entries[id]
            &&& after.visible_ids == if catalog.entries.contains_key(e.id()) {
                catalog.visible_ids
            } else {
                catalog.visible_ids.push(e.id())
            }
            &&& after.visible_ids.no_duplicates()
            &&& after.visible_ids.to_set() =~= after.entries.dom()
            &&& e.id() < after.next_id
            &&& after.next_id >= catalog.next_id
        }),
{
    lemma_catalog_invariant(catalog, e, 0);
    let after = catalog.add(e)->Ok_0;
    assert forall|id: u64| after.visible_ids.to_set().contains(id) <==> after.entries.dom().contains(
        id,
    ) by {
        assert(after.entries.contains_key(id) <==> after.visible_ids.contains(id));
    }
}

/// One change to a catalog.
pub enum CatalogChange {
    /// Putting an entry in.
    Add(EntryView),
    /// Taking the entry with an identifier out.
    Remove(u64),
}

/// The catalog after a change; a change that is refused leaves it as it is.
pub open spec fn changed(catalog: CatalogView, change: CatalogChange) -> CatalogView {
    match change {
        CatalogChange::Add(e) => match catalog.add(e) {
            Ok(after) => after,
            Err(_) => catalog,
        },
        CatalogChange::Remove(id) => catalog.remove(id),
    }
}

/// The catalog after the changes, one after the other.
pub open spec fn changed_by(catalog: CatalogView, changes: Seq<CatalogChange>) -> CatalogView
    decreases changes.len(),
{
    if changes.len() == 0 {
        catalog
    } else {
        changed(changed_by(catalog, changes.drop_last()), changes.last())
    }
}

/// After any sequence of changes the identifiers shown are without
/// duplicates and are those of the entries, the next identifier is greater
/// than every identifier in use, and it has not gone down.
pub proof fn lemma_catalog_after_changes(catalog: CatalogView, changes: Seq<CatalogChange>)
    requires
        catalog.wf(),
    ensures
        changed_by(catalog, changes).wf(),
        changed_by(catalog, changes).visible_ids.no_duplicates(),
        changed_by(catalog, changes).visible_ids.to_set() =~= changed_by(
            catalog,
            changes,
        ).entries.dom(),
        forall|id: u64| #[trigger]
            changed_by(catalog, changes).entries.contains_key(id) ==> id < changed_by(
                catalog,
                changes,
            ).next_id,
        changed_by(catalog, changes).next_id >= catalog.next_id,
        changed_by(catalog, changes).entry_type == catalog.entry_type,
    decreases changes.len(),
{
    if changes.len() > 0 {
        let before = changed_by(catalog, changes.drop_last());
        lemma_catalog_after_changes(catalog, changes.drop_last());
        match changes.last() {
            CatalogChange::Add(e) => {
                lemma_catalog_invariant(before, e, 0);
            },
            CatalogChange::Remove(id) => {
                lemma_catalog_invariant(before, arbitrary(), id);
            },
        }
    }
    let after = changed_by(catalog, changes);
    assert forall|id: u64| after.visible_ids.to_set().contains(id) <==> after.entries.dom().contains(
        id,
    ) by {
        assert(after.entries.contains_key(id) <==> after.visible_ids.contains(id));
    }
}

/// Whatever loads is well formed.
pub proof fn lemma_loaded_wf(entry_type: GooseberryEntryType, contents: Seq<Seq<char>>)
    ensures
        CatalogView::loaded(entry_type, contents) matches Ok(catalog) ==> catalog.wf()
            && catalog.entry_type == entry_type,
    decreases contents.len(),
{
    if contents.len() > 0 {
        lemma_loaded_wf(entry_type, contents.drop_last());
        if let Ok(before) = CatalogView::loaded(entry_type, contents.drop_last()) {
            if let Ok(entry) = decode(contents.last()) {
                lemma_catalog_invariant(before, entry, 0);
            }
        }
    }
}

/// The entries of one kind.
pub struct Catalog {
    entry_type: GooseberryEntryType,
    entries: HashMap<u64, GooseberryEntry>,
    visible_ids: Vec<u64>,
    next_id: u64,
}

impl View for Catalog {
    type V = CatalogView;

    closed spec fn view(&self) -> CatalogView {
        CatalogView {
            entry_type: self.entry_type,
            entries: self.entries@.map_values(|e: GooseberryEntry| e@),
            visible_ids: self.visible_ids@,
            next_id: self.next_id,
        }
    }
}

/// The error for an entry whose identifier is the last one there is.
fn identifiers_exhausted() -> (r: Sorry)
    ensures
        r@ == no_identifier_left(),
{
    Sorry::OutOfCheeseError { message: "No identifier is left after this one".to_owned() }
}

impl Catalog {
    /// The empty catalog of a kind.
    pub fn new(entry_type: GooseberryEntryType) -> (r: Catalog)
        ensures
            r@ == CatalogView::empty(entry_type),
            r@.wf(),
    {
        let r = Catalog { entry_type, entries: HashMap::new(), visible_ids: Vec::new(), next_id: 1 };
        assert(r@.entries =~= Map::<u64, EntryView>::empty());
        r
    }

    /// The catalog of the stored texts of a kind: a text that does not read,
    /// or an entry that cannot be put in, fails the whole load.
    pub fn load(entry_type: GooseberryEntryType, contents: &Vec<String>) -> (r: Result<
        Catalog,
        Sorry,
    >)
        ensures
            match r {
                Ok(catalog) => CatalogView::loaded(entry_type, contents.deep_view()) == Ok::<
                    CatalogView,
                    SorryView,
                >(catalog@) && catalog@.wf() && catalog@.entry_type == entry_type,
                Err(e) => CatalogView::loaded(entry_type, contents.deep_view()) == Err::<
                    CatalogView,
                    SorryView,
                >(e@),
            },
    {
        let ghost all = contents.deep_view();
        let mut catalog = Catalog::new(entry_type);
        let mut i: usize = 0;
        assert(all.take(0) =~= Seq::<Seq<char>>::empty());
        while i < contents.len()
            invariant
                i <= contents.len(),
                all == contents.deep_view(),
                catalog@.wf(),
                catalog@.entry_type == entry_type,
                CatalogView::loaded(entry_type, all.take(i as int)) == Ok::<CatalogView, SorryView>(
                    catalog@,
                ),
            decreases contents.len() - i,
        {
            proof {
                assert(all.take(i + 1).drop_last() == all.take(i as int));
                assert(all.take(i + 1).last() == contents@[i as int]@);
            }
            let entry = match GooseberryEntry::from_file(contents[i].as_str()) {
                Ok(entry) => entry,
                Err(e) => {
                    proof {
                        lemma_loaded_error(entry_type, all, i + 1);
                    }
                    return Err(e);
                },
            };
            match catalog.add(entry) {
                Ok(()) => {},
                Err(e) => {
                    proof {
                        lemma_loaded_error(entry_type, all, i + 1);
                    }
                    return Err(e);
                },
            }
            i += 1;
        }
        assert(all.take(i as int) == all);
        Ok(catalog)
    }

    /// Puts an entry in: under a new identifier it is shown last, under one
    /// in use it takes the place of the entry there. On an error the catalog
    /// stays as it was.
    pub fn add(&mut self, entry: GooseberryEntry) -> (r: Result<(), Sorry>)
        requires
            old(self)@.wf(),
        ensures
            match r {
                Ok(()) => old(self)@.add(entry@) == Ok::<CatalogView, SorryView>(final(self)@),
                Err(e) => old(self)@.add(entry@) == Err::<CatalogView, SorryView>(e@) && final(self)@ == old(self)@,
            },
            final(self)@.wf(),
            final(self)@.entry_type == old(self)@.entry_type,
    {
        let id = entry.id();
        let got = entry.entry_type();
        if got != self.entry_type {
            return Err(Sorry::WrongEntryType { expected: self.entry_type, got });
        }
        if id == u64::MAX {
            return Err(identifiers_exhausted());
        }
        proof {
            lemma_catalog_invariant(old(self)@, entry@, id);
        }
        let known = self.entries.contains_key(&id);
        self.entries.insert(id, entry);
        if !known {
            self.visible_ids.push(id);
        }
        if id >= self.next_id {
            self.next_id = id + 1;
        }
        assert(self@.entries =~= old(self)@.entries.insert(id, entry@));
        Ok(())
    }

    /// Takes the entry `id` out and hands it over; the error where there is
    /// none, and then the catalog stays as it was.
    pub fn remove(&mut self, id: u64) -> (r: Result<GooseberryEntry, Sorry>)
        requires
            old(self)@.wf(),
        ensures
            match r {
                Ok(entry) => old(self)@.entries.contains_key(id) && entry@ == old(self)@.entries[id]
                    && final(self)@ == old(self)@.remove(id),
                Err(e) => !old(self)@.entries.contains_key(id) && e@ == old(self)@.missing(id)
                    && final(self)@ == old(self)@,
            },
            final(self)@.wf(),
            final(self)@.entry_type == old(self)@.entry_type,
    {
        proof {
            lemma_catalog_invariant(old(self)@, arbitrary(), id);
            lemma_place_of(self.visible_ids@, id);
        }
        let entry = match self.entries.remove(&id) {
            Some(entry) => entry,
            None => {
                assert(self@.entries =~= old(self)@.entries);
                return Err(Sorry::MissingEntryID { entry_type: self.entry_type, entry_id: id });
            },
        };
        let mut i: usize = 0;
        while i < self.visible_ids.len() && self.visible_ids[i] != id
            invariant
                i <= self.visible_ids.len(),
                self.visible_ids@ == old(self).visible_ids@,
                forall|j: int| 0 <= j < i ==> self.visible_ids@[j] != id,
            decreases self.visible_ids.len() - i,
        {
            i += 1;
        }
        if i < self.visible_ids.len() {
            self.visible_ids.remove(i);
        }
        assert(self@.entries =~= old(self)@.entries.remove(id));
        Ok(entry)
    }

    /// The entry `id`, if there is one.
    pub fn get(&self, id: u64) -> (r: Option<&GooseberryEntry>)
        ensures
            match r {
                Some(entry) => self@.entries.contains_key(id) && entry@ == self@.entries[id],
                None => !self@.entries.contains_key(id),
            },
    {
        self.entries.get(&id)
    }

    /// Whether there is an entry `id`.
    pub fn contains(&self, id: u64) -> (r: bool)
        ensures
            r == self@.entries.contains_key(id),
    {
        self.entries.contains_key(&id)
    }

    /// The identifier for the next new entry: greater than every one in use.
    pub fn next_available_id(&self) -> (r: u64)
        requires
            self@.wf(),
        ensures
            r == self@.next_id,
            forall|id: u64| self@.entries.contains_key(id) ==> id < r,
            forall|i: int| 0 <= i < self@.visible_ids.len() ==> self@.visible_ids[i] < r,
    {
        assert forall|i: int| 0 <= i < self@.visible_ids.len() implies self@.visible_ids[i]
            < self.next_id by {
            assert(self@.visible_ids.contains(self@.visible_ids[i]));
        }
        self.next_id
    }

    /// The kind of the entries.
    pub fn entry_type(&self) -> (r: GooseberryEntryType)
        ensures
            r == self@.entry_type,
    {
        self.entry_type
    }

    /// The identifiers in the order in which the entries are shown.
    pub fn visible_ids(&self) -> (r: &Vec<u64>)
        ensures
            r@ == self@.visible_ids,
    {
        &self.visible_ids
    }

    /// The entries as pieces of styled text, in the order of their moments;
    /// in short where `fold`.
    pub fn styled_texts(&self, fold: bool, terminal_width: u16) -> (r: Result<
        Vec<StyledText>,
        Sorry,
    >)
        ensures
            ({
                let shown = listing(self@.entries, self@.visible_ids, fold, terminal_width);
                match r {
                    Ok(texts) => shown == Ok::<Seq<StyledTextView>, SorryView>(texts.deep_view()),
                    Err(e) => shown == Err::<Seq<StyledTextView>, SorryView>(e@),
                }
            }),
    {
        GooseberryEntry::entries_to_styled_texts_same_type(
            &self.entries,
            self.visible_ids.as_slice(),
            fold,
            terminal_width,
        )
    }

    /// The number of entries.
    pub fn len(&self) -> (r: usize)
        ensures
            r == self@.visible_ids.len(),
    {
        self.visible_ids.len()
    }
}

/// An error among the first texts is the error of all the texts.
pub proof fn lemma_loaded_error(
    entry_type: GooseberryEntryType,
    contents: Seq<Seq<char>>,
    k: int,
)
    requires
        0 <= k <= contents.len(),
        CatalogView::loaded(entry_type, contents.take(k)) is Err,
    ensures
        CatalogView::loaded(entry_type, contents) == CatalogView::loaded(
            entry_type,
            contents.take(k),
        ),
    decreases contents.len() - k,
{
    if k < contents.len() {
        assert(contents.take(k + 1).drop_last() == contents.take(k));
        lemma_loaded_error(entry_type, contents, k + 1);
    } else {
        assert(contents.take(k) == contents);
    }
}

} // verus!
