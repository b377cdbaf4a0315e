//! A table of records of one kind: the operations that create, read, update,
//! delete and list them, over a map of their byte forms.

use crate::bounded_map::BoundedMap;
use crate::counter::{increment_failed_text, IdCounter};
use crate::error::{corrupt_text, not_found_text, too_large_text, Error, ErrorView};
use crate::listing::{is_listing, lemma_listing_is, lemma_listing_len, listing};
use crate::record::Record;
use std::marker::PhantomData;
use vstd::pervasive::unreached;
use vstd::prelude::*;

verus! {

/// Whether every byte string of `image` is the form of a record that carries
/// its key as its identifier.
pub open spec fn holds_records<T: Record>(image: Map<u64, Seq<u8>>) -> bool {
    forall|k: u64| #[trigger]
        image.contains_key(k) ==> match T::decoding(image[k]) {
            Some(v) => T::id_of(v) == k,
            None => false,
        }
}

/// The records that the byte strings of `image` are the forms of.
pub open spec fn records<T: Record>(image: Map<u64, Seq<u8>>) -> Map<u64, T::V> {
    Map::new(|k: u64| image.contains_key(k), |k: u64| T::decoding(image[k]).unwrap())
}

/// The records of a sequence, each with its identifier before it.
pub open spec fn rows<T: Record>(s: Seq<T>) -> Seq<(u64, T::V)> {
    Seq::new(s.len(), |i: int| (T::id_of(s[i]@), s[i]@))
}

/// What looking up `id` among the records `m` gives: the record, or the
/// failure of the lookup.
pub open spec fn lookup<T: Record>(m: Map<u64, T::V>, id: u64) -> Result<T::V, ErrorView> {
    if m.contains_key(id) {
        Ok(m[id])
    } else {
        Err(ErrorView::NotFound { msg: not_found_text(T::kind_text(), id) })
    }
}

/// A record that was stored under an identifier, by entering it or by
/// updating it, is what a lookup of that identifier gives afterwards; the
/// lookups of the other identifiers give what they gave.
pub proof fn lemma_lookup_stored<T: Record>(before: Map<u64, T::V>, id: u64, v: T::V, other: u64)
    requires
        other != id,
    ensures
        lookup::<T>(before.insert(id, v), id) == Ok::<T::V, ErrorView>(v),
        lookup::<T>(before.insert(id, v), other) == lookup::<T>(before, other),
{
}

/// After a record was deleted the lookup of its identifier fails; the
/// lookups of the other identifiers give what they gave.
pub proof fn lemma_lookup_deleted<T: Record>(before: Map<u64, T::V>, id: u64, other: u64)
    requires
        other != id,
    ensures
        lookup::<T>(before.remove(id), id) == Err::<T::V, ErrorView>(
            ErrorView::NotFound { msg: not_found_text(T::kind_text(), id) },
        ),
        lookup::<T>(before.remove(id), other) == lookup::<T>(before, other),
{
}

/// A table of records of the kind `T`, each under its identifier.
pub struct Table<T: Record> {
    map: BoundedMap,
    kind: PhantomData<T>,
}

impl<T: Record> View for Table<T> {
    type V = Map<u64, T::V>;

    closed spec fn view(&self) -> Map<u64, T::V> {
        records::<T>(self.map@)
    }
}

impl<T: Record> Table<T> {
    /// The number of the segment that holds the table.
    pub closed spec fn handle(&self) -> u8 {
        self.map.handle()
    }

    /// The table holds finitely many byte strings, each the form of a record
    /// that carries its key as its identifier.
    pub closed spec fn wf(&self) -> bool {
        holds_records::<T>(self.map@) && self.map@.dom().finite()
    }

    /// In a table every record stands under its identifier, and there are
    /// finitely many.
    pub proof fn lemma_keys(&self)
        requires
            self.wf(),
        ensures
            self@.dom().finite(),
            forall|k: u64| #[trigger] self@.contains_key(k) ==> T::id_of(self@[k]) == k,
    {
        assert(self@.dom() =~= self.map@.dom());
        assert forall|k: u64| #[trigger] self@.contains_key(k) implies T::id_of(self@[k]) == k by {
            assert(self.map@.contains_key(k));
        }
    }

    /// The table over `map`, where every byte string of `map` is the form of
    /// a record that carries its key; else the failure to read it.
    pub fn over(map: BoundedMap) -> (r: Result<Table<T>, Error>)
        ensures
            match r {
                Ok(table) => {
                    &&& holds_records::<T>(map@)
                    &&& table.wf()
                    &&& table@ == records::<T>(map@)
                    &&& table.handle() == map.handle()
                },
                Err(e) => {
                    &&& !holds_records::<T>(map@)
                    &&& e@ == (ErrorView::InvalidInput { msg: corrupt_text(T::kind_text()) })
                },
            },
    {
        let entries = map.entries();
        proof {
            lemma_listing_len(map@, entries.deep_view());
        }
        let mut i: usize = 0;
        while i < entries.len()
            invariant
                i <= entries.len(),
                is_listing(map@, entries.deep_view()),
                forall|j: int|
                    0 <= j < i ==> match T::decoding(#[trigger] entries.deep_view()[j].1) {
                        Some(v) => T::id_of(v) == entries.deep_view()[j].0,
                        None => false,
                    },
            decreases entries.len() - i,
        {
            let ghost key = entries.deep_view()[i as int].0;
            assert(map@.contains_key(key) && map@[key] == entries.deep_view()[i as int].1);
            assert(entries.deep_view()[i as int].1 == entries[i as int].1@);
            assert(key == entries[i as int].0);
            let sound = match T::decode(entries[i].1.as_slice()) {
                Some(record) => record.id() == entries[i].0,
                None => false,
            };
            if !sound {
                return Err(Error::corrupt(T::kind()));
            }
            i = i + 1;
        }
        proof {
            assert forall|k: u64| #[trigger] map@.contains_key(k) implies match T::decoding(map@[k]) {
                Some(v) => T::id_of(v) == k,
                None => false,
            } by {
                let j = choose|j: int|
                    0 <= j < entries.deep_view().len() && entries.deep_view()[j].0 == k;
                assert(map@.contains_key(entries.deep_view()[j].0));
            }
        }
        Ok(Table { map, kind: PhantomData })
    }

    /// The number of the segment that holds the table.
    pub fn segment(&self) -> (n: u8)
        ensures
            n == self.handle(),
    {
        self.map.segment()
    }

    /// The record with the identifier `id`; the failure of the lookup where
    /// the table holds none.
    pub fn read(&self, id: u64) -> (r: Result<T, Error>)
        requires
            self.wf(),
        ensures
            match r {
                Ok(record) => lookup::<T>(self@, id) == Ok::<T::V, ErrorView>(record@),
                Err(e) => lookup::<T>(self@, id) == Err::<T::V, ErrorView>(e@),
            },
    {
        match self.map.get(id) {
            None => Err(Error::not_found(T::kind(), id)),
            Some(bytes) => {
                assert(self.map@.contains_key(id));
                match T::decode(bytes.as_slice()) {
                    Some(record) => Ok(record),
                    None => unreached(),
                }
            },
        }
    }

    /// Whether the table holds a record with the identifier `id`.
    pub fn contains(&self, id: u64) -> (b: bool)
        ensures
            b == self@.contains_key(id),
    {
        self.map.contains_key(id)
    }

    /// Stores `record` under its identifier, in place of what stood there,
    /// and gives it back. A record whose byte form is longer than the kind
    /// allows is refused, and the table stays as it is.
    pub fn put(&mut self, record: T) -> (r: Result<T, Error>)
        requires
            old(self).wf(),
        ensures
            final(self).wf(),
            final(self).handle() == old(self).handle(),
            match r {
                Ok(stored) => {
                    &&& T::encoding(record@).len() <= T::size_limit()
                    &&& stored == record
                    &&& final(self)@ == old(self)@.insert(T::id_of(record@), record@)
                },
                Err(e) => {
                    &&& T::encoding(record@).len() > T::size_limit()
                    &&& final(self)@ == old(self)@
                    &&& e@ == (ErrorView::InvalidInput {
                        msg: too_large_text(T::kind_text(), T::id_of(record@)),
                    })
                },
            },
    {
        let id = record.id();
        let bytes = record.encode();
        if bytes.len() > T::max_size() {
            return Err(Error::too_large(T::kind(), id));
        }
        proof {
            T::lemma_size(record@);
            T::lemma_round_trip(record@);
        }
        match self.map.insert(id, bytes.as_slice()) {
            Ok(_) => {
                proof {
                    let before = old(self).map@;
                    let after = self.map@;
                    assert forall|k: u64| #[trigger] after.contains_key(k) implies match T::decoding(
                        after[k],
                    ) {
                        Some(v) => T::id_of(v) == k,
                        None => false,
                    } by {
                        if k != id {
                            assert(before.contains_key(k));
                        }
                    }
                    assert(self@ =~= old(self)@.insert(id, record@));
                }
                Ok(record)
            },
            Err(_) => unreached(),
        }
    }

    /// Enters `draft` as a new record: takes the next identifier from
    /// `counter`, gives it to the record, stores the record and returns it.
    ///
    /// Where the counter cannot be advanced nothing changes. Where the record
    /// is too long the table stays as it is and the identifier is spent.
    pub fn create(&mut self, counter: &mut IdCounter, draft: T) -> (r: Result<T, Error>)
        requires
            old(self).wf(),
        ensures
            final(self).wf(),
            final(self).handle() == old(self).handle(),
            final(counter).handle() == old(counter).handle(),
            match r {
                Ok(record) => {
                    &&& old(counter).value() < u64::MAX
                    &&& final(counter).value() == old(counter).value() + 1
                    &&& record@ == T::stamped(draft@, final(counter).value())
                    &&& T::encoding(record@).len() <= T::size_limit()
                    &&& final(self)@ == old(self)@.insert(final(counter).value(), record@)
                },
                Err(e) => {
                    &&& final(self)@ == old(self)@
                    &&& {
                        ||| {
                            &&& final(counter).value() == old(counter).value()
                            &&& e@ == (ErrorView::InvalidInput { msg: increment_failed_text() })
                        }
                        ||| {
                            &&& old(counter).value() < u64::MAX
                            &&& final(counter).value() == old(counter).value() + 1
                            &&& T::encoding(T::stamped(draft@, final(counter).value())).len()
                                > T::size_limit()
                            &&& e@ == (ErrorView::InvalidInput {
                                msg: too_large_text(T::kind_text(), final(counter).value()),
                            })
                        }
                    }
                },
            },
            old(counter).value() == u64::MAX ==> r.is_err(),
    {
        let id = match counter.increment_and_get() {
            Ok(id) => id,
            Err(e) => {
                return Err(e);
            },
        };
        proof {
            T::lemma_stamped(draft@, id);
        }
        self.put(draft.with_id(id))
    }

    /// Replaces the record with the identifier `id` by what `change` makes of
    /// it, and gives the new record. `change` must keep the identifier.
    ///
    /// It fails, and changes nothing, where the table holds no such record
    /// or the new record is too long.
    pub fn update<F: FnOnce(T) -> T>(&mut self, id: u64, change: F) -> (r: Result<T, Error>)
        requires
            old(self).wf(),
            forall|t: T| call_requires(change, (t,)),
            forall|t: T, u: T| call_ensures(change, (t,), u) ==> T::id_of(u@) == T::id_of(t@),
        ensures
            final(self).wf(),
            final(self).handle() == old(self).handle(),
            match r {
                Ok(record) => {
                    &&& old(self)@.contains_key(id)
                    &&& exists|t: T| t@ == old(self)@[id] && call_ensures(change, (t,), record)
                    &&& T::id_of(record@) == id
                    &&& T::encoding(record@).len() <= T::size_limit()
                    &&& final(self)@ == old(self)@.insert(id, record@)
                },
                Err(e) => {
                    &&& final(self)@ == old(self)@
                    &&& {
                        ||| {
                            &&& !old(self)@.contains_key(id)
                            &&& e@ == (ErrorView::NotFound {
                                msg: not_found_text(T::kind_text(), id),
                            })
                        }
                        ||| {
                            &&& old(self)@.contains_key(id)
                            &&& exists|t: T, u: T|
                                {
                                    &&& t@ == old(self)@[id]
                                    &&& call_ensures(change, (t,), u)
                                    &&& T::encoding(u@).len() > T::size_limit()
                                }
                            &&& e@ == (ErrorView::InvalidInput {
                                msg: too_large_text(T::kind_text(), id),
                            })
                        }
                    }
                },
            },
            !old(self)@.contains_key(id) ==> r.is_err(),
    {
        let current = match self.read(id) {
            Ok(current) => current,
            Err(e) => {
                return Err(e);
            },
        };
        proof {
            self.lemma_keys();
        }
        let ghost before = current;
        let revised = change(current);
        let ghost after = revised;
        let r = self.put(revised);
        proof {
            assert(before@ == old(self)@[id] && call_ensures(change, (before,), after));
        }
        r
    }

    /// Takes the record with the identifier `id` out of the table. It fails,
    /// and changes nothing, where the table holds none.
    pub fn delete(&mut self, id: u64) -> (r: Result<(), Error>)
        requires
            old(self).wf(),
        ensures
            final(self).wf(),
            final(self).handle() == old(self).handle(),
            match r {
                Ok(_) => old(self)@.contains_key(id) && final(self)@ == old(self)@.remove(id),
                Err(e) => {
                    &&& !old(self)@.contains_key(id)
                    &&& final(self)@ == old(self)@
                    &&& e@ == (ErrorView::NotFound { msg: not_found_text(T::kind_text(), id) })
                },
            },
    {
        match self.map.remove(id) {
            Some(_) => {
                proof {
                    let before = old(self).map@;
                    let after = self.map@;
                    assert forall|k: u64| #[trigger] after.contains_key(k) implies match T::decoding(
                        after[k],
                    ) {
                        Some(v) => T::id_of(v) == k,
                        None => false,
                    } by {
                        assert(before.contains_key(k));
                    }
                    assert(self@ =~= old(self)@.remove(id));
                }
                Ok(())
            },
            None => {
                proof {
                    assert(self.map@ =~= old(self).map@);
                }
                Err(Error::not_found(T::kind(), id))
            },
        }
    }

    /// The records of the table in ascending order of their identifiers.
    pub fn list(&self) -> (all: Vec<T>)
        requires
            self.wf(),
        ensures
            is_listing(self@, rows::<T>(all@)),
            rows::<T>(all@) == listing(self@),
    {
        let entries = self.map.entries();
        let mut all: Vec<T> = Vec::new();
        let mut i: usize = 0;
        while i < entries.len()
            invariant
                i <= entries.len(),
                self.wf(),
                is_listing(self.map@, entries.deep_view()),
                all@.len() == i,
                forall|j: int|
                    0 <= j < i ==> {
                        &&& T::id_of(#[trigger] all@[j]@) == entries.deep_view()[j].0
                        &&& T::decoding(entries.deep_view()[j].1) == Some(all@[j]@)
                    },
            decreases entries.len() - i,
        {
            let ghost key = entries.deep_view()[i as int].0;
            assert(self.map@.contains_key(key) && self.map@[key] == entries.deep_view()[i as int].1);
            assert(entries.deep_view()[i as int].1 == entries[i as int].1@);
            match T::decode(entries[i].1.as_slice()) {
                Some(record) => {
                    all.push(record);
                },
                None => {
                    unreached::<()>();
                },
            }
            i = i + 1;
        }
        proof {
            let found = entries.deep_view();
            let shown = rows::<T>(all@);
            assert forall|j: int| 0 <= j < shown.len() implies self@.contains_key(
                #[trigger] shown[j].0,
            ) && self@[shown[j].0] == shown[j].1 by {
                assert(T::id_of(all@[j]@) == found[j].0);
                assert(self.map@.contains_key(found[j].0));
            }
            assert forall|a: int, b: int| 0 <= a < b < shown.len() implies #[trigger] shown[a].0
                < #[trigger] shown[b].0 by {
                assert(T::id_of(all@[a]@) == found[a].0);
                assert(T::id_of(all@[b]@) == found[b].0);
                assert(found[a].0 < found[b].0);
            }
            assert forall|k: u64| #[trigger] self@.contains_key(k) implies exists|j: int|
                0 <= j < shown.len() && #[trigger] shown[j].0 == k by {
                assert(self.map@.contains_key(k));
                let j = choose|j: int| 0 <= j < found.len() && found[j].0 == k;
                assert(T::id_of(all@[j]@) == found[j].0);
                assert(shown[j].0 == k);
            }
            lemma_listing_is(self@, shown);
        }
        all
    }
}

} // verus!
