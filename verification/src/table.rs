//! Tables of records, one for each identifier.

use crate::ident::Uuid;
use crate::model::views;
use vstd::prelude::*;

verus! {

/// A record that is found by its identifier.
pub trait Record: View + Sized {
    /// The identifier of a record.
    spec fn key_of(v: Self::V) -> Uuid;

    /// The identifier of a record.
    fn key(&self) -> (r: Uuid)
        ensures
            r == Self::key_of(self@),
    ;
}

/// The place of the first record with an identifier, or the number of records
/// where there is none.
pub open spec fn place_of<T: Record>(s: Seq<T::V>, id: Uuid) -> int
    decreases s.len(),
{
    if s.len() == 0 {
        0
    } else {
        let before = place_of::<T>(s.drop_last(), id);
        if before < s.len() - 1 || T::key_of(s.last()) == id {
            before
        } else {
            s.len() as int
        }
    }
}

/// Where the place of an identifier lies, and what stands before it.
pub proof fn lemma_place_of<T: Record>(s: Seq<T::V>, id: Uuid)
    ensures
        0 <= place_of::<T>(s, id) <= s.len(),
        place_of::<T>(s, id) < s.len() ==> T::key_of(s[place_of::<T>(s, id)]) == id,
        forall|i: int|
            0 <= i < place_of::<T>(s, id) ==> T::key_of(#[trigger] s[i]) != id,
    decreases s.len(),
{
    if s.len() > 0 {
        let d = s.drop_last();
        lemma_place_of::<T>(d, id);
        assert forall|i: int| 0 <= i < place_of::<T>(s, id) implies T::key_of(#[trigger] s[i])
            != id by {
            if i < d.len() {
                assert(d[i] == s[i]);
            }
        }
    }
}

/// The record with an identifier.
pub open spec fn found<T: Record>(s: Seq<T::V>, id: Uuid) -> Option<T::V> {
    let i = place_of::<T>(s, id);
    if i < s.len() {
        Some(s[i])
    } else {
        None
    }
}

/// The records with one more, or with one in the place of that of its identifier.
pub open spec fn with_record<T: Record>(s: Seq<T::V>, v: T::V) -> Seq<T::V> {
    let i = place_of::<T>(s, T::key_of(v));
    if i < s.len() {
        s.update(i, v)
    } else {
        s.push(v)
    }
}

/// The records without that of an identifier.
pub open spec fn without_record<T: Record>(s: Seq<T::V>, id: Uuid) -> Seq<T::V> {
    s.filter(|v: T::V| T::key_of(v) != id)
}

/// Whether no two records have the same identifier.
pub open spec fn all_distinct<T: Record>(s: Seq<T::V>) -> bool {
    forall|i: int, j: int|
        0 <= i < j < s.len() ==> T::key_of(#[trigger] s[i]) != T::key_of(#[trigger] s[j])
}

/// A table of records, one for each identifier.
pub struct Table<T: Record> {
    rows: Vec<T>,
}

impl<T: Record> View for Table<T> {
    type V = Seq<T::V>;

    closed spec fn view(&self) -> Seq<T::V> {
        views(self.rows@)
    }
}

impl<T: Record> Table<T> {
    /// No two records have the same identifier.
    #[verifier::type_invariant]
    spec fn one_for_each(self) -> bool {
        all_distinct::<T>(views(self.rows@))
    }

    /// An empty table.
    pub fn new() -> (r: Table<T>)
        ensures
            r@ == Seq::<T::V>::empty(),
    {
        let r = Table { rows: Vec::new() };
        assert(views(r.rows@) =~= Seq::<T::V>::empty());
        r
    }

    fn place(&self, id: Uuid) -> (r: usize)
        ensures
            r == place_of::<T>(self@, id),
            r <= self.rows.len(),
            views(self.rows@) == self@,
    {
        let mut i: usize = 0;
        while i < self.rows.len()
            invariant
                i <= self.rows.len(),
                forall|j: int| 0 <= j < i ==> T::key_of(#[trigger] self@[j]) != id,
            decreases self.rows.len() - i,
        {
            if self.rows[i].key() == id {
                proof {
                    lemma_place_of::<T>(self@, id);
                    assert(T::key_of(self@[i as int]) == id);
                }
                return i;
            }
            assert(self@[i as int] == self.rows@[i as int]@);
            i += 1;
        }
        proof {
            lemma_place_of::<T>(self@, id);
        }
        i
    }

    /// The record with an identifier.
    pub fn get(&self, id: Uuid) -> (r: Option<&T>)
        ensures
            (match r {
                Some(v) => Some(v@),
                None => None,
            }) == found::<T>(self@, id),
    {
        let i = self.place(id);
        if i < self.rows.len() {
            Some(&self.rows[i])
        } else {
            None
        }
    }

    /// Writes a record, over that of the same identifier where there is one.
    pub fn upsert(&mut self, record: T)
        ensures
            final(self)@ == with_record::<T>(old(self)@, record@),
    {
        proof {
            use_type_invariant(&*self);
            law_written_record_is_read_back::<T>(self@, record@, T::key_of(record@));
        }
        let i = self.place(record.key());
        let ghost v = record@;
        let mut rows: Vec<T> = Vec::new();
        assert(views(rows@) =~= Seq::<T::V>::empty());
        std::mem::swap(&mut rows, &mut self.rows);
        let ghost before = rows@;
        if i < rows.len() {
            rows.set(i, record);
            assert(views(rows@) =~= views(before).update(i as int, v));
        } else {
            rows.push(record);
            assert(views(rows@) =~= views(before).push(v));
        }
        self.rows = rows;
    }

    /// Removes the record with an identifier.
    pub fn delete(&mut self, id: Uuid)
        ensures
            final(self)@ == without_record::<T>(old(self)@, id),
    {
        proof {
            use_type_invariant(&*self);
            law_removed_record_is_gone::<T>(self@, id, id);
            lemma_without_record::<T>(self@, id);
        }
        let i = self.place(id);
        let mut rows: Vec<T> = Vec::new();
        assert(views(rows@) =~= Seq::<T::V>::empty());
        std::mem::swap(&mut rows, &mut self.rows);
        let ghost before = rows@;
        if i < rows.len() {
            let _ = rows.remove(i);
            assert(views(rows@) =~= views(before).remove(i as int));
        }
        self.rows = rows;
    }
}

/// Without duplicates, the record of an identifier is the only one left out.
proof fn lemma_without_record<T: Record>(s: Seq<T::V>, id: Uuid)
    requires
        all_distinct::<T>(s),
    ensures
        without_record::<T>(s, id) == (if place_of::<T>(s, id) < s.len() {
            s.remove(place_of::<T>(s, id))
        } else {
            s
        }),
    decreases s.len(),
{
    reveal(Seq::filter);
    lemma_place_of::<T>(s, id);
    if s.len() > 0 {
        let d = s.drop_last();
        let n = s.len() - 1;
        lemma_place_of::<T>(d, id);
        lemma_without_record::<T>(d, id);
        let i = place_of::<T>(d, id);
        if i < n {
            assert(T::key_of(s[i]) != T::key_of(s[n]));
            assert(s.remove(i) =~= d.remove(i).push(s[n]));
        } else if T::key_of(s[n]) == id {
            assert(s.remove(n) =~= d);
        } else {
            assert(d.push(s[n]) =~= s);
        }
    }
}

/// What stands under an identifier is what stands before the last record, or else
/// the last record itself.
proof fn lemma_found_last<T: Record>(s: Seq<T::V>, id: Uuid)
    requires
        s.len() > 0,
    ensures
        found::<T>(s, id) == (match found::<T>(s.drop_last(), id) {
            Some(v) => Some(v),
            None => if T::key_of(s.last()) == id {
                Some(s.last())
            } else {
                None
            },
        }),
{
    lemma_place_of::<T>(s.drop_last(), id);
    lemma_place_of::<T>(s, id);
}

/// A record that was written is read back, and no other is changed; the table
/// still holds one record for each identifier.
pub proof fn law_written_record_is_read_back<T: Record>(s: Seq<T::V>, v: T::V, other: Uuid)
    ensures
        found::<T>(with_record::<T>(s, v), T::key_of(v)) == Some(v),
        other != T::key_of(v) ==> found::<T>(with_record::<T>(s, v), other) == found::<T>(s, other),
        all_distinct::<T>(s) ==> all_distinct::<T>(with_record::<T>(s, v)),
{
    let id = T::key_of(v);
    let w = with_record::<T>(s, v);
    lemma_place_of::<T>(s, id);
    lemma_place_of::<T>(w, id);
    lemma_place_of::<T>(s, other);
    lemma_place_of::<T>(w, other);
    let i = place_of::<T>(s, id);
    assert(T::key_of(w[i]) == id);
    let (a, b) = (place_of::<T>(s, other), place_of::<T>(w, other));
    assert(place_of::<T>(w, id) == i) by {
        if place_of::<T>(w, id) < i {
            assert(w[place_of::<T>(w, id)] == s[place_of::<T>(w, id)]);
        }
    }
    if other != id {
        if a < b && a < s.len() {
            assert(w[a] == s[a]);
        }
        if b < a && b < w.len() {
            assert(w[b] == s[b]);
        }
    }
}

/// A record that was removed is not read back, and no other is changed; the
/// table still holds one record for each identifier.
pub proof fn law_removed_record_is_gone<T: Record>(s: Seq<T::V>, id: Uuid, other: Uuid)
    ensures
        found::<T>(without_record::<T>(s, id), id) is None,
        other != id ==> found::<T>(without_record::<T>(s, id), other) == found::<T>(s, other),
        all_distinct::<T>(s) ==> all_distinct::<T>(without_record::<T>(s, id)),
    decreases s.len(),
{
    reveal(Seq::filter);
    if s.len() > 0 {
        let d = s.drop_last();
        let w = without_record::<T>(d, id);
        let last = s.last();
        law_removed_record_is_gone::<T>(d, id, other);
        lemma_found_last::<T>(s, other);
        if T::key_of(last) != id {
            assert(w.push(last).drop_last() =~= w);
            lemma_found_last::<T>(w.push(last), id);
            lemma_found_last::<T>(w.push(last), other);
        }
        if all_distinct::<T>(s) {
            lemma_without_record::<T>(s, id);
            lemma_place_of::<T>(s, id);
            let i = place_of::<T>(s, id);
            assert forall|j: int, k: int| 0 <= j < k < without_record::<T>(s, id).len() implies T::key_of(
                #[trigger] without_record::<T>(s, id)[j],
            ) != T::key_of(#[trigger] without_record::<T>(s, id)[k]) by {
                let p = if j < i {
                    j
                } else {
                    j + 1
                };
                let q = if k < i {
                    k
                } else {
                    k + 1
                };
                if i < s.len() {
                    assert(T::key_of(s[p]) != T::key_of(s[q]));
                }
            }
        }
    }
}

impl<T: Record> Table<T> {
    /// The records, in order.
    pub fn rows(&self) -> (r: &Vec<T>)
        ensures
            views(r@) == self@,
            all_distinct::<T>(self@),
    {
        proof {
            use_type_invariant(self);
        }
        &self.rows
    }
}

} // verus!
