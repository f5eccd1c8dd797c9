//! The record store: every record under its id, no id twice, listed in ascending id order.

use vstd::prelude::*;
use crate::order::{id_lt, id_precedes, lemma_id_lt_asymmetric, lemma_id_lt_total, lemma_id_lt_transitive};
use crate::proto::{views, Student, StudentView};

verus! {

/// The contents of a store: each record under its id.
pub type Records = Map<Seq<char>, StudentView>;

/// The ids of `s` are strictly ascending, so none occurs twice.
pub open spec fn ids_ascending(s: Seq<StudentView>) -> bool {
    forall|i: int, j: int| 0 <= i < j < s.len() ==> id_lt(#[trigger] s[i].id, #[trigger] s[j].id)
}

/// Some record of `s` has the id `id`.
pub open spec fn holds_id(s: Seq<StudentView>, id: Seq<char>) -> bool {
    exists|i: int| 0 <= i < s.len() && #[trigger] s[i].id == id
}

/// `s` lists `m`: it holds the records of `m`, each under its own id and once, in ascending id
/// order.
pub open spec fn is_listing_of(s: Seq<StudentView>, m: Records) -> bool {
    &&& ids_ascending(s)
    &&& forall|i: int| 0 <= i < s.len() ==> m.contains_key(#[trigger] s[i].id) && m[s[i].id] == s[i]
    &&& forall|id: Seq<char>| #[trigger] m.contains_key(id) ==> holds_id(s, id)
}

/// The records of `m` in ascending id order: the order in which a store enumerates them.
pub open spec fn listing(m: Records) -> Seq<StudentView> {
    choose|s: Seq<StudentView>| is_listing_of(s, m)
}

/// The map that a sequence of records with distinct ids stands for.
pub open spec fn as_map(s: Seq<StudentView>) -> Records {
    Map::new(
        |id: Seq<char>| holds_id(s, id),
        |id: Seq<char>| s[choose|i: int| 0 <= i < s.len() && #[trigger] s[i].id == id],
    )
}

/// In an ascending sequence every id is at one index only.
pub proof fn lemma_ascending_distinct(s: Seq<StudentView>)
    requires
        ids_ascending(s),
    ensures
        forall|i: int, j: int|
            0 <= i < s.len() && 0 <= j < s.len() && #[trigger] s[i].id == #[trigger] s[j].id ==> i
                == j,
{
    assert forall|i: int, j: int|
        0 <= i < s.len() && 0 <= j < s.len() && #[trigger] s[i].id == #[trigger] s[j].id implies i
        == j by {
        if i < j {
            lemma_id_lt_asymmetric(s[i].id, s[j].id);
        } else if j < i {
            lemma_id_lt_asymmetric(s[j].id, s[i].id);
        }
    }
}

/// An ascending sequence lists the map it stands for.
pub proof fn lemma_ascending_lists_its_map(s: Seq<StudentView>)
    requires
        ids_ascending(s),
    ensures
        is_listing_of(s, as_map(s)),
{
    lemma_ascending_distinct(s);
    assert forall|i: int| 0 <= i < s.len() implies as_map(s).contains_key(#[trigger] s[i].id)
        && as_map(s)[s[i].id] == s[i] by {
        assert(holds_id(s, s[i].id));
    }
}

/// A map has one listing at most: two sequences that list the same map are equal.
pub proof fn lemma_listing_unique(a: Seq<StudentView>, b: Seq<StudentView>, m: Records)
    requires
        is_listing_of(a, m),
        is_listing_of(b, m),
    ensures
        a == b,
    decreases a.len(),
{
    if a.len() == 0 {
        if b.len() > 0 {
            assert(m.contains_key(b[0].id));
            assert(holds_id(a, b[0].id));
        }
        assert(a =~= b);
    } else {
        assert(m.contains_key(a[0].id));
        assert(holds_id(b, a[0].id));
        let j = choose|j: int| 0 <= j < b.len() && #[trigger] b[j].id == a[0].id;
        assert(m.contains_key(b[0].id));
        assert(holds_id(a, b[0].id));
        let i = choose|i: int| 0 <= i < a.len() && #[trigger] a[i].id == b[0].id;
        if j > 0 {
            assert(id_lt(b[0].id, b[j].id));
            if i > 0 {
                assert(id_lt(a[0].id, a[i].id));
            }
            lemma_id_lt_asymmetric(b[0].id, a[0].id);
        }
        assert(a[0] == b[0]);
        let key = a[0].id;
        let rest_a = a.drop_first();
        let rest_b = b.drop_first();
        let rest_m = m.remove(key);
        lemma_rest_is_listing(a, m);
        lemma_rest_is_listing(b, m);
        lemma_listing_unique(rest_a, rest_b, rest_m);
        assert(a =~= seq![a[0]] + rest_a);
        assert(b =~= seq![b[0]] + rest_b);
    }
}

proof fn lemma_rest_is_listing(a: Seq<StudentView>, m: Records)
    requires
        is_listing_of(a, m),
        a.len() > 0,
    ensures
        is_listing_of(a.drop_first(), m.remove(a[0].id)),
{
    let rest = a.drop_first();
    let rest_m = m.remove(a[0].id);
    lemma_ascending_distinct(a);
    assert forall|i: int, j: int| 0 <= i < j < rest.len() implies id_lt(
        #[trigger] rest[i].id,
        #[trigger] rest[j].id,
    ) by {
        assert(rest[i] == a[i + 1] && rest[j] == a[j + 1]);
    }
    assert forall|i: int| 0 <= i < rest.len() implies rest_m.contains_key(#[trigger] rest[i].id)
        && rest_m[rest[i].id] == rest[i] by {
        assert(rest[i] == a[i + 1]);
    }
    assert forall|id: Seq<char>| #[trigger] rest_m.contains_key(id) implies holds_id(rest, id) by {
        assert(m.contains_key(id));
        let i = choose|i: int| 0 <= i < a.len() && #[trigger] a[i].id == id;
        assert(rest[i - 1] == a[i]);
    }
}

/// What a listing says of `listing`: a map that some sequence lists is listed by `listing`.
pub proof fn lemma_listing_of(s: Seq<StudentView>, m: Records)
    requires
        is_listing_of(s, m),
    ensures
        listing(m) == s,
{
    lemma_listing_unique(listing(m), s, m);
}


/// A listing is as long as its map has ids, and only a map of finitely many ids has one.
pub proof fn lemma_listing_len(s: Seq<StudentView>, m: Records)
    requires
        is_listing_of(s, m),
    ensures
        m.dom().finite(),
        m.dom().len() == s.len(),
    decreases s.len(),
{
    if s.len() == 0 {
        assert forall|id: Seq<char>| !m.dom().contains(id) by {
            if m.contains_key(id) {
                assert(holds_id(s, id));
            }
        }
        assert(m.dom() =~= Set::<Seq<char>>::empty());
    } else {
        let key = s[0].id;
        lemma_rest_is_listing(s, m);
        lemma_listing_len(s.drop_first(), m.remove(key));
        assert(m.contains_key(key));
        assert(m.dom() =~= m.remove(key).dom().insert(key));
    }
}

/// Some sequence lists `m`. Every store holds such a map: its domain is finite and each record
/// is under its own id.
pub open spec fn has_listing(m: Records) -> bool {
    exists|s: Seq<StudentView>| is_listing_of(s, m)
}

/// A sequence lists one map only.
pub proof fn lemma_listed_map_unique(s: Seq<StudentView>, m1: Records, m2: Records)
    requires
        is_listing_of(s, m1),
        is_listing_of(s, m2),
    ensures
        m1 == m2,
{
    assert forall|id: Seq<char>| m1.contains_key(id) == m2.contains_key(id) && (m1.contains_key(id)
        ==> m1[id] == m2[id]) by {
        if m1.contains_key(id) {
            let i = choose|i: int| 0 <= i < s.len() && #[trigger] s[i].id == id;
            assert(m2.contains_key(s[i].id));
        }
        if m2.contains_key(id) {
            let i = choose|i: int| 0 <= i < s.len() && #[trigger] s[i].id == id;
            assert(m1.contains_key(s[i].id));
        }
    }
    assert(m1 =~= m2);
}

/// An id that falls between two neighbours of a listing is not in the map.
proof fn lemma_gap_is_absent(s: Seq<StudentView>, m: Records, p: int, id: Seq<char>)
    requires
        is_listing_of(s, m),
        0 <= p <= s.len(),
        forall|k: int| 0 <= k < p ==> id_lt(#[trigger] s[k].id, id),
        forall|k: int| p <= k < s.len() ==> id_lt(id, #[trigger] s[k].id),
    ensures
        forall|k: int| 0 <= k < s.len() ==> #[trigger] s[k].id != id,
        !m.contains_key(id),
{
    assert forall|k: int| 0 <= k < s.len() implies #[trigger] s[k].id != id by {
        if k < p {
            lemma_id_lt_asymmetric(s[k].id, id);
        } else {
            lemma_id_lt_asymmetric(id, s[k].id);
        }
    }
    if m.contains_key(id) {
        assert(holds_id(s, id));
    }
}

/// Putting a record with a new id at its place in the order lists the map with the record
/// added.
proof fn lemma_insert_lists(s: Seq<StudentView>, m: Records, p: int, r: StudentView)
    requires
        is_listing_of(s, m),
        0 <= p <= s.len(),
        forall|k: int| 0 <= k < p ==> id_lt(#[trigger] s[k].id, r.id),
        forall|k: int| p <= k < s.len() ==> id_lt(r.id, #[trigger] s[k].id),
    ensures
        !m.contains_key(r.id),
        is_listing_of(s.insert(p, r), m.insert(r.id, r)),
{
    let t = s.insert(p, r);
    let n = m.insert(r.id, r);
    lemma_gap_is_absent(s, m, p, r.id);
    assert forall|i: int, j: int| 0 <= i < j < t.len() implies id_lt(
        #[trigger] t[i].id,
        #[trigger] t[j].id,
    ) by {
        let a = if i < p { i } else { i - 1 };
        let b = if j < p { j } else { j - 1 };
        if i != p && j != p {
            assert(t[i] == s[a] && t[j] == s[b]);
        } else if i == p {
            assert(t[j] == s[b]);
        } else {
            assert(t[i] == s[a]);
        }
    }
    assert forall|i: int| 0 <= i < t.len() implies n.contains_key(#[trigger] t[i].id) && n[t[i].id]
        == t[i] by {
        if i < p {
            assert(t[i] == s[i]);
        } else if i > p {
            assert(t[i] == s[i - 1]);
        }
    }
    assert forall|id: Seq<char>| #[trigger] n.contains_key(id) implies holds_id(t, id) by {
        if id == r.id {
            assert(t[p].id == id);
        } else {
            assert(m.contains_key(id));
            let i = choose|i: int| 0 <= i < s.len() && #[trigger] s[i].id == id;
            if i < p {
                assert(t[i].id == id);
            } else {
                assert(t[i + 1].id == id);
            }
        }
    }
}

/// Overwriting a record by one with the same id lists the map with that id rebound.
proof fn lemma_update_lists(s: Seq<StudentView>, m: Records, p: int, r: StudentView)
    requires
        is_listing_of(s, m),
        0 <= p < s.len(),
        s[p].id == r.id,
    ensures
        is_listing_of(s.update(p, r), m.insert(r.id, r)),
{
    let t = s.update(p, r);
    let n = m.insert(r.id, r);
    lemma_ascending_distinct(s);
    assert forall|i: int, j: int| 0 <= i < j < t.len() implies id_lt(
        #[trigger] t[i].id,
        #[trigger] t[j].id,
    ) by {
        assert(t[i].id == s[i].id && t[j].id == s[j].id);
    }
    assert forall|i: int| 0 <= i < t.len() implies n.contains_key(#[trigger] t[i].id) && n[t[i].id]
        == t[i] by {
        if i != p {
            assert(t[i] == s[i]);
        }
    }
    assert forall|id: Seq<char>| #[trigger] n.contains_key(id) implies holds_id(t, id) by {
        if id == r.id {
            assert(t[p].id == id);
        } else {
            assert(m.contains_key(id));
            let i = choose|i: int| 0 <= i < s.len() && #[trigger] s[i].id == id;
            assert(t[i].id == id);
        }
    }
}

/// Taking a record out lists the map without its id.
proof fn lemma_remove_lists(s: Seq<StudentView>, m: Records, p: int)
    requires
        is_listing_of(s, m),
        0 <= p < s.len(),
    ensures
        is_listing_of(s.remove(p), m.remove(s[p].id)),
{
    let t = s.remove(p);
    let n = m.remove(s[p].id);
    lemma_ascending_distinct(s);
    assert forall|i: int, j: int| 0 <= i < j < t.len() implies id_lt(
        #[trigger] t[i].id,
        #[trigger] t[j].id,
    ) by {
        let a = if i < p { i } else { i + 1 };
        let b = if j < p { j } else { j + 1 };
        assert(t[i] == s[a] && t[j] == s[b]);
    }
    assert forall|i: int| 0 <= i < t.len() implies n.contains_key(#[trigger] t[i].id) && n[t[i].id]
        == t[i] by {
        let a = if i < p { i } else { i + 1 };
        assert(t[i] == s[a]);
    }
    assert forall|id: Seq<char>| #[trigger] n.contains_key(id) implies holds_id(t, id) by {
        assert(m.contains_key(id));
        let i = choose|i: int| 0 <= i < s.len() && #[trigger] s[i].id == id;
        if i < p {
            assert(t[i].id == id);
        } else {
            assert(t[i - 1].id == id);
        }
    }
}

/// A store of student records, each under its id. It holds at most one record per id and
/// enumerates its records in ascending id order, so that two enumerations with no change
/// between them agree.
///
/// Reading takes `&self` and changing takes `&mut self`: many readers or one writer, as the
/// borrow rules have it. Whoever shares a store between threads puts it behind a lock.
#[derive(Debug)]
pub struct StudentStore {
    records: Vec<Student>,
}

impl View for StudentStore {
    type V = Records;

    closed spec fn view(&self) -> Records {
        as_map(views(self.records@))
    }
}

impl StudentStore {
    #[verifier::type_invariant]
    spec fn kept_ascending(&self) -> bool {
        ids_ascending(views(self.records@))
    }

    /// The empty store.
    pub fn new() -> (store: Self)
        ensures
            store@ == Map::<Seq<char>, StudentView>::empty(),
    {
        let store = StudentStore { records: Vec::new() };
        assert(store@ =~= Map::<Seq<char>, StudentView>::empty());
        store
    }

    /// The first index whose record does not come before `id`.
    fn lower_bound(&self, id: &str) -> (p: usize)
        ensures
            p <= self.records.len(),
            forall|k: int| 0 <= k < p ==> id_lt(#[trigger] self.records[k]@.id, id@),
            forall|k: int| p <= k < self.records.len() ==> !id_lt(#[trigger] self.records[k]@.id, id@),
    {
        proof {
            use_type_invariant(self);
        }
        let ghost s = views(self.records@);
        let mut lo: usize = 0;
        let mut hi: usize = self.records.len();
        while lo < hi
            invariant
                lo <= hi <= self.records.len(),
                s == views(self.records@),
                ids_ascending(s),
                forall|k: int| 0 <= k < lo ==> id_lt(#[trigger] self.records[k]@.id, id@),
                forall|k: int| hi <= k < self.records.len() ==> !id_lt(#[trigger] self.records[k]@.id, id@),
            decreases hi - lo,
        {
            let mid = lo + (hi - lo) / 2;
            if id_precedes(self.records[mid].id.as_str(), id) {
                proof {
                    assert forall|k: int| 0 <= k < mid + 1 implies id_lt(
                        #[trigger] self.records[k]@.id,
                        id@,
                    ) by {
                        if k < mid {
                            assert(id_lt(s[k].id, s[mid as int].id));
                            lemma_id_lt_transitive(s[k].id, s[mid as int].id, id@);
                        }
                    }
                }
                lo = mid + 1;
            } else {
                proof {
                    assert forall|k: int| mid <= k < self.records.len() implies !id_lt(
                        #[trigger] self.records[k]@.id,
                        id@,
                    ) by {
                        if k > mid && id_lt(s[k].id, id@) {
                            assert(id_lt(s[mid as int].id, s[k].id));
                            lemma_id_lt_transitive(s[mid as int].id, s[k].id, id@);
                        }
                    }
                }
                hi = mid;
            }
        }
        lo
    }

    /// The index of the record with the id `id`, if there is one.
    fn position(&self, id: &str) -> (found: Result<usize, usize>)
        ensures
            match found {
                Ok(p) => p < self.records.len() && self.records[p as int]@.id == id@,
                Err(p) => {
                    &&& p <= self.records.len()
                    &&& forall|k: int| 0 <= k < p ==> id_lt(#[trigger] self.records[k]@.id, id@)
                    &&& forall|k: int|
                        p <= k < self.records.len() ==> id_lt(id@, #[trigger] self.records[k]@.id)
                },
            },
    {
        proof {
            use_type_invariant(self);
        }
        let ghost s = views(self.records@);
        let p = self.lower_bound(id);
        if p < self.records.len() {
            if !id_precedes(id, self.records[p].id.as_str()) {
                proof {
                    lemma_id_lt_total(s[p as int].id, id@);
                }
                return Ok(p);
            }
            proof {
                assert forall|k: int| p <= k < self.records.len() implies id_lt(
                    id@,
                    #[trigger] self.records[k]@.id,
                ) by {
                    if k > p {
                        assert(id_lt(s[p as int].id, s[k].id));
                        lemma_id_lt_transitive(id@, s[p as int].id, s[k].id);
                    }
                }
            }
        }
        Err(p)
    }

    /// The record with the id `id`, or `None` where the store holds none.
    pub fn get(&self, id: &str) -> (found: Option<&Student>)
        ensures
            found is Some == self@.contains_key(id@),
            found matches Some(record) ==> record@ == self@[id@] && record@.id == id@,
    {
        proof {
            use_type_invariant(self);
            lemma_ascending_lists_its_map(views(self.records@));
        }
        match self.position(id) {
            Ok(p) => {
                assert(views(self.records@)[p as int].id == id@);
                Some(&self.records[p])
            },
            Err(p) => {
                proof {
                    lemma_gap_is_absent(views(self.records@), self@, p as int, id@);
                }
                None
            },
        }
    }

    /// Stores `record` under its id unless the store holds that id already, in one step, and
    /// says whether it did. Nothing else in the store changes.
    pub fn insert_if_absent(&mut self, record: Student) -> (inserted: bool)
        ensures
            inserted == !old(self)@.contains_key(record@.id),
            final(self)@ == if inserted {
                old(self)@.insert(record@.id, record@)
            } else {
                old(self)@
            },
            has_listing(final(self)@),
    {
        proof {
            use_type_invariant(&*self);
            lemma_ascending_lists_its_map(views(self.records@));
        }
        let ghost before = views(self.records@);
        let ghost after;
        match self.position(record.id.as_str()) {
            Ok(p) => {
                assert(before[p as int].id == record@.id);
                false
            },
            Err(p) => {
                proof {
                    after = before.insert(p as int, record@);
                    lemma_insert_lists(before, self@, p as int, record@);
                    lemma_ascending_lists_its_map(after);
                    lemma_listed_map_unique(after, as_map(after), self@.insert(record@.id, record@));
                    assert(views(self.records@.insert(p as int, record)) =~= after);
                }
                let mut records: Vec<Student> = Vec::new();
                core::mem::swap(&mut self.records, &mut records);
                records.insert(p, record);
                self.records = records;
                true
            },
        }
    }

    /// Puts `record` in place of the record that has its id, where the store holds one, and
    /// says whether it did. Nothing else in the store changes.
    pub fn replace(&mut self, record: Student) -> (replaced: bool)
        ensures
            replaced == old(self)@.contains_key(record@.id),
            final(self)@ == if replaced {
                old(self)@.insert(record@.id, record@)
            } else {
                old(self)@
            },
            has_listing(final(self)@),
    {
        proof {
            use_type_invariant(&*self);
            lemma_ascending_lists_its_map(views(self.records@));
        }
        let ghost before = views(self.records@);
        let ghost after;
        match self.position(record.id.as_str()) {
            Ok(p) => {
                proof {
                    after = before.update(p as int, record@);
                    assert(before[p as int].id == record@.id);
                    lemma_update_lists(before, self@, p as int, record@);
                    lemma_ascending_lists_its_map(after);
                    lemma_listed_map_unique(after, as_map(after), self@.insert(record@.id, record@));
                    assert(views(self.records@.update(p as int, record)) =~= after);
                }
                let mut records: Vec<Student> = Vec::new();
                core::mem::swap(&mut self.records, &mut records);
                records[p] = record;
                self.records = records;
                true
            },
            Err(p) => {
                proof {
                    lemma_gap_is_absent(before, self@, p as int, record@.id);
                }
                false
            },
        }
    }

    /// Takes out the record with the id `id` and returns it, or `None` where the store holds
    /// none. Nothing else in the store changes.
    pub fn remove(&mut self, id: &str) -> (removed: Option<Student>)
        ensures
            removed is Some == old(self)@.contains_key(id@),
            removed matches Some(record) ==> record@ == old(self)@[id@] && record@.id == id@,
            final(self)@ == old(self)@.remove(id@),
            has_listing(final(self)@),
    {
        proof {
            use_type_invariant(&*self);
            lemma_ascending_lists_its_map(views(self.records@));
        }
        let ghost before = views(self.records@);
        let ghost after;
        match self.position(id) {
            Ok(p) => {
                proof {
                    after = before.remove(p as int);
                    assert(before[p as int].id == id@);
                    lemma_remove_lists(before, self@, p as int);
                    lemma_ascending_lists_its_map(after);
                    lemma_listed_map_unique(after, as_map(after), self@.remove(id@));
                    assert(views(self.records@.remove(p as int)) =~= after);
                }
                let mut records: Vec<Student> = Vec::new();
                core::mem::swap(&mut self.records, &mut records);
                let record = records.remove(p);
                self.records = records;
                Some(record)
            },
            Err(p) => {
                proof {
                    lemma_gap_is_absent(before, self@, p as int, id@);
                    assert(self@.remove(id@) =~= self@);
                }
                None
            },
        }
    }

    /// How many records the store holds.
    pub fn len(&self) -> (count: usize)
        ensures
            count == self@.dom().len(),
            count == listing(self@).len(),
            has_listing(self@),
    {
        proof {
            use_type_invariant(self);
            lemma_ascending_lists_its_map(views(self.records@));
            lemma_listing_of(views(self.records@), self@);
            lemma_listing_len(views(self.records@), self@);
        }
        self.records.len()
    }

    /// A copy of every record, in ascending id order.
    pub fn snapshot(&self) -> (all: Vec<Student>)
        ensures
            views(all@) == listing(self@),
            has_listing(self@),
    {
        proof {
            use_type_invariant(self);
            lemma_ascending_lists_its_map(views(self.records@));
            lemma_listing_of(views(self.records@), self@);
        }
        let mut all: Vec<Student> = Vec::new();
        let mut i: usize = 0;
        while i < self.records.len()
            invariant
                i <= self.records.len(),
                all.len() == i,
                forall|k: int| 0 <= k < i ==> all[k]@ == self.records[k]@,
            decreases self.records.len() - i,
        {
            all.push(self.records[i].clone());
            i += 1;
        }
        assert(views(all@) =~= views(self.records@));
        all
    }
}

} // verus!
