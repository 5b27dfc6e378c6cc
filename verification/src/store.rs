//! The quest repository: an in-memory collection of quest records in
//! insertion order, with create, list, get, partial update, and
//! delete.
//!
//! The store hands out fresh identifiers at creation and keeps them
//! unique, so an identifier names at most one live record. Title
//! uniqueness is enforced at creation only; an update may change a
//! title freely without a second check.

use vstd::prelude::*;
use crate::date::Date;
use crate::model::{Quest, QueryOption, UpdateQuestSchema};

verus! {

/// Why an operation was refused. The first three are conflict
/// conditions of creation; `NotFound` names an identifier with no
/// live record.
#[derive(Debug, Clone, Copy, PartialEq, Eq, Structural)]
pub enum StoreError {
    /// A live record already carries the requested title.
    DuplicateTitle,
    /// Creation was asked for without a deadline.
    MissingDeadline,
    /// The identifier drawn for the new record is already in use.
    DuplicateId,
    /// No live record carries the given identifier.
    NotFound,
}

/// Some record in `s` carries the title `title`.
pub open spec fn has_title(s: Seq<Quest>, title: Seq<char>) -> bool {
    exists|i: int| 0 <= i < s.len() && s[i].title@ == title
}

/// Some record in `s` carries the identifier `id`.
pub open spec fn has_id(s: Seq<Quest>, id: Seq<char>) -> bool {
    exists|i: int| 0 <= i < s.len() && s[i].id@ == id
}

/// No two records of `s` share an identifier.
pub open spec fn ids_unique(s: Seq<Quest>) -> bool {
    forall|i: int, j: int| 0 <= i < j < s.len() ==> s[i].id@ != s[j].id@
}

/// No two records of `s` share a title.
pub open spec fn titles_unique(s: Seq<Quest>) -> bool {
    forall|i: int, j: int| 0 <= i < j < s.len() ==> s[i].title@ != s[j].title@
}

/// Every record of `s` carries a valid deadline and was not updated
/// before it was created.
pub open spec fn quests_wf(s: Seq<Quest>) -> bool {
    forall|i: int|
        0 <= i < s.len() ==> (#[trigger] s[i]).deadline.wf() && s[i].updated_at
            >= s[i].created_at
}

/// The record `q` merged with the partial update `u` at time `now`:
/// a supplied non-empty title or content replaces the stored one, a
/// supplied deadline or completion flag replaces the stored one, the
/// identifier and creation timestamp stay, and the update timestamp
/// is refreshed to `now` (never below the creation timestamp, should
/// the clock have run backwards).
pub open spec fn spec_merged(q: Quest, u: UpdateQuestSchema, now: i64) -> Quest {
    Quest {
        id: q.id,
        title: match u.title {
            Some(t) => if t@.len() > 0 {
                t
            } else {
                q.title
            },
            None => q.title,
        },
        content: match u.content {
            Some(c) => if c@.len() > 0 {
                c
            } else {
                q.content
            },
            None => q.content,
        },
        deadline: match u.deadline {
            Some(d) => d,
            None => q.deadline,
        },
        completed: match u.completed {
            Some(c) => c,
            None => q.completed,
        },
        created_at: q.created_at,
        updated_at: if now >= q.created_at {
            now
        } else {
            q.created_at
        },
    }
}

/// The page of `s` selected by a 1-based page number and a page
/// size: up to `limit` records starting at offset `(page - 1) *
/// limit`, and the empty sequence when the offset lies past the end.
pub open spec fn spec_page(s: Seq<Quest>, page: int, limit: int) -> Seq<Quest> {
    let off = (page - 1) * limit;
    if off >= s.len() {
        Seq::empty()
    } else if off + limit <= s.len() {
        s.subrange(off, off + limit)
    } else {
        s.subrange(off, s.len() as int)
    }
}

/// The page number of `o`, defaulted to 1.
pub open spec fn spec_page_number(o: QueryOption) -> int {
    match o.page {
        Some(p) => p as int,
        None => 1,
    }
}

/// The page size of `o`, defaulted to 10.
pub open spec fn spec_limit(o: QueryOption) -> int {
    match o.limit {
        Some(l) => l as int,
        None => 10,
    }
}

/// Relies on uuid's `Uuid::new_v4` and its `Display` rendering: a
/// fresh random identifier, rendered in the hyphenated format of
/// exactly 36 characters.
#[verifier::external_body]
fn fresh_id() -> (r: String)
    ensures
        r@.len() == 36,
{
    uuid::Uuid::new_v4().to_string()
}

/// Appending a record whose identifier is fresh keeps identifiers
/// unique.
proof fn lemma_push_keeps_ids_unique(s: Seq<Quest>, q: Quest)
    requires
        ids_unique(s),
        !has_id(s, q.id@),
    ensures
        ids_unique(s.push(q)),
{
    let t = s.push(q);
    assert forall|i: int, j: int| 0 <= i < j < t.len() implies t[i].id@ != t[j].id@ by {
        if j == s.len() as int {
            if s[i].id@ == q.id@ {
                assert(0 <= i < s.len() && s[i].id@ == q.id@);
            }
        }
    }
}

/// Uniqueness law: a creation whose title is fresh keeps titles
/// unique across the live set, so no two live records ever share a
/// title under creations alone (a creation with a duplicate title is
/// refused and leaves the set unchanged).
pub proof fn lemma_create_keeps_titles_unique(s: Seq<Quest>, q: Quest)
    requires
        titles_unique(s),
        !has_title(s, q.title@),
    ensures
        titles_unique(s.push(q)),
{
    let t = s.push(q);
    assert forall|i: int, j: int| 0 <= i < j < t.len() implies t[i].title@ != t[j].title@ by {
        if j == s.len() as int {
            if s[i].title@ == q.title@ {
                assert(0 <= i < s.len() && s[i].title@ == q.title@);
            }
        }
    }
}

/// Round-trip law: after a record with a fresh identifier is
/// appended, that identifier names exactly the appended record, so a
/// get on the identifier returned by a successful create yields the
/// created record, every field equal.
pub proof fn lemma_create_then_get(s: Seq<Quest>, q: Quest)
    requires
        ids_unique(s),
        !has_id(s, q.id@),
    ensures
        ids_unique(s.push(q)),
        has_id(s.push(q), q.id@),
        forall|i: int|
            0 <= i < s.push(q).len() && (#[trigger] s.push(q)[i]).id@ == q.id@ ==> s.push(q)[i]
                == q,
{
    let t = s.push(q);
    lemma_push_keeps_ids_unique(s, q);
    assert(t[s.len() as int] == q);
    assert forall|i: int| 0 <= i < t.len() && (#[trigger] t[i]).id@ == q.id@ implies t[i] == q by {
        if i < s.len() {
            assert(0 <= i < s.len() && s[i].id@ == q.id@);
            assert(has_id(s, q.id@));
        }
    }
}

/// Merge no-op law: an update that supplies an empty title leaves
/// the stored title unchanged, and likewise for content.
pub proof fn lemma_merge_empty_string_is_noop(q: Quest, u: UpdateQuestSchema, now: i64)
    ensures
        (u.title matches Some(t) && t@.len() == 0) ==> spec_merged(q, u, now).title == q.title,
        (u.content matches Some(c) && c@.len() == 0) ==> spec_merged(q, u, now).content
            == q.content,
{
}

/// Presence law: a supplied completion flag always replaces the
/// stored one, explicit `false` included; an absent flag leaves it
/// unchanged.
pub proof fn lemma_merge_completed_is_presence(q: Quest, u: UpdateQuestSchema, now: i64)
    ensures
        u.completed matches Some(c) ==> spec_merged(q, u, now).completed == c,
        u.completed is None ==> spec_merged(q, u, now).completed == q.completed,
{
}

/// Deletion law: removing the one record that carries an identifier
/// leaves no record with it, so a get, or a second delete, after a
/// delete of the same identifier finds nothing.
pub proof fn lemma_remove_clears_id(s: Seq<Quest>, i: int)
    requires
        ids_unique(s),
        0 <= i < s.len(),
    ensures
        !has_id(s.remove(i), s[i].id@),
{
    let t = s.remove(i);
    if has_id(t, s[i].id@) {
        let j = choose|j: int| 0 <= j < t.len() && t[j].id@ == s[i].id@;
        if j < i {
            assert(t[j] == s[j]);
        } else {
            assert(t[j] == s[j + 1]);
        }
    }
}

/// Removing a record keeps identifiers unique and records
/// well-formed.
proof fn lemma_remove_keeps_wf(s: Seq<Quest>, i: int)
    requires
        ids_unique(s),
        quests_wf(s),
        0 <= i < s.len(),
    ensures
        ids_unique(s.remove(i)),
        quests_wf(s.remove(i)),
{
    let t = s.remove(i);
    assert forall|a: int, b: int| 0 <= a < b < t.len() implies t[a].id@ != t[b].id@ by {
        assert(t[a] == (if a < i { s[a] } else { s[a + 1] }));
        assert(t[b] == (if b < i { s[b] } else { s[b + 1] }));
    }
    assert forall|a: int|
        0 <= a < t.len() implies (#[trigger] t[a]).deadline.wf() && t[a].updated_at
            >= t[a].created_at by {
        assert(t[a] == (if a < i { s[a] } else { s[a + 1] }));
    }
}

/// The quest repository: the live records, in insertion order.
pub struct QuestStore {
    quests: Vec<Quest>,
}

impl View for QuestStore {
    type V = Seq<Quest>;

    closed spec fn view(&self) -> Seq<Quest> {
        self.quests@
    }
}

impl QuestStore {
    /// The store's invariant: identifiers are unique and every
    /// record is well-formed.
    pub open spec fn wf(&self) -> bool {
        ids_unique(self@) && quests_wf(self@)
    }

    /// An empty store.
    pub fn new() -> (r: QuestStore)
        ensures
            r@ == Seq::<Quest>::empty(),
            r.wf(),
    {
        QuestStore { quests: Vec::new() }
    }

    /// The number of live records.
    pub fn len(&self) -> (r: usize)
        ensures
            r == self@.len(),
    {
        self.quests.len()
    }

    /// Whether some live record carries the title.
    fn find_title(&self, title: &String) -> (r: bool)
        ensures
            r == has_title(self@, title@),
    {
        let mut i: usize = 0;
        while i < self.quests.len()
            invariant
                i <= self.quests@.len(),
                forall|j: int| 0 <= j < i ==> self.quests@[j].title@ != title@,
            decreases self.quests@.len() - i,
        {
            if self.quests[i].title == *title {
                assert(has_title(self@, title@));
                return true;
            }
            i = i + 1;
        }
        false
    }

    /// The index of the live record carrying the identifier, if any.
    fn find_id(&self, id: &String) -> (r: Option<usize>)
        ensures
            match r {
                Some(i) => i < self@.len() && self@[i as int].id@ == id@,
                None => !has_id(self@, id@),
            },
    {
        let mut i: usize = 0;
        while i < self.quests.len()
            invariant
                i <= self.quests@.len(),
                forall|j: int| 0 <= j < i ==> self.quests@[j].id@ != id@,
            decreases self.quests@.len() - i,
        {
            if self.quests[i].id == *id {
                return Some(i);
            }
            i = i + 1;
        }
        None
    }

    /// Creates a record under the given identifier. Refused, in this
    /// order, when a live record already carries the title, when no
    /// deadline was supplied, and when the identifier is already in
    /// use; refusal leaves the store unchanged. On success the new
    /// record is appended with `completed` false and both timestamps
    /// set to `now`, and an equal copy is returned.
    pub fn create_with_id(
        &mut self,
        id: String,
        title: String,
        content: String,
        deadline: Option<Date>,
        now: i64,
    ) -> (r: Result<Quest, StoreError>)
        requires
            old(self).wf(),
            deadline matches Some(d) ==> d.wf(),
        ensures
            final(self).wf(),
            match r {
                Ok(q) => {
                    &&& !has_title(old(self)@, title@)
                    &&& deadline matches Some(d) && q.deadline == d
                    &&& !has_id(old(self)@, id@)
                    &&& q.id@ == id@
                    &&& q.title@ == title@
                    &&& q.content@ == content@
                    &&& q.completed == false
                    &&& q.created_at == now
                    &&& q.updated_at == now
                    &&& final(self)@ == old(self)@.push(q)
                },
                Err(StoreError::DuplicateTitle) => has_title(old(self)@, title@) && final(self)@
                    == old(self)@,
                Err(StoreError::MissingDeadline) => !has_title(old(self)@, title@)
                    && deadline is None && final(self)@ == old(self)@,
                Err(StoreError::DuplicateId) => !has_title(old(self)@, title@)
                    && deadline is Some && has_id(old(self)@, id@) && final(self)@ == old(self)@,
                Err(StoreError::NotFound) => false,
            },
    {
        if self.find_title(&title) {
            return Err(StoreError::DuplicateTitle);
        }
        let d = match deadline {
            Some(d) => d,
            None => {
                return Err(StoreError::MissingDeadline);
            },
        };
        if self.find_id(&id).is_some() {
            return Err(StoreError::DuplicateId);
        }
        let q = Quest {
            id,
            title,
            content,
            deadline: d,
            completed: false,
            created_at: now,
            updated_at: now,
        };
        let stored = q.duplicate();
        proof {
            lemma_push_keeps_ids_unique(self@, q);
        }
        self.quests.push(stored);
        Ok(q)
    }

    /// Creates a record under a freshly drawn identifier. The
    /// contract of `create_with_id` carries over, with one widening:
    /// should the drawn identifier already be in use, the creation is
    /// refused with `DuplicateId` and the store is left unchanged.
    pub fn create(
        &mut self,
        title: String,
        content: String,
        deadline: Option<Date>,
        now: i64,
    ) -> (r: Result<Quest, StoreError>)
        requires
            old(self).wf(),
            deadline matches Some(d) ==> d.wf(),
        ensures
            final(self).wf(),
            match r {
                Ok(q) => {
                    &&& !has_title(old(self)@, title@)
                    &&& deadline matches Some(d) && q.deadline == d
                    &&& !has_id(old(self)@, q.id@)
                    &&& q.id@.len() == 36
                    &&& q.title@ == title@
                    &&& q.content@ == content@
                    &&& q.completed == false
                    &&& q.created_at == now
                    &&& q.updated_at == now
                    &&& final(self)@ == old(self)@.push(q)
                },
                Err(e) => {
                    &&& final(self)@ == old(self)@
                    &&& e != StoreError::NotFound
                    &&& (e == StoreError::DuplicateTitle <==> has_title(old(self)@, title@))
                    &&& (e == StoreError::MissingDeadline ==> deadline is None)
                    &&& (!has_title(old(self)@, title@) && deadline is None ==> e
                        == StoreError::MissingDeadline)
                    &&& (e == StoreError::DuplicateId ==> deadline is Some)
                },
            },
    {
        let id = fresh_id();
        self.create_with_id(id, title, content, deadline, now)
    }

    /// Returns a copy of the record carrying the identifier, or
    /// `NotFound` when no live record does.
    pub fn get(&self, id: &String) -> (r: Result<Quest, StoreError>)
        ensures
            match r {
                Ok(q) => exists|i: int|
                    0 <= i < self@.len() && #[trigger] self@[i] == q && q.id@ == id@,
                Err(e) => e == StoreError::NotFound && !has_id(self@, id@),
            },
            r is Ok <==> has_id(self@, id@),
    {
        match self.find_id(id) {
            Some(i) => {
                let q = self.quests[i].duplicate();
                assert(0 <= i < self@.len() && self@[i as int] == q);
                Ok(q)
            },
            None => Err(StoreError::NotFound),
        }
    }

    /// Returns one page of the live records in insertion order: up
    /// to `limit` records (default 10) starting at the offset named
    /// by the 1-based page number (default 1). An offset past the
    /// end yields an empty page, not an error.
    pub fn list(&self, opts: &QueryOption) -> (r: Vec<Quest>)
        requires
            opts.page matches Some(p) ==> p >= 1,
        ensures
            r@ == spec_page(self@, spec_page_number(*opts), spec_limit(*opts)),
    {
        let limit: usize = match opts.limit {
            Some(l) => l,
            None => 10,
        };
        let page: usize = match opts.page {
            Some(p) => p,
            None => 1,
        };
        let mut out: Vec<Quest> = Vec::new();
        let ghost gpage = spec_page(self@, spec_page_number(*opts), spec_limit(*opts));
        match (page - 1).checked_mul(limit) {
            None => {
                // The offset overflows the machine word, so it lies past
                // the end of any in-memory collection.
                proof {
                    vstd::std_specs::vec::axiom_spec_len(&self.quests);
                }
                assert(gpage =~= Seq::empty());
                out
            },
            Some(off) => {
                if off >= self.quests.len() {
                    assert(gpage =~= Seq::empty());
                    return out;
                }
                let end: usize = if limit < self.quests.len() - off {
                    off + limit
                } else {
                    self.quests.len()
                };
                let mut i: usize = off;
                while i < end
                    invariant
                        off <= i <= end <= self.quests@.len(),
                        out@ == self.quests@.subrange(off as int, i as int),
                    decreases end - i,
                {
                    let q = self.quests[i].duplicate();
                    out.push(q);
                    assert(out@ =~= self.quests@.subrange(off as int, i as int + 1));
                    i = i + 1;
                }
                assert(out@ =~= gpage);
                out
            },
        }
    }

    /// Merges the partial update into the record carrying the
    /// identifier (see `spec_merged` for the field-by-field rule) and
    /// returns a copy of the merged record; `NotFound`, with nothing
    /// touched, when no live record carries the identifier.
    pub fn update(&mut self, id: &String, payload: &UpdateQuestSchema, now: i64) -> (r: Result<
        Quest,
        StoreError,
    >)
        requires
            old(self).wf(),
            payload.deadline matches Some(d) ==> d.wf(),
        ensures
            final(self).wf(),
            match r {
                Ok(q) => exists|i: int|
                    {
                        &&& 0 <= i < old(self)@.len()
                        &&& (#[trigger] old(self)@[i]).id@ == id@
                        &&& q == spec_merged(old(self)@[i], *payload, now)
                        &&& final(self)@ == old(self)@.update(i, q)
                    },
                Err(e) => e == StoreError::NotFound && !has_id(old(self)@, id@) && final(self)@
                    == old(self)@,
            },
            r is Ok <==> has_id(old(self)@, id@),
    {
        let i = match self.find_id(id) {
            Some(i) => i,
            None => {
                return Err(StoreError::NotFound);
            },
        };
        let title: String = match &payload.title {
            Some(t) => if !t.as_str().is_empty() {
                t.clone()
            } else {
                self.quests[i].title.clone()
            },
            None => self.quests[i].title.clone(),
        };
        let content: String = match &payload.content {
            Some(c) => if !c.as_str().is_empty() {
                c.clone()
            } else {
                self.quests[i].content.clone()
            },
            None => self.quests[i].content.clone(),
        };
        let deadline: Date = match payload.deadline {
            Some(d) => d,
            None => self.quests[i].deadline,
        };
        let completed: bool = match payload.completed {
            Some(c) => c,
            None => self.quests[i].completed,
        };
        let created_at = self.quests[i].created_at;
        let updated_at: i64 = if now >= created_at {
            now
        } else {
            created_at
        };
        let merged = Quest {
            id: self.quests[i].id.clone(),
            title,
            content,
            deadline,
            completed,
            created_at,
            updated_at,
        };
        assert(merged == spec_merged(old(self)@[i as int], *payload, now));
        let q = merged.duplicate();
        let ghost pre = self@;
        self.quests.remove(i);
        self.quests.insert(i, merged);
        proof {
            assert(self@ =~= pre.update(i as int, spec_merged(pre[i as int], *payload, now)));
            assert forall|a: int, b: int| 0 <= a < b < self@.len() implies self@[a].id@
                != self@[b].id@ by {
                assert(pre[a].id@ != pre[b].id@);
            }
            assert forall|a: int|
                0 <= a < self@.len() implies (#[trigger] self@[a]).deadline.wf()
                    && self@[a].updated_at >= self@[a].created_at by {
                if a != i {
                    assert(self@[a] == pre[a]);
                }
            }
        }
        Ok(q)
    }

    /// Removes the record carrying the identifier, permanently; a
    /// second delete of the same identifier, like a get, finds
    /// nothing. `NotFound`, with nothing touched, when no live
    /// record carries the identifier.
    pub fn delete(&mut self, id: &String) -> (r: Result<(), StoreError>)
        requires
            old(self).wf(),
        ensures
            final(self).wf(),
            !has_id(final(self)@, id@),
            match r {
                Ok(_) => exists|i: int|
                    {
                        &&& 0 <= i < old(self)@.len()
                        &&& (#[trigger] old(self)@[i]).id@ == id@
                        &&& final(self)@ == old(self)@.remove(i)
                    },
                Err(e) => e == StoreError::NotFound && !has_id(old(self)@, id@) && final(self)@
                    == old(self)@,
            },
            r is Ok <==> has_id(old(self)@, id@),
    {
        let i = match self.find_id(id) {
            Some(i) => i,
            None => {
                return Err(StoreError::NotFound);
            },
        };
        proof {
            lemma_remove_keeps_wf(self@, i as int);
            lemma_remove_clears_id(self@, i as int);
        }
        self.quests.remove(i);
        Ok(())
    }
}

} // verus!
