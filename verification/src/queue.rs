//! The durable work queue of items awaiting a reminder.
//!
//! Each entry tracks one external item: its identifier, descriptive
//! fields, the time it became eligible, and whether its reminder has been
//! delivered. The store keeps one row per item identifier; an open claim
//! holds a row lock, modelled here by a per-row flag. All operations are
//! atomic transactions in the deployed system; the model applies them in
//! their serial commit order.

use vstd::prelude::*;
use vstd::string::*;

use crate::text::str_eq;

verus! {

/// One tracked item, as persisted.
pub struct TrackedIssue {
    /// Opaque external identifier; the unique key.
    pub id: String,
    /// Human-readable display identifier, carried for the reminder text.
    pub identifier: String,
    /// Item title, carried for the reminder text.
    pub title: String,
    /// Seconds since the epoch at which the item became eligible, taken
    /// from the triggering event.
    pub created_at: i64,
    /// Set once a reminder has been delivered and committed.
    pub reminded: bool,
}

/// The mathematical value of one tracked item.
pub ghost struct IssueModel {
    pub id: Seq<char>,
    pub identifier: Seq<char>,
    pub title: Seq<char>,
    pub created_at: int,
    pub reminded: bool,
}

/// One queue row together with its claim state.
pub ghost struct RowModel {
    pub issue: IssueModel,
    /// True while an open claim holds this row.
    pub locked: bool,
}

impl View for TrackedIssue {
    type V = IssueModel;

    open spec fn view(&self) -> IssueModel {
        IssueModel {
            id: self.id@,
            identifier: self.identifier@,
            title: self.title@,
            created_at: self.created_at as int,
            reminded: self.reminded,
        }
    }
}

/// The queue itself: one row per tracked item, oldest-first claims.
pub struct IssueQueue {
    items: Vec<TrackedIssue>,
    locks: Vec<bool>,
}

impl View for IssueQueue {
    type V = Seq<RowModel>;

    closed spec fn view(&self) -> Seq<RowModel> {
        Seq::new(
            self.items@.len(),
            |i: int| RowModel { issue: self.items@[i]@, locked: self.locks@[i] },
        )
    }
}

/// No two rows share an item identifier.
pub open spec fn ids_distinct(s: Seq<RowModel>) -> bool {
    forall|i: int, j: int|
        0 <= i < s.len() && 0 <= j < s.len() && i != j ==> s[i].issue.id != s[j].issue.id
}

/// Some row tracks `id`.
pub open spec fn contains_id(s: Seq<RowModel>, id: Seq<char>) -> bool {
    exists|i: int| 0 <= i < s.len() && s[i].issue.id == id
}

/// The index of the row tracking `id` (unique under `ids_distinct`).
pub open spec fn idx_of(s: Seq<RowModel>, id: Seq<char>) -> int {
    choose|i: int| 0 <= i < s.len() && s[i].issue.id == id
}

/// A row is open to a claim: not yet reminded, and not held by one.
pub open spec fn claimable(r: RowModel) -> bool {
    !r.issue.reminded && !r.locked
}

/// The queue after an insert-or-ignore of a fresh, unreminded entry.
pub open spec fn upsert_spec(
    s: Seq<RowModel>,
    id: Seq<char>,
    identifier: Seq<char>,
    title: Seq<char>,
    created_at: int,
) -> Seq<RowModel> {
    if contains_id(s, id) {
        s
    } else {
        s.push(
            RowModel {
                issue: IssueModel { id, identifier, title, created_at, reminded: false },
                locked: false,
            },
        )
    }
}

/// The queue after deleting the entry for `id`, if any.
pub open spec fn remove_spec(s: Seq<RowModel>, id: Seq<char>) -> Seq<RowModel> {
    if contains_id(s, id) {
        s.remove(idx_of(s, id))
    } else {
        s
    }
}

/// The queue with row `i`'s claim flag set to `locked`.
pub open spec fn set_locked_spec(s: Seq<RowModel>, i: int, locked: bool) -> Seq<RowModel> {
    s.update(i, RowModel { issue: s[i].issue, locked })
}

/// The queue after finalising the claim on row `i`: the lock is released
/// and, when `mark_reminded` holds, the row is marked reminded.
pub open spec fn commit_spec(s: Seq<RowModel>, i: int, mark_reminded: bool) -> Seq<RowModel> {
    s.update(
        i,
        RowModel {
            issue: IssueModel {
                id: s[i].issue.id,
                identifier: s[i].issue.identifier,
                title: s[i].issue.title,
                created_at: s[i].issue.created_at,
                reminded: mark_reminded || s[i].issue.reminded,
            },
            locked: false,
        },
    )
}

impl IssueQueue {
    /// Rows and claim flags line up.
    pub closed spec fn aligned(&self) -> bool {
        self.items@.len() == self.locks@.len()
    }

    /// The queue invariant: claim flags line up with rows, and no two
    /// rows share an item identifier.
    pub open spec fn wf(&self) -> bool {
        &&& self.aligned()
        &&& ids_distinct(self@)
    }

    /// An empty queue.
    pub fn new() -> (q: IssueQueue)
        ensures
            q.wf(),
            q@ == Seq::<RowModel>::empty(),
    {
        let q = IssueQueue { items: Vec::new(), locks: Vec::new() };
        proof {
            assert(q@ =~= Seq::<RowModel>::empty());
        }
        q
    }

    /// The index of the row tracking `id`, if any.
    fn find_index(&self, id: &str) -> (r: Option<usize>)
        requires
            self.wf(),
        ensures
            match r {
                Some(i) => i < self@.len() && self@[i as int].issue.id == id@,
                None => !contains_id(self@, id@),
            },
    {
        let mut i: usize = 0;
        while i < self.items.len()
            invariant
                self.wf(),
                i <= self@.len(),
                self@.len() == self.items@.len(),
                forall|j: int| 0 <= j < i ==> self@[j].issue.id != id@,
            decreases self@.len() - i,
        {
            if str_eq(self.items[i].id.as_str(), id) {
                return Some(i);
            }
            i += 1;
        }
        None
    }

    /// Whether `id` is currently tracked.
    pub fn contains(&self, id: &str) -> (r: bool)
        requires
            self.wf(),
        ensures
            r == contains_id(self@, id@),
    {
        match self.find_index(id) {
            Some(_) => true,
            None => false,
        }
    }

    /// Inserts a new unreminded, unclaimed entry for `id`; a no-op when
    /// `id` is already tracked (first write wins, so `created_at` keeps
    /// its original value).
    pub fn upsert_if_absent(
        &mut self,
        id: String,
        identifier: String,
        title: String,
        created_at: i64,
    )
        requires
            old(self).wf(),
        ensures
            final(self).wf(),
            final(self)@ == upsert_spec(
                old(self)@,
                id@,
                identifier@,
                title@,
                created_at as int,
            ),
    {
        match self.find_index(id.as_str()) {
            Some(_) => {},
            None => {
                let ghost before = self@;
                self.items.push(TrackedIssue { id, identifier, title, created_at, reminded: false });
                self.locks.push(false);
                proof {
                    assert(self@ =~= upsert_spec(
                        before,
                        self.items@.last().id@,
                        self.items@.last().identifier@,
                        self.items@.last().title@,
                        self.items@.last().created_at as int,
                    ));
                    assert forall|i: int, j: int|
                        0 <= i < self@.len() && 0 <= j < self@.len() && i != j implies self@[i].issue.id
                        != self@[j].issue.id by {
                        if i < before.len() && j < before.len() {
                            assert(before[i].issue.id != before[j].issue.id);
                        } else if i < before.len() {
                            assert(self@[i].issue.id != self@[j].issue.id);
                        } else {
                            assert(self@[i].issue.id != self@[j].issue.id);
                        }
                    }
                }
            },
        }
    }

    /// Deletes the entry for `id` if one exists; reports whether a row
    /// was removed.
    pub fn remove_if_present(&mut self, id: &str) -> (r: bool)
        requires
            old(self).wf(),
        ensures
            final(self).wf(),
            final(self)@ == remove_spec(old(self)@, id@),
            r == contains_id(old(self)@, id@),
    {
        match self.find_index(id) {
            None => false,
            Some(i) => {
                let ghost before = self@;
                proof {
                    assert(contains_id(before, id@));
                    let k = idx_of(before, id@);
                    assert(0 <= k < before.len() && before[k].issue.id == id@);
                    assert(k == i as int);
                }
                self.items.remove(i);
                self.locks.remove(i);
                proof {
                    assert(self@ =~= before.remove(i as int));
                    assert forall|a: int, b: int|
                        0 <= a < self@.len() && 0 <= b < self@.len() && a != b implies self@[a].issue.id
                        != self@[b].issue.id by {
                        let a0 = if a < i as int { a } else { a + 1 };
                        let b0 = if b < i as int { b } else { b + 1 };
                        assert(self@[a].issue.id == before[a0].issue.id);
                        assert(self@[b].issue.id == before[b0].issue.id);
                    }
                }
                true
            },
        }
    }

    /// Claims the oldest row open to a claim: unreminded and not already
    /// held. The claimed row stays locked until the claim is finalised
    /// with `commit` or `rollback`; rows held by other claims are skipped
    /// rather than waited on. Returns `None` exactly when every row is
    /// reminded or already held.
    pub fn claim_oldest_due(&mut self) -> (r: Option<Claim>)
        requires
            old(self).wf(),
        ensures
            final(self).wf(),
            r matches Some(c) ==> {
                &&& 0 <= c.idx@ < old(self)@.len()
                &&& old(self)@[c.idx@].issue == c.issue@
                &&& claimable(old(self)@[c.idx@])
                &&& forall|j: int|
                    0 <= j < old(self)@.len() && claimable(old(self)@[j])
                        ==> old(self)@[c.idx@].issue.created_at <= old(self)@[j].issue.created_at
                &&& final(self)@ == set_locked_spec(old(self)@, c.idx@, true)
            },
            r matches Some(c) ==> forall|j: int|
                0 <= j < old(self)@.len() && old(self)@[j].issue.reminded ==> old(self)@[j].issue.id
                    != c.issue@.id,
            r is None ==> final(self)@ == old(self)@ && forall|j: int|
                0 <= j < old(self)@.len() ==> !claimable(old(self)@[j]),
    {
        let mut best: Option<usize> = None;
        let mut i: usize = 0;
        while i < self.items.len()
            invariant
                self.wf(),
                i <= self@.len(),
                self@.len() == self.items@.len(),
                match best {
                    Some(b) => b < i && claimable(self@[b as int]) && forall|j: int|
                        0 <= j < i && claimable(self@[j]) ==> self@[b as int].issue.created_at
                            <= self@[j].issue.created_at,
                    None => forall|j: int| 0 <= j < i ==> !claimable(self@[j]),
                },
            decreases self@.len() - i,
        {
            if !self.items[i].reminded && !self.locks[i] {
                match best {
                    Some(b) => {
                        if self.items[i].created_at < self.items[b].created_at {
                            best = Some(i);
                        }
                    },
                    None => {
                        best = Some(i);
                    },
                }
            }
            i += 1;
        }
        match best {
            None => None,
            Some(b) => {
                let ghost before = self@;
                self.locks[b] = true;
                let c = Claim {
                    issue: TrackedIssue {
                        id: self.items[b].id.clone(),
                        identifier: self.items[b].identifier.clone(),
                        title: self.items[b].title.clone(),
                        created_at: self.items[b].created_at,
                        reminded: self.items[b].reminded,
                    },
                    idx: Ghost(b as int),
                };
                proof {
                    assert(self@ =~= set_locked_spec(before, b as int, true));
                    assert(forall|k: int|
                        0 <= k < self@.len() ==> self@[k].issue == before[k].issue);
                    assert forall|j: int|
                        0 <= j < before.len() && before[j].issue.reminded implies before[j].issue.id
                        != c.issue@.id by {
                        if before[j].issue.id == before[b as int].issue.id {
                            assert(j == b as int);
                        }
                    }
                }
                Some(c)
            },
        }
    }

    /// Commits an open claim: releases the row lock and, when
    /// `mark_reminded` holds, marks the row reminded. Reports whether the
    /// claimed row was still present and held; when the update touched no
    /// row the queue is left as it was, as an aborted transaction would
    /// leave it.
    pub fn commit(&mut self, claim: &Claim, mark_reminded: bool) -> (r: bool)
        requires
            old(self).wf(),
        ensures
            final(self).wf(),
            r == (contains_id(old(self)@, claim.issue@.id) && old(self)@[idx_of(
                old(self)@,
                claim.issue@.id,
            )].locked),
            r ==> final(self)@ == commit_spec(
                old(self)@,
                idx_of(old(self)@, claim.issue@.id),
                mark_reminded,
            ),
            !r ==> final(self)@ == old(self)@,
    {
        match self.find_index(claim.issue.id.as_str()) {
            None => false,
            Some(i) => {
                proof {
                    lemma_idx_of_unique(self@, claim.issue@.id, i as int);
                }
                if self.locks[i] {
                    let ghost before = self@;
                    if mark_reminded {
                        self.items[i].reminded = true;
                    }
                    self.locks[i] = false;
                    proof {
                        assert(self@ =~= commit_spec(before, i as int, mark_reminded));
                        assert forall|a: int, b: int|
                            0 <= a < self@.len() && 0 <= b < self@.len() && a
                                != b implies self@[a].issue.id != self@[b].issue.id by {
                            assert(self@[a].issue.id == before[a].issue.id);
                            assert(self@[b].issue.id == before[b].issue.id);
                        }
                    }
                    true
                } else {
                    false
                }
            },
        }
    }

    /// Abandons an open claim: releases the row lock and changes nothing
    /// else. Reports whether the claimed row was still present and held.
    pub fn rollback(&mut self, claim: &Claim) -> (r: bool)
        requires
            old(self).wf(),
        ensures
            final(self).wf(),
            r == (contains_id(old(self)@, claim.issue@.id) && old(self)@[idx_of(
                old(self)@,
                claim.issue@.id,
            )].locked),
            r ==> final(self)@ == set_locked_spec(
                old(self)@,
                idx_of(old(self)@, claim.issue@.id),
                false,
            ),
            !r ==> final(self)@ == old(self)@,
    {
        match self.find_index(claim.issue.id.as_str()) {
            None => false,
            Some(i) => {
                proof {
                    lemma_idx_of_unique(self@, claim.issue@.id, i as int);
                }
                if self.locks[i] {
                    let ghost before = self@;
                    self.locks[i] = false;
                    proof {
                        assert(self@ =~= set_locked_spec(before, i as int, false));
                        assert(forall|k: int|
                            0 <= k < self@.len() ==> self@[k].issue == before[k].issue);
                    }
                    true
                } else {
                    false
                }
            },
        }
    }

    /// The number of tracked rows.
    pub fn len(&self) -> (n: usize)
        ensures
            n == self@.len(),
    {
        self.items.len()
    }

    /// A copy of the entry for `id`, if one is tracked.
    pub fn lookup(&self, id: &str) -> (r: Option<TrackedIssue>)
        requires
            self.wf(),
        ensures
            match r {
                Some(t) => contains_id(self@, id@) && t@ == self@[idx_of(self@, id@)].issue,
                None => !contains_id(self@, id@),
            },
    {
        match self.find_index(id) {
            None => None,
            Some(i) => {
                proof {
                    lemma_idx_of_unique(self@, id@, i as int);
                }
                Some(
                    TrackedIssue {
                        id: self.items[i].id.clone(),
                        identifier: self.items[i].identifier.clone(),
                        title: self.items[i].title.clone(),
                        created_at: self.items[i].created_at,
                        reminded: self.items[i].reminded,
                    },
                )
            },
        }
    }
}

/// An open claim on one queue row. It stands for the open transaction of
/// the deployed system: the caller must finalise it with exactly one of
/// `commit` or `rollback`, or the row stays held.
pub struct Claim {
    /// A copy of the claimed row as it stood when the claim was taken.
    pub issue: TrackedIssue,
    /// The claimed row's position at claim time.
    pub idx: Ghost<int>,
}

/// Under distinct identifiers, the row found at `i` is the row `idx_of`
/// names.
pub proof fn lemma_idx_of_unique(s: Seq<RowModel>, id: Seq<char>, i: int)
    requires
        ids_distinct(s),
        0 <= i < s.len(),
        s[i].issue.id == id,
    ensures
        idx_of(s, id) == i,
{
    assert(contains_id(s, id));
    let k = idx_of(s, id);
    assert(0 <= k < s.len() && s[k].issue.id == id);
    if k != i {
        assert(s[k].issue.id != s[i].issue.id);
    }
}

/// Law: applying the same eligible-state event twice tracks the item
/// exactly once; the second insert-or-ignore changes nothing.
pub proof fn lemma_upsert_idempotent(
    s: Seq<RowModel>,
    id: Seq<char>,
    identifier: Seq<char>,
    title: Seq<char>,
    created_at: int,
)
    ensures
        upsert_spec(upsert_spec(s, id, identifier, title, created_at), id, identifier, title, created_at)
            == upsert_spec(s, id, identifier, title, created_at),
{
    if !contains_id(s, id) {
        let s1 = upsert_spec(s, id, identifier, title, created_at);
        assert(s1[s.len() as int].issue.id == id);
        assert(contains_id(s1, id));
    }
}

/// Tracking a fresh item keeps identifiers distinct.
pub proof fn lemma_upsert_distinct(
    s: Seq<RowModel>,
    id: Seq<char>,
    identifier: Seq<char>,
    title: Seq<char>,
    created_at: int,
)
    requires
        ids_distinct(s),
    ensures
        ids_distinct(upsert_spec(s, id, identifier, title, created_at)),
{
    if !contains_id(s, id) {
        let t = upsert_spec(s, id, identifier, title, created_at);
        assert forall|i: int, j: int|
            0 <= i < t.len() && 0 <= j < t.len() && i != j implies t[i].issue.id
            != t[j].issue.id by {
            if i < s.len() && j < s.len() {
                assert(s[i].issue.id != s[j].issue.id);
            } else if i < s.len() {
                assert(!(exists|k: int| 0 <= k < s.len() && s[k].issue.id == id));
                assert(t[i].issue.id != id);
            } else {
                assert(t[j].issue.id != id);
            }
        }
    }
}

/// Finalising a claim changes no identifier and keeps them distinct.
pub proof fn lemma_commit_preserves_ids(s: Seq<RowModel>, i: int, mark_reminded: bool)
    requires
        ids_distinct(s),
        0 <= i < s.len(),
    ensures
        ids_distinct(commit_spec(s, i, mark_reminded)),
        commit_spec(s, i, mark_reminded).len() == s.len(),
        forall|j: int|
            0 <= j < s.len() ==> commit_spec(s, i, mark_reminded)[j].issue.id == s[j].issue.id,
{
    let t = commit_spec(s, i, mark_reminded);
    assert(forall|j: int| 0 <= j < s.len() ==> t[j].issue.id == s[j].issue.id);
}

/// Law: an item that enters the eligible state and leaves it before being
/// reminded is absent from the queue.
pub proof fn lemma_eligibility_round_trip(
    s: Seq<RowModel>,
    id: Seq<char>,
    identifier: Seq<char>,
    title: Seq<char>,
    created_at: int,
)
    requires
        ids_distinct(s),
    ensures
        !contains_id(
            remove_spec(upsert_spec(s, id, identifier, title, created_at), id),
            id,
        ),
{
    lemma_upsert_distinct(s, id, identifier, title, created_at);
    lemma_remove_untracks(upsert_spec(s, id, identifier, title, created_at), id);
}

/// Law: an item that enters the eligible state, is reminded, and then
/// leaves it is absent from the queue as well.
pub proof fn lemma_reminded_round_trip(
    s: Seq<RowModel>,
    id: Seq<char>,
    identifier: Seq<char>,
    title: Seq<char>,
    created_at: int,
    i: int,
    mark_reminded: bool,
)
    requires
        ids_distinct(s),
        0 <= i < upsert_spec(s, id, identifier, title, created_at).len(),
    ensures
        !contains_id(
            remove_spec(
                commit_spec(upsert_spec(s, id, identifier, title, created_at), i, mark_reminded),
                id,
            ),
            id,
        ),
{
    let entered = upsert_spec(s, id, identifier, title, created_at);
    lemma_upsert_distinct(s, id, identifier, title, created_at);
    lemma_commit_preserves_ids(entered, i, mark_reminded);
    lemma_remove_untracks(commit_spec(entered, i, mark_reminded), id);
}

/// Law: once an event reports that an item left the eligible state, the
/// item is absent from the queue, whatever its history before that —
/// freshly tracked, reminded, or never present.
pub proof fn lemma_remove_untracks(s: Seq<RowModel>, id: Seq<char>)
    requires
        ids_distinct(s),
    ensures
        !contains_id(remove_spec(s, id), id),
{
    if contains_id(s, id) {
        let k = idx_of(s, id);
        assert(0 <= k < s.len() && s[k].issue.id == id);
        let t = s.remove(k);
        assert forall|j: int| 0 <= j < t.len() implies t[j].issue.id != id by {
            if j < k {
                assert(t[j] == s[j]);
                assert(s[j].issue.id != s[k].issue.id);
            } else {
                assert(t[j] == s[j + 1]);
                assert(s[j + 1].issue.id != s[k].issue.id);
            }
        }
    }
}

} // verus!
