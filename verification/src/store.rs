//! Store engine: durable, keyed storage of prompts. The engine owns every
//! prompt it holds, keeps entries ordered for listing (most recently updated
//! first, ties broken by identifier), validates prompts before any write,
//! checks tag references against the catalog, and mutates nothing on failure.

use vstd::prelude::*;

use crate::catalog::TagCatalog;
use crate::ids::dec_digits;
use crate::ids::lemma_dec_digits_inj;
use crate::ids::lemma_dec_digits_len;
use crate::ids::render_dec;
use crate::lex::lemma_lex_lt_total;
use crate::lex::lemma_lex_lt_trans;
use crate::lex::lex_lt;
use crate::lex::str_eq;
use crate::lex::str_lt;
use crate::model::advanced_in_range;
use crate::model::prompt_well_formed;
use crate::model::structure_complete;
use crate::model::summary_of;
use crate::model::tags_distinct;
use crate::model::validate;
use crate::model::Prompt;
use crate::model::PromptSummary;
use crate::model::PromptSummaryV;
use crate::model::PromptV;
use crate::model::StoreError;
use crate::model::TagV;
use crate::model::ValidationError;

verus! {

/// Listing order on stored prompts: more recently updated first; equal
/// update instants are broken by identifier, ascending, for determinism.
pub open spec fn list_before(a: PromptV, b: PromptV) -> bool {
    a.updated_at > b.updated_at || (a.updated_at == b.updated_at && lex_lt(a.id, b.id))
}

/// The same order read off two summaries.
pub open spec fn summary_before(a: PromptSummaryV, b: PromptSummaryV) -> bool {
    a.updated_at > b.updated_at || (a.updated_at == b.updated_at && lex_lt(a.id, b.id))
}

/// No two entries share an identifier.
pub open spec fn ids_unique(s: Seq<PromptV>) -> bool {
    forall|i: int, j: int| 0 <= i < j < s.len() ==> s[i].id != s[j].id
}

/// The entries stand in listing order.
pub open spec fn sorted_for_listing(s: Seq<PromptV>) -> bool {
    forall|i: int, j: int| 0 <= i < j < s.len() ==> list_before(s[i], s[j])
}

/// Some entry carries identifier `id`.
pub open spec fn has_id(s: Seq<PromptV>, id: Seq<char>) -> bool {
    exists|i: int| 0 <= i < s.len() && s[i].id == id
}

/// The index of the entry carrying `id` (meaningful only when one exists).
pub open spec fn idx_of(s: Seq<PromptV>, id: Seq<char>) -> int {
    choose|i: int| 0 <= i < s.len() && s[i].id == id
}

/// The entries read as a mapping from identifier to stored prompt.
pub open spec fn prompt_map_of(s: Seq<PromptV>) -> Map<Seq<char>, PromptV> {
    Map::new(|id: Seq<char>| has_id(s, id), |id: Seq<char>| s[idx_of(s, id)])
}

/// What holds of every prompt the engine stores: it passed validation, its
/// identifier is non-empty, and its timestamps are ordered.
pub open spec fn entry_ok(p: PromptV) -> bool {
    prompt_well_formed(p) && p.id.len() > 0 && p.created_at <= p.updated_at
}

/// Every entry of the sequence is a proper stored prompt.
pub open spec fn entries_ok(s: Seq<PromptV>) -> bool {
    forall|i: int| 0 <= i < s.len() ==> entry_ok(s[i])
}

/// The store engine's internal integrity.
pub open spec fn store_inv(s: Seq<PromptV>) -> bool {
    ids_unique(s) && sorted_for_listing(s) && entries_ok(s)
}

/// The update instant written on a successful mutation: the current time, or
/// one tick past the previous instant when the clock has not advanced, so the
/// instant never decreases and grows strictly whenever it has room to.
pub open spec fn bump(prev: u64, now: u64) -> u64 {
    if now > prev {
        now
    } else if prev == u64::MAX {
        prev
    } else {
        (prev + 1) as u64
    }
}

/// The stored value of a newly created prompt: the caller's fields under the
/// final identifier, with both timestamps set to the current time.
pub open spec fn new_entry(p: PromptV, id: Seq<char>, now: u64) -> PromptV {
    PromptV { id: id, created_at: now, updated_at: now, ..p }
}

/// The stored value of an updated prompt: the caller's fields, the previous
/// entry's identifier and creation time, and a refreshed update time.
pub open spec fn update_entry(p: PromptV, prev: PromptV, now: u64) -> PromptV {
    PromptV {
        id: prev.id,
        created_at: prev.created_at,
        updated_at: bump(prev.updated_at, now),
        ..p
    }
}

/// Every tag the prompt references resolves in the catalog.
pub open spec fn all_tags_known(p: PromptV, catalog: Map<Seq<char>, TagV>) -> bool {
    forall|k: int| 0 <= k < p.tags.len() ==> catalog.dom().contains(#[trigger] p.tags[k])
}

/// Entries with distinct identifiers are ordered one way or the other.
proof fn lemma_list_before_total(a: PromptV, b: PromptV)
    requires
        a.id != b.id,
    ensures
        list_before(a, b) || list_before(b, a),
{
    if a.updated_at == b.updated_at {
        lemma_lex_lt_total(a.id, b.id);
    }
}

/// Listing order is transitive.
proof fn lemma_list_before_trans(a: PromptV, b: PromptV, c: PromptV)
    requires
        list_before(a, b),
        list_before(b, c),
    ensures
        list_before(a, c),
{
    if a.updated_at == b.updated_at && b.updated_at == c.updated_at {
        lemma_lex_lt_trans(a.id, b.id, c.id);
    }
}

/// With unique identifiers, an entry's identifier resolves back to its index.
proof fn lemma_unique_idx(s: Seq<PromptV>, i: int)
    requires
        ids_unique(s),
        0 <= i < s.len(),
    ensures
        has_id(s, s[i].id),
        idx_of(s, s[i].id) == i,
{
    assert(has_id(s, s[i].id));
    let j = idx_of(s, s[i].id);
    assert(0 <= j < s.len() && s[j].id == s[i].id);
}

/// Removing the entry at `i` removes exactly its key from the map and keeps
/// the integrity of everything else.
proof fn lemma_remove_entry(s: Seq<PromptV>, i: int)
    requires
        store_inv(s),
        0 <= i < s.len(),
    ensures
        store_inv(s.remove(i)),
        !has_id(s.remove(i), s[i].id),
        prompt_map_of(s.remove(i)) == prompt_map_of(s).remove(s[i].id),
{
    let t = s.remove(i);
    s.remove_ensures(i);
    assert forall|a: int, b: int| 0 <= a < b < t.len() implies t[a].id != t[b].id && list_before(
        t[a],
        t[b],
    ) by {
        let sa: int = if a < i { a } else { a + 1 };
        let sb: int = if b < i { b } else { b + 1 };
        assert(t[a] == s[sa]);
        assert(t[b] == s[sb]);
    }
    assert forall|k: int| 0 <= k < t.len() implies entry_ok(t[k]) by {
        let sk: int = if k < i { k } else { k + 1 };
        assert(t[k] == s[sk]);
    }
    assert(!has_id(t, s[i].id)) by {
        if has_id(t, s[i].id) {
            let j = choose|j: int| 0 <= j < t.len() && t[j].id == s[i].id;
            let sj: int = if j < i { j } else { j + 1 };
            assert(t[j] == s[sj]);
            assert(sj != i);
        }
    }
    assert forall|x: Seq<char>| has_id(s, x) && x != s[i].id implies has_id(t, x) by {
        let j = choose|j: int| 0 <= j < s.len() && s[j].id == x;
        assert(j != i);
        let tj: int = if j < i { j } else { j - 1 };
        assert(t[tj] == s[j]);
    }
    assert forall|x: Seq<char>| has_id(t, x) implies has_id(s, x) && x != s[i].id by {
        let j = choose|j: int| 0 <= j < t.len() && t[j].id == x;
        let sj: int = if j < i { j } else { j + 1 };
        assert(t[j] == s[sj]);
        lemma_unique_idx(s, sj);
    }
    assert forall|x: Seq<char>| #[trigger] has_id(t, x) implies prompt_map_of(t)[x]
        == prompt_map_of(s)[x] by {
        let jt = idx_of(t, x);
        assert(0 <= jt < t.len() && t[jt].id == x);
        let sj: int = if jt < i { jt } else { jt + 1 };
        assert(t[jt] == s[sj]);
        lemma_unique_idx(s, sj);
    }
    assert(prompt_map_of(t) =~= prompt_map_of(s).remove(s[i].id));
}

/// Inserting a fresh, proper entry at its ordered position adds exactly its
/// key to the map and keeps integrity.
proof fn lemma_insert_entry(s: Seq<PromptV>, k: int, p: PromptV)
    requires
        store_inv(s),
        entry_ok(p),
        !has_id(s, p.id),
        0 <= k <= s.len(),
        forall|t: int| 0 <= t < k ==> list_before(s[t], p),
        k < s.len() ==> !list_before(s[k], p),
    ensures
        store_inv(s.insert(k, p)),
        prompt_map_of(s.insert(k, p)) == prompt_map_of(s).insert(p.id, p),
{
    let t = s.insert(k, p);
    s.insert_ensures(k, p);
    assert forall|j: int| 0 <= j < s.len() implies s[j].id != p.id by {
        if s[j].id == p.id {
            assert(has_id(s, p.id));
        }
    }
    assert forall|j: int| k <= j < s.len() implies list_before(p, s[j]) by {
        lemma_list_before_total(s[k], p);
        assert(list_before(p, s[k]));
        if j > k {
            lemma_list_before_trans(p, s[k], s[j]);
        }
    }
    assert forall|a: int, b: int| 0 <= a < b < t.len() implies t[a].id != t[b].id && list_before(
        t[a],
        t[b],
    ) by {
        if a < k && b < k {
            assert(t[a] == s[a] && t[b] == s[b]);
        } else if a < k && b == k {
            assert(t[a] == s[a] && t[b] == p);
        } else if a < k && b > k {
            assert(t[a] == s[a] && t[b] == s[b - 1]);
            assert(a < b - 1);
        } else if a == k && b > k {
            assert(t[a] == p && t[b] == s[b - 1]);
        } else {
            assert(a > k && b > k);
            assert(t[a] == s[a - 1] && t[b] == s[b - 1]);
        }
    }
    assert forall|j: int| 0 <= j < t.len() implies entry_ok(t[j]) by {
        if j < k {
            assert(t[j] == s[j]);
        } else if j == k {
            assert(t[j] == p);
        } else {
            assert(t[j] == s[j - 1]);
        }
    }
    assert(t[k] == p);
    assert(has_id(t, p.id));
    assert forall|x: Seq<char>| has_id(s, x) implies has_id(t, x) by {
        let j = choose|j: int| 0 <= j < s.len() && s[j].id == x;
        let tj: int = if j < k { j } else { j + 1 };
        assert(t[tj] == s[j]);
    }
    assert forall|x: Seq<char>| has_id(t, x) && x != p.id implies has_id(s, x) by {
        let j = choose|j: int| 0 <= j < t.len() && t[j].id == x;
        assert(j != k);
        let sj: int = if j < k { j } else { j - 1 };
        assert(t[j] == s[sj]);
    }
    assert(prompt_map_of(t)[p.id] == p) by {
        let j = idx_of(t, p.id);
        assert(0 <= j < t.len() && t[j].id == p.id);
        if j != k {
            let sj: int = if j < k { j } else { j - 1 };
            assert(t[j] == s[sj]);
            assert(has_id(s, p.id));
        }
    }
    assert forall|x: Seq<char>| #[trigger] has_id(t, x) && x != p.id implies prompt_map_of(t)[x]
        == prompt_map_of(s)[x] by {
        let jt = idx_of(t, x);
        assert(0 <= jt < t.len() && t[jt].id == x);
        assert(jt != k);
        let sj: int = if jt < k { jt } else { jt - 1 };
        assert(t[jt] == s[sj]);
        lemma_unique_idx(s, sj);
    }
    assert(prompt_map_of(t) =~= prompt_map_of(s).insert(p.id, p));
}

/// If a sequence with unique identifiers holds the decimal renderings of all
/// of `0 .. n`, it has at least `n` entries: renderings of distinct numbers
/// are distinct, so they occupy distinct entries.
proof fn lemma_digit_ids_bound(s: Seq<PromptV>, n: nat)
    requires
        ids_unique(s),
        forall|k: nat| k < n ==> has_id(s, dec_digits(k)),
    ensures
        n <= s.len(),
    decreases n,
{
    if n > 0 {
        assert(has_id(s, dec_digits((n - 1) as nat)));
        let i = choose|i: int| 0 <= i < s.len() && s[i].id == dec_digits((n - 1) as nat);
        let t = s.remove(i);
        s.remove_ensures(i);
        assert forall|a: int, b: int| 0 <= a < b < t.len() implies t[a].id != t[b].id by {
            let sa: int = if a < i { a } else { a + 1 };
            let sb: int = if b < i { b } else { b + 1 };
            assert(t[a] == s[sa]);
            assert(t[b] == s[sb]);
        }
        assert forall|k: nat| k < (n - 1) as nat implies has_id(t, dec_digits(k)) by {
            assert(has_id(s, dec_digits(k)));
            let j = choose|j: int| 0 <= j < s.len() && s[j].id == dec_digits(k);
            if j == i {
                lemma_dec_digits_inj(k, (n - 1) as nat);
                assert(false);
            }
            let tj: int = if j < i { j } else { j - 1 };
            assert(t[tj] == s[j]);
        }
        lemma_digit_ids_bound(t, (n - 1) as nat);
    }
}

/// The keyed prompt store. All operations are all-or-nothing: a rejected
/// save or a failed lookup leaves the engine exactly as it was.
pub struct StoreEngine {
    entries: Vec<Prompt>,
}

impl View for StoreEngine {
    type V = Map<Seq<char>, PromptV>;

    closed spec fn view(&self) -> Map<Seq<char>, PromptV> {
        prompt_map_of(self.entry_seq())
    }
}

impl StoreEngine {
    /// The stored prompts, in listing order.
    pub closed spec fn entry_seq(&self) -> Seq<PromptV> {
        self.entries.deep_view()
    }

    /// Engine integrity: unique identifiers, listing order kept, and every
    /// entry validated with ordered timestamps.
    pub closed spec fn wf(&self) -> bool {
        store_inv(self.entry_seq())
    }

    /// The entries and the map view agree: each entry is the value stored
    /// under its own identifier.
    pub proof fn lemma_entries_match_view(&self)
        requires
            self.wf(),
        ensures
            forall|i: int|
                0 <= i < self.entry_seq().len() ==> self@.dom().contains(
                    #[trigger] self.entry_seq()[i].id,
                ) && self@[self.entry_seq()[i].id] == self.entry_seq()[i],
            forall|id: Seq<char>|
                #[trigger] self@.dom().contains(id) ==> exists|i: int|
                    0 <= i < self.entry_seq().len() && #[trigger] self.entry_seq()[i].id == id,
            forall|id: Seq<char>| #[trigger] self@.dom().contains(id) ==> self@[id].id == id,
            forall|id: Seq<char>| #[trigger] self@.dom().contains(id) ==> entry_ok(self@[id]),
    {
        let s = self.entry_seq();
        assert forall|i: int| 0 <= i < s.len() implies self@.dom().contains(#[trigger] s[i].id)
            && self@[s[i].id] == s[i] by {
            lemma_unique_idx(s, i);
        }
        assert forall|id: Seq<char>| #[trigger] self@.dom().contains(id) implies self@[id].id == id
            && entry_ok(self@[id]) by {
            let i = idx_of(s, id);
            assert(0 <= i < s.len() && s[i].id == id);
        }
    }

    /// A fresh engine holding nothing.
    pub fn new() -> (r: StoreEngine)
        ensures
            r.wf(),
            r@ == Map::<Seq<char>, PromptV>::empty(),
            r.entry_seq().len() == 0,
    {
        let r = StoreEngine { entries: Vec::new() };
        proof {
            assert(r.entry_seq().len() == 0);
            assert(r@ =~= Map::<Seq<char>, PromptV>::empty());
        }
        r
    }

    /// The number of stored prompts.
    pub fn len(&self) -> (n: usize)
        ensures
            n == self.entry_seq().len(),
    {
        self.entries.len()
    }

    /// The index of the entry with `id`, if one exists.
    fn find(&self, id: &str) -> (r: Option<usize>)
        ensures
            match r {
                Some(i) => i < self.entry_seq().len() && self.entry_seq()[i as int].id == id@,
                None => !has_id(self.entry_seq(), id@),
            },
    {
        let n = self.entries.len();
        let mut i: usize = 0;
        while i < n
            invariant
                n == self.entries.len(),
                i <= n,
                forall|k: int| 0 <= k < i ==> self.entry_seq()[k].id != id@,
            decreases n - i,
        {
            if str_eq(self.entries[i].id.as_str(), id) {
                return Some(i);
            }
            i += 1;
        }
        None
    }

    /// True iff a prompt with `id` is stored.
    pub fn contains(&self, id: &str) -> (r: bool)
        ensures
            r == has_id(self.entry_seq(), id@),
    {
        self.find(id).is_some()
    }

    /// Loads the prompt stored under `id`, or fails with `NotFound`.
    pub fn load(&self, id: &str) -> (r: Result<Prompt, StoreError>)
        requires
            self.wf(),
        ensures
            match r {
                Ok(p) => self@.dom().contains(id@) && p@ == self@[id@],
                Err(e) => e == StoreError::NotFound && !self@.dom().contains(id@),
            },
    {
        match self.find(id) {
            Some(i) => {
                let p = self.entries[i].clone();
                proof {
                    lemma_unique_idx(self.entry_seq(), i as int);
                    assert(p@ == self.entry_seq()[i as int]);
                }
                Ok(p)
            },
            None => Err(StoreError::NotFound),
        }
    }

    /// Deletes the prompt stored under `id`, or fails with `NotFound`; a
    /// second delete of the same identifier therefore fails. Nothing else
    /// changes either way.
    pub fn delete(&mut self, id: &str) -> (r: Result<(), StoreError>)
        requires
            old(self).wf(),
        ensures
            final(self).wf(),
            match r {
                Ok(()) => {
                    &&& old(self)@.dom().contains(id@)
                    &&& final(self)@ == old(self)@.remove(id@)
                    &&& !final(self)@.dom().contains(id@)
                },
                Err(e) => {
                    &&& e == StoreError::NotFound
                    &&& !old(self)@.dom().contains(id@)
                    &&& *final(self) == *old(self)
                },
            },
    {
        match self.find(id) {
            Some(i) => {
                let ghost olds = self.entry_seq();
                proof {
                    lemma_unique_idx(olds, i as int);
                    lemma_remove_entry(olds, i as int);
                }
                let _ = self.entries.remove(i);
                proof {
                    let a = old(self).entries@;
                    a.remove_ensures(i as int);
                    olds.remove_ensures(i as int);
                    assert forall|t: int| 0 <= t < self.entry_seq().len() implies self.entry_seq()[t]
                        == olds.remove(i as int)[t] by {
                        if t < i as int {
                            assert(self.entries@[t] == a[t]);
                        } else {
                            assert(self.entries@[t] == a[t + 1]);
                        }
                    }
                    assert(self.entry_seq() =~= olds.remove(i as int));
                }
                Ok(())
            },
            None => Err(StoreError::NotFound),
        }
    }

    /// Summaries of all stored prompts, most recently updated first, ties
    /// broken by identifier ascending. The listing mirrors the store: one
    /// summary per stored prompt, each the summary of the value stored under
    /// its identifier.
    pub fn list(&self) -> (r: Vec<PromptSummary>)
        requires
            self.wf(),
        ensures
            r.deep_view().len() == self.entry_seq().len(),
            forall|i: int|
                0 <= i < r.deep_view().len() ==> r.deep_view()[i] == summary_of(
                    self.entry_seq()[i],
                ),
            forall|i: int, j: int|
                0 <= i < j < r.deep_view().len() ==> summary_before(
                    r.deep_view()[i],
                    r.deep_view()[j],
                ),
            forall|i: int|
                0 <= i < r.deep_view().len() ==> self@.dom().contains(#[trigger] r.deep_view()[i].id)
                    && r.deep_view()[i] == summary_of(self@[r.deep_view()[i].id]),
    {
        let n = self.entries.len();
        let mut r: Vec<PromptSummary> = Vec::new();
        let mut i: usize = 0;
        while i < n
            invariant
                n == self.entries.len(),
                i <= n,
                r@.len() == i,
                forall|k: int| 0 <= k < i ==> (#[trigger] r@[k])@ == summary_of(self.entry_seq()[k]),
            decreases n - i,
        {
            let s = PromptSummary {
                id: self.entries[i].id.clone(),
                name: self.entries[i].name.clone(),
                created_at: self.entries[i].created_at,
                updated_at: self.entries[i].updated_at,
            };
            assert(s@ == summary_of(self.entry_seq()[i as int]));
            let ghost prevs = r@;
            let ghost sv = s@;
            r.push(s);
            proof {
                assert forall|k: int|
                    0 <= k < i as int + 1 implies (#[trigger] r@[k])@ == summary_of(
                    self.entry_seq()[k],
                ) by {
                    if k < i as int {
                        assert(r@[k] == prevs[k]);
                    } else {
                        assert(r@[k]@ == sv);
                    }
                }
            }
            i += 1;
        }
        proof {
            self.lemma_entries_match_view();
            assert forall|k: int| 0 <= k < r.deep_view().len() implies r.deep_view()[k] == summary_of(
                self.entry_seq()[k],
            ) by {
                assert(r@[k]@ == summary_of(self.entry_seq()[k]));
            }
            let rd = r.deep_view();
            assert forall|a: int, b: int| 0 <= a < b < rd.len() implies summary_before(
                rd[a],
                rd[b],
            ) by {
                assert(list_before(self.entry_seq()[a], self.entry_seq()[b]));
                assert(rd[a] == summary_of(self.entry_seq()[a]));
                assert(rd[b] == summary_of(self.entry_seq()[b]));
            }
            assert forall|a: int| 0 <= a < rd.len() implies self@.dom().contains(
                #[trigger] rd[a].id,
            ) && rd[a] == summary_of(self@[rd[a].id]) by {
                assert(rd[a] == summary_of(self.entry_seq()[a]));
                assert(rd[a].id == self.entry_seq()[a].id);
            }
        }
        r
    }

    /// A decimal identifier no stored prompt carries. Scanning upwards from
    /// zero terminates: the store is finite and distinct counters render to
    /// distinct strings, so at most `len` candidates can be taken.
    fn fresh_id(&self) -> (r: String)
        requires
            ids_unique(self.entry_seq()),
        ensures
            !has_id(self.entry_seq(), r@),
            r@.len() > 0,
    {
        let ghost s = self.entry_seq();
        let len = self.entries.len();
        assert(len == s.len());
        let mut n: u64 = 0;
        loop
            invariant
                s == self.entry_seq(),
                ids_unique(s),
                len == s.len(),
                n as nat <= s.len(),
                forall|k: nat| k < n as nat ==> has_id(s, dec_digits(k)),
            decreases s.len() - n as nat,
        {
            let cand = render_dec(n);
            if !self.contains(cand.as_str()) {
                proof {
                    lemma_dec_digits_len(n as nat);
                }
                return cand;
            }
            proof {
                assert forall|k: nat| k < n as nat + 1 implies has_id(s, dec_digits(k)) by {
                    if k == n as nat {
                        assert(has_id(s, cand@));
                    }
                }
                lemma_digit_ids_bound(s, n as nat + 1);
                assert(n as nat + 1 <= len as nat);
                assert(n < u64::MAX);
            }
            n = n + 1;
        }
    }

    /// The first position whose entry does not come before `p` in listing
    /// order.
    fn find_insert_pos(&self, p: &Prompt) -> (k: usize)
        ensures
            k <= self.entry_seq().len(),
            forall|t: int| 0 <= t < k ==> list_before(self.entry_seq()[t], p@),
            k < self.entry_seq().len() ==> !list_before(self.entry_seq()[k as int], p@),
    {
        let n = self.entries.len();
        let mut k: usize = 0;
        while k < n
            invariant
                n == self.entries.len(),
                k <= n,
                forall|t: int| 0 <= t < k ==> list_before(self.entry_seq()[t], p@),
            decreases n - k,
        {
            let e = &self.entries[k];
            let before = if e.updated_at > p.updated_at {
                true
            } else if e.updated_at == p.updated_at {
                str_lt(e.id.as_str(), p.id.as_str())
            } else {
                false
            };
            if !before {
                return k;
            }
            k += 1;
        }
        k
    }

    /// Inserts a fresh, proper entry at its listing position.
    fn insert_entry(&mut self, p: Prompt)
        requires
            old(self).wf(),
            entry_ok(p@),
            !has_id(old(self).entry_seq(), p@.id),
        ensures
            final(self).wf(),
            final(self)@ == old(self)@.insert(p@.id, p@),
    {
        let k = self.find_insert_pos(&p);
        let ghost olds = self.entry_seq();
        proof {
            lemma_insert_entry(olds, k as int, p@);
        }
        let ghost pv = p@;
        self.entries.insert(k, p);
        proof {
            let a = old(self).entries@;
            a.insert_ensures(k as int, self.entries@[k as int]);
            olds.insert_ensures(k as int, pv);
            assert forall|t: int| 0 <= t < self.entry_seq().len() implies self.entry_seq()[t]
                == olds.insert(k as int, pv)[t] by {
                if t < k as int {
                    assert(self.entries@[t] == a[t]);
                } else if t == k as int {
                    assert(self.entries@[t]@ == pv);
                } else {
                    assert(self.entries@[t] == a[t - 1]);
                }
            }
            assert(self.entry_seq() =~= olds.insert(k as int, pv));
        }
    }

    /// Saves a prompt. An empty identifier asks for a creation under a fresh
    /// generated identifier; a non-empty one updates the prompt stored under
    /// it, or creates it if absent. The prompt is validated, then its tags
    /// are checked against the catalog; any failure aborts with no write at
    /// all. On success the final identifier is returned; the engine owns the
    /// timestamps of what it stores (see [`new_entry`] and [`update_entry`]).
    pub fn save(&mut self, prompt: &Prompt, catalog: &TagCatalog, now: u64) -> (r: Result<
        String,
        StoreError,
    >)
        requires
            old(self).wf(),
            catalog.wf(),
        ensures
            final(self).wf(),
            r is Err <==> !(prompt_well_formed(prompt@) && all_tags_known(prompt@, catalog@)),
            match r {
                Ok(rid) => {
                    &&& rid@.len() > 0
                    &&& (prompt@.id.len() > 0 ==> rid@ == prompt@.id)
                    &&& (prompt@.id.len() == 0 ==> !old(self)@.dom().contains(rid@))
                    &&& (old(self)@.dom().contains(rid@) ==> final(self)@ == old(self)@.insert(
                        rid@,
                        update_entry(prompt@, old(self)@[rid@], now),
                    ))
                    &&& (!old(self)@.dom().contains(rid@) ==> final(self)@ == old(self)@.insert(
                        rid@,
                        new_entry(prompt@, rid@, now),
                    ))
                },
                Err(e) => {
                    &&& *final(self) == *old(self)
                    &&& (e == StoreError::Validation(ValidationError::MissingField)
                        <==> !structure_complete(prompt@.structure))
                    &&& (e == StoreError::Validation(ValidationError::OutOfRange)
                        <==> structure_complete(prompt@.structure) && !(prompt@.advanced matches Some(
                        a,
                    ) ==> advanced_in_range(a)))
                    &&& (e == StoreError::Validation(ValidationError::DuplicateTag)
                        <==> structure_complete(prompt@.structure) && (prompt@.advanced matches Some(
                        a,
                    ) ==> advanced_in_range(a)) && !tags_distinct(prompt@.tags))
                    &&& (e == StoreError::Validation(ValidationError::UnknownTag)
                        <==> prompt_well_formed(prompt@) && !all_tags_known(prompt@, catalog@))
                    &&& (e matches StoreError::Validation(_))
                },
            },
    {
        if let Err(e) = validate(prompt) {
            return Err(StoreError::Validation(e));
        }
        let tn = prompt.tags.len();
        let mut ti: usize = 0;
        while ti < tn
            invariant
                tn == prompt.tags.len(),
                ti <= tn,
                catalog.wf(),
                *self == *old(self),
                old(self).wf(),
                prompt_well_formed(prompt@),
                forall|k: int| 0 <= k < ti ==> catalog@.dom().contains(#[trigger] prompt@.tags[k]),
            decreases tn - ti,
        {
            assert(prompt@.tags[ti as int] == prompt.tags@[ti as int]@);
            if !catalog.has_tag(prompt.tags[ti].as_str()) {
                assert(!catalog@.dom().contains(prompt@.tags[ti as int]));
                assert(!all_tags_known(prompt@, catalog@));
                return Err(StoreError::Validation(ValidationError::UnknownTag));
            }
            ti += 1;
        }
        assert(all_tags_known(prompt@, catalog@));
        if prompt.id.as_str().is_empty() {
            let rid = self.fresh_id();
            let mut stored = prompt.clone();
            stored.id = rid.clone();
            stored.created_at = now;
            stored.updated_at = now;
            assert(stored@ == new_entry(prompt@, rid@, now));
            self.insert_entry(stored);
            Ok(rid)
        } else {
            match self.find(prompt.id.as_str()) {
                Some(i) => {
                    let ghost olds = self.entry_seq();
                    proof {
                        lemma_unique_idx(olds, i as int);
                    }
                    let ghost prev = olds[i as int];
                    let prev_created = self.entries[i].created_at;
                    let prev_updated = self.entries[i].updated_at;
                    assert(prev_created == prev.created_at && prev_updated == prev.updated_at);
                    let mut stored = prompt.clone();
                    stored.created_at = prev_created;
                    stored.updated_at = if now > prev_updated {
                        now
                    } else if prev_updated == u64::MAX {
                        prev_updated
                    } else {
                        prev_updated + 1
                    };
                    assert(stored@ == update_entry(prompt@, prev, now));
                    proof {
                        lemma_remove_entry(olds, i as int);
                    }
                    let _ = self.entries.remove(i);
                    proof {
                        let a = old(self).entries@;
                        a.remove_ensures(i as int);
                        olds.remove_ensures(i as int);
                        assert forall|t: int|
                            0 <= t < self.entry_seq().len() implies self.entry_seq()[t]
                            == olds.remove(i as int)[t] by {
                            if t < i as int {
                                assert(self.entries@[t] == a[t]);
                            } else {
                                assert(self.entries@[t] == a[t + 1]);
                            }
                        }
                        assert(self.entry_seq() =~= olds.remove(i as int));
                    }
                    self.insert_entry(stored);
                    proof {
                        assert(self@ =~= prompt_map_of(olds).insert(
                            prompt@.id,
                            update_entry(prompt@, prev, now),
                        ));
                    }
                    Ok(prompt.id.clone())
                },
                None => {
                    let mut stored = prompt.clone();
                    stored.created_at = now;
                    stored.updated_at = now;
                    assert(stored@ == new_entry(prompt@, prompt@.id, now));
                    self.insert_entry(stored);
                    Ok(prompt.id.clone())
                },
            }
        }
    }

    /// Rebuilds an engine from previously persisted prompts, read in order.
    /// An entry that is not a proper stored prompt, or whose identifier was
    /// already taken, is skipped rather than letting one bad entry spoil the
    /// rest; timestamps are preserved as persisted.
    pub fn restore(prompts: Vec<Prompt>) -> (r: StoreEngine)
        ensures
            r.wf(),
            r@ == restore_map(prompts.deep_view()),
    {
        let n = prompts.len();
        let mut r = StoreEngine::new();
        let mut i: usize = 0;
        proof {
            assert(prompts.deep_view().take(0) =~= Seq::<PromptV>::empty());
        }
        while i < n
            invariant
                n == prompts.len(),
                i <= n,
                r.wf(),
                r@ == restore_map(prompts.deep_view().take(i as int)),
            decreases n - i,
        {
            let p = prompts[i].clone();
            assert(p@ == prompts.deep_view()[i as int]);
            let ok = match validate(&p) {
                Ok(()) => !p.id.as_str().is_empty() && p.created_at <= p.updated_at,
                Err(_) => false,
            };
            proof {
                let taken = prompts.deep_view().take(i as int + 1);
                assert(taken.drop_last() =~= prompts.deep_view().take(i as int));
                assert(taken.last() == prompts.deep_view()[i as int]);
            }
            if ok && !r.contains(p.id.as_str()) {
                r.insert_entry(p);
            }
            i += 1;
        }
        proof {
            assert(prompts.deep_view().take(n as int) =~= prompts.deep_view());
        }
        r
    }
}

/// The mapping that restoring a persisted sequence of prompts yields: read
/// in order, keep each proper entry whose identifier is still free.
pub open spec fn restore_map(s: Seq<PromptV>) -> Map<Seq<char>, PromptV>
    decreases s.len(),
{
    if s.len() == 0 {
        Map::empty()
    } else {
        let m = restore_map(s.drop_last());
        let p = s.last();
        if entry_ok(p) && !m.dom().contains(p.id) {
            m.insert(p.id, p)
        } else {
            m
        }
    }
}

} // verus!
