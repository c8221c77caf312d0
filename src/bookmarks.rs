use vstd::prelude::*;

use crate::origin::{copy_opt, opt_view};

verus! {

/// Most bookmarks that one listing returns.
pub const MAX_LISTED: usize = 200;

/// One saved pictogram of one user.
#[derive(Debug, Clone, PartialEq)]
pub struct BookmarkEntry {
    pub user_id: String,
    pub arasaac_id: i32,
    pub label: Option<String>,
    pub used_count: u64,
    /// Position of the save among all saves: later saves have larger values.
    pub saved_seq: u64,
}

/// What a bookmark holds, as plain values.
pub struct BookmarkView {
    pub label: Option<Seq<char>>,
    pub used_count: nat,
    pub saved_seq: nat,
}

pub open spec fn key_of(e: BookmarkEntry) -> (Seq<char>, i32) {
    (e.user_id@, e.arasaac_id)
}

pub open spec fn view_of(e: BookmarkEntry) -> BookmarkView {
    BookmarkView { label: opt_view(e.label), used_count: e.used_count as nat, saved_seq: e.saved_seq as nat }
}

pub open spec fn map_of(s: Seq<BookmarkEntry>) -> Map<(Seq<char>, i32), BookmarkView>
    decreases s.len(),
{
    if s.len() == 0 {
        Map::empty()
    } else {
        map_of(s.drop_last()).insert(key_of(s.last()), view_of(s.last()))
    }
}

pub open spec fn keys_unique(s: Seq<BookmarkEntry>) -> bool {
    forall|i: int, j: int| 0 <= i < j < s.len() ==> key_of(s[i]) != key_of(s[j])
}

proof fn lemma_map_of_index(s: Seq<BookmarkEntry>, i: int)
    requires
        keys_unique(s),
        0 <= i < s.len(),
    ensures
        map_of(s).contains_key(key_of(s[i])),
        map_of(s)[key_of(s[i])] == view_of(s[i]),
    decreases s.len(),
{
    if i < s.len() - 1 {
        lemma_map_of_index(s.drop_last(), i);
    }
}

proof fn lemma_map_of_absent(s: Seq<BookmarkEntry>, k: (Seq<char>, i32))
    requires
        forall|i: int| 0 <= i < s.len() ==> key_of(s[i]) != k,
    ensures
        !map_of(s).contains_key(k),
    decreases s.len(),
{
    if s.len() > 0 {
        lemma_map_of_absent(s.drop_last(), k);
    }
}

proof fn lemma_map_of_update(s: Seq<BookmarkEntry>, i: int, e: BookmarkEntry)
    requires
        keys_unique(s),
        0 <= i < s.len(),
        key_of(e) == key_of(s[i]),
    ensures
        map_of(s.update(i, e)) == map_of(s).insert(key_of(e), view_of(e)),
    decreases s.len(),
{
    let t = s.update(i, e);
    if i == s.len() - 1 {
        assert(t.drop_last() =~= s.drop_last());
        assert forall|j: int| 0 <= j < s.len() - 1 implies key_of(s.drop_last()[j]) != key_of(e) by {
            assert(key_of(s[j]) != key_of(s[i]));
        }
        lemma_map_of_absent(s.drop_last(), key_of(e));
        assert(map_of(t) =~= map_of(s).insert(key_of(e), view_of(e)));
    } else {
        assert(t.drop_last() =~= s.drop_last().update(i, e));
        lemma_map_of_update(s.drop_last(), i, e);
        assert(key_of(s.last()) != key_of(e));
        assert(map_of(t) =~= map_of(s).insert(key_of(e), view_of(e)));
    }
}

proof fn lemma_map_of_remove(s: Seq<BookmarkEntry>, i: int)
    requires
        keys_unique(s),
        0 <= i < s.len(),
    ensures
        map_of(s.remove(i)) == map_of(s).remove(key_of(s[i])),
    decreases s.len(),
{
    let t = s.remove(i);
    if i == s.len() - 1 {
        assert(t =~= s.drop_last());
        assert forall|j: int| 0 <= j < s.len() - 1 implies key_of(s.drop_last()[j]) != key_of(s[i]) by {
            assert(key_of(s[j]) != key_of(s[i]));
        }
        lemma_map_of_absent(s.drop_last(), key_of(s[i]));
        assert(map_of(t) =~= map_of(s).remove(key_of(s[i])));
    } else {
        assert(t.drop_last() =~= s.drop_last().remove(i));
        assert(t.last() == s.last());
        lemma_map_of_remove(s.drop_last(), i);
        assert(key_of(s.last()) != key_of(s[i]));
        assert(map_of(t) =~= map_of(s).remove(key_of(s[i])));
    }
}

/// Listing order: more uses first, then the more recent save.
pub open spec fn listed_before(a: BookmarkView, b: BookmarkView) -> bool {
    a.used_count > b.used_count || (a.used_count == b.used_count && a.saved_seq > b.saved_seq)
}

/// Every user's saved pictograms, at most one entry per user and pictogram.
pub struct BookmarkBook {
    entries: Vec<BookmarkEntry>,
    next_seq: u64,
}

impl BookmarkBook {
    /// The bookmarks, by user and pictogram id.
    pub closed spec fn view(&self) -> Map<(Seq<char>, i32), BookmarkView> {
        map_of(self.entries@)
    }

    /// One entry per key, and save positions distinct and below the next one.
    pub closed spec fn wf(&self) -> bool {
        &&& keys_unique(self.entries@)
        &&& forall|i: int| 0 <= i < self.entries@.len() ==> (#[trigger] self.entries@[i]).saved_seq
            < self.next_seq
        &&& forall|i: int, j: int|
            0 <= i < j < self.entries@.len() ==> self.entries@[i].saved_seq
                != self.entries@[j].saved_seq
    }

    /// Whether no more saves can be numbered.
    pub closed spec fn exhausted(&self) -> bool {
        self.next_seq == u64::MAX
    }

    /// Whether a bookmark for a new pair can still be saved. Saving again a
    /// pair that is already saved needs no room.
    pub fn has_room(&self) -> (r: bool)
        ensures
            r == !self.exhausted(),
    {
        self.next_seq < u64::MAX
    }

    pub fn new() -> (r: BookmarkBook)
        ensures
            r.wf(),
            r.view() == Map::<(Seq<char>, i32), BookmarkView>::empty(),
            !r.exhausted(),
    {
        BookmarkBook { entries: Vec::new(), next_seq: 0 }
    }

    fn find(&self, user_id: &str, arasaac_id: i32) -> (r: Option<usize>)
        requires
            self.wf(),
        ensures
            match r {
                Some(i) => i < self.entries@.len() && key_of(self.entries@[i as int]) == (
                user_id@,
                arasaac_id,
                ),
                None => forall|i: int|
                    0 <= i < self.entries@.len() ==> key_of(self.entries@[i]) != (
                    user_id@,
                    arasaac_id,
                    ),
            },
    {
        let user = String::from_str(user_id);
        let mut i: usize = 0;
        while i < self.entries.len()
            invariant
                i <= self.entries@.len(),
                user@ == user_id@,
                forall|k: int|
                    0 <= k < i ==> key_of(self.entries@[k]) != (user_id@, arasaac_id),
            decreases self.entries@.len() - i,
        {
            let e = &self.entries[i];
            if e.arasaac_id == arasaac_id && same_user(e, &user) {
                return Some(i);
            }
            i = i + 1;
        }
        None
    }

    /// The bookmark of `user_id` for `arasaac_id`, if saved.
    pub fn get(&self, user_id: &str, arasaac_id: i32) -> (r: Option<BookmarkEntry>)
        requires
            self.wf(),
        ensures
            r is Some <==> self.view().contains_key((user_id@, arasaac_id)),
            r matches Some(e) ==> key_of(e) == (user_id@, arasaac_id) && view_of(e) == self.view()[(
            user_id@,
            arasaac_id,
            )],
    {
        proof {
            reveal(BookmarkBook::view);
        }
        match self.find(user_id, arasaac_id) {
            Some(i) => {
                proof {
                    lemma_map_of_index(self.entries@, i as int);
                }
                Some(copy_entry(&self.entries[i]))
            },
            None => {
                proof {
                    lemma_map_of_absent(self.entries@, (user_id@, arasaac_id));
                }
                None
            },
        }
    }

    /// Saves a bookmark. A new one starts with no uses; saving again keeps
    /// the use count and the label, unless a new label is given.
    pub fn save(&mut self, user_id: &str, arasaac_id: i32, label: Option<String>)
        requires
            old(self).wf(),
            !old(self).exhausted() || old(self).view().contains_key((user_id@, arasaac_id)),
        ensures
            final(self).wf(),
            saves(old(self).view(), final(self).view(), (user_id@, arasaac_id), opt_view(label)),
            old(self).view().contains_key((user_id@, arasaac_id)) ==> final(self).exhausted() == old(
                self,
            ).exhausted(),
    {
        proof {
            reveal(BookmarkBook::view);
        }
        match self.find(user_id, arasaac_id) {
            Some(i) => {
                proof {
                    lemma_map_of_index(self.entries@, i as int);
                }
                let ghost before = self.entries@;
                let old_entry = &self.entries[i];
                let new_label = match label {
                    Some(l) => Some(l),
                    None => copy_opt(&old_entry.label),
                };
                let e = BookmarkEntry {
                    user_id: old_entry.user_id.clone(),
                    arasaac_id,
                    label: new_label,
                    used_count: old_entry.used_count,
                    saved_seq: old_entry.saved_seq,
                };
                self.entries.set(i, e);
                proof {
                    lemma_map_of_update(before, i as int, e);
                    assert(self.entries@ == before.update(i as int, e));
                    assert(map_of(self.entries@)[(user_id@, arasaac_id)] == view_of(e));
                    assert(map_of(self.entries@) =~= map_of(before).insert(
                        (user_id@, arasaac_id),
                        view_of(e),
                    ));
                }
            },
            None => {
                proof {
                    lemma_map_of_absent(self.entries@, (user_id@, arasaac_id));
                }
                let ghost before = self.entries@;
                let e = BookmarkEntry {
                    user_id: String::from_str(user_id),
                    arasaac_id,
                    label,
                    used_count: 0,
                    saved_seq: self.next_seq,
                };
                self.entries.push(e);
                self.next_seq = self.next_seq + 1;
                proof {
                    assert(self.entries@.drop_last() =~= before);
                    assert(map_of(self.entries@) =~= map_of(before).insert(
                        (user_id@, arasaac_id),
                        view_of(e),
                    ));
                }
            },
        }
    }

    /// Removes a bookmark; removing one that is not there changes nothing.
    pub fn unsave(&mut self, user_id: &str, arasaac_id: i32)
        requires
            old(self).wf(),
        ensures
            final(self).wf(),
            final(self).view() == old(self).view().remove((user_id@, arasaac_id)),
            final(self).exhausted() == old(self).exhausted(),
    {
        proof {
            reveal(BookmarkBook::view);
        }
        match self.find(user_id, arasaac_id) {
            Some(i) => {
                let ghost before = self.entries@;
                self.entries.remove(i);
                proof {
                    lemma_map_of_remove(before, i as int);
                    assert forall|a: int, b: int| 0 <= a < b < self.entries@.len() implies key_of(
                        self.entries@[a],
                    ) != key_of(self.entries@[b]) by {
                        before.remove_ensures(i as int);
                        let a0 = if a < i { a } else { a + 1 };
                        let b0 = if b < i { b } else { b + 1 };
                        assert(self.entries@[a] == before[a0]);
                        assert(self.entries@[b] == before[b0]);
                    }
                    assert forall|a: int, b: int| 0 <= a < b < self.entries@.len() implies
                        self.entries@[a].saved_seq != self.entries@[b].saved_seq by {
                        let a0 = if a < i { a } else { a + 1 };
                        let b0 = if b < i { b } else { b + 1 };
                        assert(self.entries@[a] == before[a0]);
                        assert(self.entries@[b] == before[b0]);
                    }
                    assert forall|a: int| 0 <= a < self.entries@.len() implies (
                    #[trigger] self.entries@[a]).saved_seq < self.next_seq by {
                        let a0 = if a < i { a } else { a + 1 };
                        assert(self.entries@[a] == before[a0]);
                    }
                }
            },
            None => {
                proof {
                    lemma_map_of_absent(self.entries@, (user_id@, arasaac_id));
                    assert(map_of(self.entries@) =~= map_of(self.entries@).remove(
                        (user_id@, arasaac_id),
                    ));
                }
            },
        }
    }

    /// Counts one use of a saved pictogram; nothing happens when it is not
    /// saved. The count stops at the largest `u64`.
    pub fn record_use(&mut self, user_id: &str, arasaac_id: i32)
        requires
            old(self).wf(),
        ensures
            final(self).wf(),
            final(self).exhausted() == old(self).exhausted(),
            !old(self).view().contains_key((user_id@, arasaac_id)) ==> final(self).view() == old(
                self,
            ).view(),
            old(self).view().contains_key((user_id@, arasaac_id)) ==> {
                let before = old(self).view()[(user_id@, arasaac_id)];
                &&& final(self).view() == old(self).view().insert(
                    (user_id@, arasaac_id),
                    BookmarkView {
                        used_count: if before.used_count < u64::MAX {
                            before.used_count + 1
                        } else {
                            before.used_count
                        },
                        ..before
                    },
                )
            },
    {
        proof {
            reveal(BookmarkBook::view);
        }
        match self.find(user_id, arasaac_id) {
            Some(i) => {
                proof {
                    lemma_map_of_index(self.entries@, i as int);
                }
                let ghost before = self.entries@;
                let old_entry = &self.entries[i];
                let count = if old_entry.used_count < u64::MAX {
                    old_entry.used_count + 1
                } else {
                    old_entry.used_count
                };
                let e = BookmarkEntry {
                    user_id: old_entry.user_id.clone(),
                    arasaac_id,
                    label: copy_opt(&old_entry.label),
                    used_count: count,
                    saved_seq: old_entry.saved_seq,
                };
                self.entries.set(i, e);
                proof {
                    lemma_map_of_update(before, i as int, e);
                    assert(self.entries@ == before.update(i as int, e));
                    let bv = map_of(before)[(user_id@, arasaac_id)];
                    assert(view_of(e) == BookmarkView {
                        used_count: if bv.used_count < u64::MAX {
                            bv.used_count + 1
                        } else {
                            bv.used_count
                        },
                        ..bv
                    });
                }
            },
            None => {
                proof {
                    lemma_map_of_absent(self.entries@, (user_id@, arasaac_id));
                }
            },
        }
    }

    /// The bookmarks of `user_id`: most used first, then most recently saved,
    /// at most `MAX_LISTED` of them.
    pub fn list_for_user(&self, user_id: &str) -> (r: Vec<BookmarkEntry>)
        requires
            self.wf(),
        ensures
            r@.len() <= MAX_LISTED,
            forall|i: int|
                0 <= i < r@.len() ==> #[trigger] r@[i].user_id@ == user_id@ && self.view().contains_key(
                    key_of(r@[i]),
                ) && self.view()[key_of(r@[i])] == view_of(r@[i]),
            forall|i: int, j: int|
                0 <= i < j < r@.len() ==> listed_before(view_of(r@[i]), view_of(r@[j])),
            r@.len() < MAX_LISTED ==> forall|id: i32|
                self.view().contains_key((user_id@, id)) ==> exists|i: int|
                    0 <= i < r@.len() && #[trigger] r@[i].arasaac_id == id,
            r@.len() > 0 ==> forall|id: i32|
                self.view().contains_key((user_id@, id)) && !listed_before(
                    r@.last()@,
                    self.view()[(user_id@, id)],
                ) ==> exists|i: int| 0 <= i < r@.len() && #[trigger] r@[i].arasaac_id == id,
    {
        proof {
            reveal(BookmarkBook::view);
        }
        let ghost s = self.entries@;
        let mut out: Vec<BookmarkEntry> = Vec::new();
        let mut floor: Option<(u64, u64)> = None;
        let mut done = false;
        while !done && out.len() < MAX_LISTED
            invariant
                self.wf(),
                s == self.entries@,
                out@.len() <= MAX_LISTED,
                forall|i: int| 0 <= i < out@.len() ==> drawn_from(s, #[trigger] out@[i], user_id@),
                forall|i: int, j: int|
                    0 <= i < j < out@.len() ==> listed_before(view_of(out@[i]), view_of(out@[j])),
                floor == (if out@.len() > 0 {
                    Some((out@.last().used_count, out@.last().saved_seq))
                } else {
                    None::<(u64, u64)>
                }),
                forall|k: int|
                    0 <= k < s.len() && s[k].user_id@ == user_id@ && !below(#[trigger] s[k], floor)
                        ==> exists|i: int| 0 <= i < out@.len() && out@[i].arasaac_id == s[k].arasaac_id,
                done ==> forall|k: int|
                    0 <= k < s.len() && #[trigger] s[k].user_id@ == user_id@ ==> exists|i: int|
                        0 <= i < out@.len() && out@[i].arasaac_id == s[k].arasaac_id,
            decreases MAX_LISTED - out@.len(), (if done { 0int } else { 1int }),
        {
            match self.best_below(user_id, floor) {
                None => {
                    done = true;
                },
                Some(k) => {
                    let e = copy_entry(&self.entries[k]);
                    let c = e.used_count;
                    let q = e.saved_seq;
                    let ghost ev = e;
                    let ghost before = out@;
                    out.push(e);
                    proof {
                        assert(out@.last() == ev);
                        assert forall|i: int| 0 <= i < out@.len() implies drawn_from(
                            s,
                            #[trigger] out@[i],
                            user_id@,
                        ) by {
                            if i == before.len() {
                                assert(key_of(s[k as int]) == key_of(out@[i]));
                            } else {
                                assert(out@[i] == before[i]);
                            }
                        }
                        assert forall|i: int, j: int| 0 <= i < j < out@.len() implies listed_before(
                            view_of(out@[i]),
                            view_of(out@[j]),
                        ) by {
                            if j == before.len() {
                                assert(out@[i] == before[i]);
                                if i < before.len() - 1 {
                                    assert(listed_before(view_of(before[i]), view_of(before.last())));
                                }
                            } else {
                                assert(out@[i] == before[i]);
                                assert(out@[j] == before[j]);
                            }
                        }
                        let nf = Some((c, q));
                        assert forall|k2: int|
                            0 <= k2 < s.len() && s[k2].user_id@ == user_id@ && !below(
                                #[trigger] s[k2],
                                nf,
                            ) implies exists|i: int|
                            0 <= i < out@.len() && out@[i].arasaac_id == s[k2].arasaac_id by {
                            if below(s[k2], floor) {
                                // the chosen entry ranks at or above this one, and
                                // nothing else between them remains unlisted
                                if k2 == k as int {
                                    assert(out@[before.len() as int].arasaac_id == s[k2].arasaac_id);
                                } else {
                                    assert(s[k2].saved_seq != s[k as int].saved_seq);
                                    assert(false);
                                }
                            } else {
                                let i = choose|i: int|
                                    0 <= i < before.len() && before[i].arasaac_id == s[k2].arasaac_id;
                                assert(out@[i] == before[i]);
                            }
                        }
                    }
                    floor = Some((c, q));
                },
            }
        }
        proof {
            if out@.len() > 0 {
                assert forall|id: i32|
                    self.view().contains_key((user_id@, id)) && !listed_before(
                        out@.last()@,
                        self.view()[(user_id@, id)],
                    ) implies exists|i: int| 0 <= i < out@.len() && #[trigger] out@[i].arasaac_id
                    == id by {
                    lemma_map_of_has(s, (user_id@, id));
                    let k = choose|k: int| 0 <= k < s.len() && key_of(s[k]) == (user_id@, id);
                    lemma_map_of_index(s, k);
                    assert(!below(s[k], floor));
                }
            }
            assert forall|i: int| 0 <= i < out@.len() implies #[trigger] out@[i].user_id@ == user_id@
                && self.view().contains_key(key_of(out@[i])) && self.view()[key_of(out@[i])]
                == view_of(out@[i]) by {
                let k = choose|k: int|
                    0 <= k < s.len() && key_of(s[k]) == key_of(out@[i]) && view_of(s[k]) == view_of(
                        out@[i],
                    ) && s[k].user_id@ == user_id@;
                lemma_map_of_index(s, k);
            }
            if out@.len() < MAX_LISTED {
                assert forall|id: i32| self.view().contains_key((user_id@, id)) implies exists|i: int|
                    0 <= i < out@.len() && #[trigger] out@[i].arasaac_id == id by {
                    lemma_map_of_has(s, (user_id@, id));
                    let k = choose|k: int| 0 <= k < s.len() && key_of(s[k]) == (user_id@, id);
                    lemma_map_of_index(s, k);
                }
            }
        }
        out
    }

    /// The entry of `user_id` that ranks first among those ranking below `floor`.
    fn best_below(&self, user_id: &str, floor: Option<(u64, u64)>) -> (r: Option<usize>)
        requires
            self.wf(),
        ensures
            match r {
                Some(k) => k < self.entries@.len() && self.entries@[k as int].user_id@ == user_id@
                    && below(self.entries@[k as int], floor) && forall|j: int|
                    0 <= j < self.entries@.len() && self.entries@[j].user_id@ == user_id@ && below(
                        #[trigger] self.entries@[j],
                        floor,
                    ) && j != k ==> listed_before(
                        view_of(self.entries@[k as int]),
                        view_of(self.entries@[j]),
                    ),
                None => forall|j: int|
                    0 <= j < self.entries@.len() && #[trigger] self.entries@[j].user_id@ == user_id@
                        ==> !below(self.entries@[j], floor),
            },
    {
        let ghost s = self.entries@;
        let user = String::from_str(user_id);
        let mut best: Option<usize> = None;
        let mut i: usize = 0;
        while i < self.entries.len()
            invariant
                self.wf(),
                user@ == user_id@,
                s == self.entries@,
                i <= s.len(),
                match best {
                    Some(k) => k < i && s[k as int].user_id@ == user_id@ && below(s[k as int], floor)
                        && forall|j: int|
                        0 <= j < i && s[j].user_id@ == user_id@ && below(#[trigger] s[j], floor) && j
                            != k ==> listed_before(view_of(s[k as int]), view_of(s[j])),
                    None => forall|j: int|
                        0 <= j < i && #[trigger] s[j].user_id@ == user_id@ ==> !below(s[j], floor),
                },
            decreases s.len() - i,
        {
            let e = &self.entries[i];
            if same_user(e, &user) {
                let is_below = match floor {
                    Some((c, q)) => e.used_count < c || (e.used_count == c && e.saved_seq < q),
                    None => true,
                };
                if is_below {
                    match best {
                        Some(k) => {
                            let b = &self.entries[k];
                            if e.used_count > b.used_count || (e.used_count == b.used_count
                                && e.saved_seq > b.saved_seq) {
                                best = Some(i);
                                proof {
                                    assert(s[k as int].saved_seq != s[i as int].saved_seq);
                                }
                            } else {
                                proof {
                                    assert(s[k as int].saved_seq != s[i as int].saved_seq);
                                }
                            }
                        },
                        None => {
                            best = Some(i);
                        },
                    }
                }
            }
            i = i + 1;
        }
        best
    }
}

/// `e` copies an entry of `user` held in `s`.
pub open spec fn drawn_from(s: Seq<BookmarkEntry>, e: BookmarkEntry, user: Seq<char>) -> bool {
    exists|k: int|
        0 <= k < s.len() && key_of(s[k]) == key_of(e) && view_of(s[k]) == view_of(e)
            && s[k].user_id@ == user
}

/// Ranks strictly after the listing position `floor`; everything does when
/// nothing is listed yet.
pub open spec fn below(e: BookmarkEntry, floor: Option<(u64, u64)>) -> bool {
    match floor {
        Some((c, q)) => e.used_count < c || (e.used_count == c && e.saved_seq < q),
        None => true,
    }
}

impl View for BookmarkEntry {
    type V = BookmarkView;

    open spec fn view(&self) -> BookmarkView {
        view_of(*self)
    }
}

fn same_user(e: &BookmarkEntry, user: &String) -> (r: bool)
    ensures
        r == (e.user_id@ == user@),
{
    e.user_id == *user
}

proof fn lemma_map_of_has(s: Seq<BookmarkEntry>, key: (Seq<char>, i32))
    requires
        map_of(s).contains_key(key),
    ensures
        exists|k: int| 0 <= k < s.len() && key_of(s[k]) == key,
    decreases s.len(),
{
    if s.len() > 0 && key_of(s.last()) != key {
        lemma_map_of_has(s.drop_last(), key);
        let k = choose|k: int| 0 <= k < s.drop_last().len() && key_of(s.drop_last()[k]) == key;
        assert(s[k] == s.drop_last()[k]);
    } else if s.len() > 0 {
        assert(key_of(s[s.len() - 1]) == key);
    }
}

fn copy_entry(e: &BookmarkEntry) -> (r: BookmarkEntry)
    ensures
        key_of(r) == key_of(*e),
        view_of(r) == view_of(*e),
        r.used_count == e.used_count,
        r.saved_seq == e.saved_seq,
{
    BookmarkEntry {
        user_id: e.user_id.clone(),
        arasaac_id: e.arasaac_id,
        label: copy_opt(&e.label),
        used_count: e.used_count,
        saved_seq: e.saved_seq,
    }
}

/// `after` is `before` with a save under `key`: a new bookmark starts with no
/// uses and the given label; an existing one keeps its use count and save
/// position, and its label unless a new one is given. Other keys are untouched.
pub open spec fn saves(
    before: Map<(Seq<char>, i32), BookmarkView>,
    after: Map<(Seq<char>, i32), BookmarkView>,
    key: (Seq<char>, i32),
    label: Option<Seq<char>>,
) -> bool {
    &&& after.contains_key(key)
    &&& after == before.insert(key, after[key])
    &&& before.contains_key(key) ==> {
        &&& after[key].used_count == before[key].used_count
        &&& after[key].saved_seq == before[key].saved_seq
        &&& after[key].label == match label {
            Some(l) => Some(l),
            None => before[key].label,
        }
    }
    &&& !before.contains_key(key) ==> after[key].used_count == 0 && after[key].label == label
}

/// Saving with a label and then saving again without one leaves the label of
/// the first save, and the second save changes neither the use count nor
/// anything else.
pub proof fn lemma_resave_without_label(
    start: Map<(Seq<char>, i32), BookmarkView>,
    first: Map<(Seq<char>, i32), BookmarkView>,
    second: Map<(Seq<char>, i32), BookmarkView>,
    key: (Seq<char>, i32),
    label: Seq<char>,
)
    requires
        saves(start, first, key, Some(label)),
        saves(first, second, key, None),
    ensures
        second[key].label == Some(label),
        second[key].used_count == first[key].used_count,
        second == first,
{
    assert(second =~= first);
}

} // verus!
