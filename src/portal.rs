use vstd::prelude::*;

use crate::text::{find, views};

verus! {

/// The map that pairs each of `keys` with the value at its position.
pub open spec fn keyed<V>(keys: Seq<Seq<char>>, vals: Seq<V>) -> Map<Seq<char>, V> {
    Map::new(|k: Seq<char>| keys.contains(k), |k: Seq<char>| vals[keys.index_of(k)])
}

/// The contents of the entries named by `ids`, in order, skipping names that
/// have no entry.
pub open spec fn resolve<C>(ids: Seq<Seq<char>>, entries: Map<Seq<char>, C>) -> Seq<C>
    decreases ids.len(),
{
    if ids.len() == 0 {
        Seq::empty()
    } else {
        let rest = resolve(ids.drop_last(), entries);
        if entries.contains_key(ids.last()) {
            rest.push(entries[ids.last()])
        } else {
            rest
        }
    }
}

/// The channel that an optional name selects: the unnamed one is `""`.
pub open spec fn channel_name(name: Option<String>) -> Seq<char> {
    match name {
        Some(n) => n@,
        None => Seq::empty(),
    }
}

/// The abstract registry: each channel's entry ids in order of insertion, and
/// each entry's content.
pub ghost struct PortalsModel<C> {
    pub channels: Map<Seq<char>, Seq<Seq<char>>>,
    pub entries: Map<Seq<char>, C>,
}

impl<C> PortalsModel<C> {
    /// The ids listed under channel `ch`; none for a channel never used.
    pub open spec fn ids_in(self, ch: Seq<char>) -> Seq<Seq<char>> {
        if self.channels.contains_key(ch) {
            self.channels[ch]
        } else {
            Seq::empty()
        }
    }

    /// What the markers of channel `ch` render, in order.
    pub open spec fn listed(self, ch: Seq<char>) -> Seq<C> {
        resolve(self.ids_in(ch), self.entries)
    }

    /// The registry after entry `id` is given content `c` from channel `ch`:
    /// a new id goes to the end of `ch`, a known one keeps its place.
    pub open spec fn inserted(self, ch: Seq<char>, id: Seq<char>, c: C) -> PortalsModel<C> {
        PortalsModel {
            channels: if self.entries.contains_key(id) {
                self.channels
            } else {
                self.channels.insert(ch, self.ids_in(ch).push(id))
            },
            entries: self.entries.insert(id, c),
        }
    }

    /// Every listed id has an entry, and no id is listed twice, whether in one
    /// channel or in two.
    pub open spec fn tidy(self) -> bool {
        &&& forall|ch: Seq<char>, x: Seq<char>|
            self.channels.contains_key(ch) && #[trigger] self.channels[ch].contains(x)
                ==> self.entries.contains_key(x)
        &&& forall|ch: Seq<char>| #[trigger]
            self.channels.contains_key(ch) ==> self.channels[ch].no_duplicates()
        &&& forall|c1: Seq<char>, c2: Seq<char>, x: Seq<char>|
            c1 != c2 && self.channels.contains_key(c1) && self.channels.contains_key(c2)
                && #[trigger] self.channels[c1].contains(x) ==> !#[trigger] self.channels[c2].contains(
                x,
            )
    }

    /// The registry after entry `id` is dropped from channel `ch`.
    pub open spec fn removed(self, ch: Seq<char>, id: Seq<char>) -> PortalsModel<C> {
        PortalsModel {
            channels: if self.channels.contains_key(ch) {
                self.channels.insert(ch, self.channels[ch].remove_value(id))
            } else {
                self.channels
            },
            entries: self.entries.remove(id),
        }
    }
}

/// Content that was sent away from where it was declared, grouped by the
/// named channel whose markers render it.
pub struct Portals<C> {
    channel_names: Vec<String>,
    channel_ids: Vec<Vec<String>>,
    entry_ids: Vec<String>,
    entry_contents: Vec<C>,
}

pub open spec fn channel_views(s: Seq<Vec<String>>) -> Seq<Seq<Seq<char>>> {
    s.map_values(|v: Vec<String>| views(v@))
}

impl<C> View for Portals<C> {
    type V = PortalsModel<C>;

    closed spec fn view(&self) -> PortalsModel<C> {
        PortalsModel {
            channels: keyed(views(self.channel_names@), channel_views(self.channel_ids@)),
            entries: keyed(views(self.entry_ids@), self.entry_contents@),
        }
    }
}

proof fn lemma_index_of_unique(keys: Seq<Seq<char>>, i: int)
    requires
        keys.no_duplicates(),
        0 <= i < keys.len(),
    ensures
        keys.contains(keys[i]),
        keys.index_of(keys[i]) == i,
{
    assert(keys.contains(keys[i]));
}

proof fn lemma_keyed_push<V>(keys: Seq<Seq<char>>, vals: Seq<V>, k: Seq<char>, v: V)
    requires
        keys.no_duplicates(),
        !keys.contains(k),
        keys.len() == vals.len(),
    ensures
        keyed(keys.push(k), vals.push(v)) == keyed(keys, vals).insert(k, v),
        keys.push(k).no_duplicates(),
{
    let p = keys.push(k);
    assert(p.no_duplicates()) by {
        assert forall|a: int, b: int| 0 <= a < p.len() && 0 <= b < p.len() && a != b implies p[a]
            != p[b] by {
            if a < keys.len() && b == keys.len() {
                assert(keys.contains(p[a]));
            }
            if b < keys.len() && a == keys.len() {
                assert(keys.contains(p[b]));
            }
        }
    }
    assert forall|x: Seq<char>| p.contains(x) <==> keys.contains(x) || x == k by {
        if p.contains(x) {
            let j = choose|j: int| 0 <= j < p.len() && p[j] == x;
            if j < keys.len() {
                assert(keys[j] == x);
            }
        }
        if keys.contains(x) {
            let j = choose|j: int| 0 <= j < keys.len() && keys[j] == x;
            assert(p[j] == x);
        }
        if x == k {
            assert(p[keys.len() as int] == x);
        }
    }
    assert forall|x: Seq<char>| #[trigger] p.contains(x) implies keyed(p, vals.push(v))[x]
        == keyed(keys, vals).insert(k, v)[x] by {
        if x == k {
            lemma_index_of_unique(p, keys.len() as int);
        } else {
            let j = choose|j: int| 0 <= j < keys.len() && keys[j] == x;
            lemma_index_of_unique(keys, j);
            lemma_index_of_unique(p, j);
        }
    }
    assert(keyed(p, vals.push(v)) =~= keyed(keys, vals).insert(k, v));
}

proof fn lemma_keyed_update<V>(keys: Seq<Seq<char>>, vals: Seq<V>, i: int, v: V)
    requires
        keys.no_duplicates(),
        0 <= i < keys.len(),
        keys.len() == vals.len(),
    ensures
        keyed(keys, vals.update(i, v)) == keyed(keys, vals).insert(keys[i], v),
{
    lemma_index_of_unique(keys, i);
    assert forall|x: Seq<char>| #[trigger] keys.contains(x) implies keyed(keys, vals.update(i, v))[x]
        == keyed(keys, vals).insert(keys[i], v)[x] by {
        let j = choose|j: int| 0 <= j < keys.len() && keys[j] == x;
        lemma_index_of_unique(keys, j);
    }
    assert(keyed(keys, vals.update(i, v)) =~= keyed(keys, vals).insert(keys[i], v));
}

proof fn lemma_keyed_remove<V>(keys: Seq<Seq<char>>, vals: Seq<V>, i: int)
    requires
        keys.no_duplicates(),
        0 <= i < keys.len(),
        keys.len() == vals.len(),
    ensures
        keyed(keys.remove(i), vals.remove(i)) == keyed(keys, vals).remove(keys[i]),
        keys.remove(i).no_duplicates(),
{
    let r = keys.remove(i);
    assert(r.no_duplicates()) by {
        assert forall|a: int, b: int| 0 <= a < r.len() && 0 <= b < r.len() && a != b implies r[a]
            != r[b] by {
            let a2 = if a < i {
                a
            } else {
                a + 1
            };
            let b2 = if b < i {
                b
            } else {
                b + 1
            };
            assert(r[a] == keys[a2] && r[b] == keys[b2]);
        }
    }
    assert forall|x: Seq<char>| r.contains(x) <==> keys.contains(x) && x != keys[i] by {
        if r.contains(x) {
            let j = choose|j: int| 0 <= j < r.len() && r[j] == x;
            let j2 = if j < i {
                j
            } else {
                j + 1
            };
            assert(keys[j2] == x);
            assert(j2 != i);
        }
        if keys.contains(x) && x != keys[i] {
            let j = choose|j: int| 0 <= j < keys.len() && keys[j] == x;
            if j < i {
                assert(r[j] == x);
            } else {
                assert(r[j - 1] == x);
            }
        }
    }
    assert forall|x: Seq<char>| #[trigger] r.contains(x) implies keyed(r, vals.remove(i))[x]
        == keyed(keys, vals)[x] by {
        let j = choose|j: int| 0 <= j < r.len() && r[j] == x;
        lemma_index_of_unique(r, j);
        let j2 = if j < i {
            j
        } else {
            j + 1
        };
        assert(keys[j2] == x);
        lemma_index_of_unique(keys, j2);
    }
    assert(keyed(r, vals.remove(i)) =~= keyed(keys, vals).remove(keys[i]));
}

impl<C> Portals<C> {
    /// The registry's invariant: channel names and entry ids are each listed
    /// once, each with its own sequence or content.
    pub closed spec fn wf(&self) -> bool {
        &&& views(self.channel_names@).no_duplicates()
        &&& self.channel_names@.len() == self.channel_ids@.len()
        &&& views(self.entry_ids@).no_duplicates()
        &&& self.entry_ids@.len() == self.entry_contents@.len()
    }

    pub fn new() -> (r: Self)
        ensures
            r.wf(),
            r@.tidy(),
            r@.channels == Map::<Seq<char>, Seq<Seq<char>>>::empty(),
            r@.entries == Map::<Seq<char>, C>::empty(),
    {
        let r = Portals {
            channel_names: Vec::new(),
            channel_ids: Vec::new(),
            entry_ids: Vec::new(),
            entry_contents: Vec::new(),
        };
        proof {
            assert(views(r.channel_names@) =~= Seq::<Seq<char>>::empty());
            assert(views(r.entry_ids@) =~= Seq::<Seq<char>>::empty());
            assert(r@.channels =~= Map::<Seq<char>, Seq<Seq<char>>>::empty());
            assert(r@.entries =~= Map::<Seq<char>, C>::empty());
        }
        r
    }

    /// Sets the content of entry `id`. An id that has no entry yet is also
    /// appended to channel `name`; one that has keeps its place.
    pub fn insert(&mut self, name: Option<String>, id: &String, children: C)
        requires
            old(self).wf(),
        ensures
            final(self).wf(),
            final(self)@ == old(self)@.inserted(channel_name(name), id@, children),
    {
        let ghost ch = channel_name(name);
        let name = match name {
            Some(n) => n,
            None => String::new(),
        };
        let found = find(&self.entry_ids, id);
        if found.is_none() {
            let ci = find(&self.channel_names, &name);
            match ci {
                Some(c) => {
                    proof {
                        lemma_index_of_unique(views(self.channel_names@), c as int);
                    }
                    let ghost before = self.channel_ids@;
                    let mut ids: Vec<String> = Vec::new();
                    core::mem::swap(&mut ids, &mut self.channel_ids[c]);
                    let fresh = id.clone();
                    proof {
                        lemma_views_push_seq(ids@, fresh);
                    }
                    ids.push(fresh);
                    core::mem::swap(&mut ids, &mut self.channel_ids[c]);
                    proof {
                        assert(channel_views(self.channel_ids@) =~= channel_views(before).update(
                            c as int,
                            channel_views(before)[c as int].push(id@),
                        ));
                        lemma_keyed_update(
                            views(self.channel_names@),
                            channel_views(before),
                            c as int,
                            channel_views(before)[c as int].push(id@),
                        );
                    }
                },
                None => {
                    let mut ids: Vec<String> = Vec::new();
                    ids.push(id.clone());
                    proof {
                        assert(views(ids@) =~= seq![id@]);
                        assert(seq![id@] =~= Seq::<Seq<char>>::empty().push(id@));
                        assert(channel_views(self.channel_ids@.push(ids)) =~= channel_views(
                            self.channel_ids@,
                        ).push(views(ids@)));
                        lemma_keyed_push(
                            views(self.channel_names@),
                            channel_views(self.channel_ids@),
                            ch,
                            views(ids@),
                        );
                        assert(views(self.channel_names@.push(name)) =~= views(
                            self.channel_names@,
                        ).push(name@));
                    }
                    self.channel_names.push(name);
                    self.channel_ids.push(ids);
                },
            }
            proof {
                assert(views(self.entry_ids@.push(*id)) =~= views(self.entry_ids@).push(
                    id@,
                ));
                lemma_keyed_push(views(self.entry_ids@), self.entry_contents@, id@, children);
            }
            self.entry_ids.push(id.clone());
            self.entry_contents.push(children);
        } else {
            let e = found.unwrap();
            proof {
                lemma_keyed_update(views(self.entry_ids@), self.entry_contents@, e as int, children);
                assert(views(self.entry_ids@)[e as int] == id@);
                lemma_index_of_unique(views(self.entry_ids@), e as int);
            }
            self.entry_contents.set(e, children);
        }
    }

    /// Drops entry `id` and its place in channel `name`; either being absent
    /// already is no fault.
    pub fn remove(&mut self, name: Option<String>, id: String)
        requires
            old(self).wf(),
        ensures
            final(self).wf(),
            final(self)@ == old(self)@.removed(channel_name(name), id@),
    {
        let ghost ch = channel_name(name);
        let name = match name {
            Some(n) => n,
            None => String::new(),
        };
        match find(&self.entry_ids, &id) {
            Some(e) => {
                proof {
                    assert(views(self.entry_ids@)[e as int] == id@);
                    lemma_keyed_remove(views(self.entry_ids@), self.entry_contents@, e as int);
                    assert(views(self.entry_ids@.remove(e as int)) =~= views(
                        self.entry_ids@,
                    ).remove(e as int));
                }
                self.entry_ids.remove(e);
                self.entry_contents.remove(e);
            },
            None => {
                proof {
                    assert(self@.entries.remove(id@) =~= self@.entries);
                }
            },
        }
        match find(&self.channel_names, &name) {
            Some(c) => {
                proof {
                    assert(views(self.channel_names@)[c as int] == ch);
                    lemma_index_of_unique(views(self.channel_names@), c as int);
                }
                let ghost before = self.channel_ids@;
                let ghost old_ids = views(before[c as int]@);
                let mut ids: Vec<String> = Vec::new();
                core::mem::swap(&mut ids, &mut self.channel_ids[c]);
                match find(&ids, &id) {
                    Some(p) => {
                        proof {
                            lemma_first_index(old_ids, p as int);
                            assert(views(ids@.remove(p as int)) =~= old_ids.remove(p as int));
                        }
                        ids.remove(p);
                    },
                    None => {
                        proof {
                            old_ids.index_of_first_ensures(id@);
                        }
                    },
                }
                core::mem::swap(&mut ids, &mut self.channel_ids[c]);
                proof {
                    let new_ids = old_ids.remove_value(id@);
                    assert(channel_views(self.channel_ids@) =~= channel_views(before).update(
                        c as int,
                        new_ids,
                    ));
                    lemma_keyed_update(views(self.channel_names@), channel_views(before), c as int, new_ids);
                }
            },
            None => {},
        }
    }

    /// The contents listed under channel `name`, in order of insertion.
    pub fn entries(&self, name: Option<String>) -> (r: Vec<&C>)
        requires
            self.wf(),
        ensures
            r@.map_values(|c: &C| *c) == self@.listed(channel_name(name)),
    {
        let ghost ch = channel_name(name);
        let name = match name {
            Some(n) => n,
            None => String::new(),
        };
        let mut r: Vec<&C> = Vec::new();
        match find(&self.channel_names, &name) {
            Some(c) => {
                proof {
                    assert(views(self.channel_names@)[c as int] == ch);
                    lemma_index_of_unique(views(self.channel_names@), c as int);
                }
                let ids = &self.channel_ids[c];
                let ghost all = views(ids@);
                assert(self@.ids_in(ch) == all);
                let mut i: usize = 0;
                while i < ids.len()
                    invariant
                        self.wf(),
                        all == views(ids@),
                        0 <= i <= ids.len(),
                        r@.map_values(|c: &C| *c) == resolve(all.take(i as int), self@.entries),
                    decreases ids.len() - i,
                {
                    proof {
                        assert(all.take(i + 1).drop_last() =~= all.take(i as int));
                        assert(all.take(i + 1).last() == ids@[i as int]@);
                    }
                    match find(&self.entry_ids, &ids[i]) {
                        Some(e) => {
                            proof {
                                assert(views(self.entry_ids@)[e as int] == ids@[i as int]@);
                                lemma_index_of_unique(views(self.entry_ids@), e as int);
                                assert((r@.push(&self.entry_contents[e as int])).map_values(
                                    |c: &C| *c,
                                ) =~= r@.map_values(|c: &C| *c).push(self.entry_contents@[e as int]));
                            }
                            r.push(&self.entry_contents[e]);
                        },
                        None => {},
                    }
                    i = i + 1;
                }
                proof {
                    assert(all.take(ids@.len() as int) =~= all);
                }
            },
            None => {
                proof {
                    assert(r@.map_values(|c: &C| *c) =~= Seq::<C>::empty());
                }
            },
        }
        r
    }
}

proof fn lemma_views_push_seq(s: Seq<String>, x: String)
    ensures
        views(s.push(x)) == views(s).push(x@),
{
    assert(views(s.push(x)) =~= views(s).push(x@));
}

proof fn lemma_first_index(s: Seq<Seq<char>>, p: int)
    requires
        0 <= p < s.len(),
        forall|j: int| 0 <= j < p ==> s[j] != s[p],
    ensures
        s.remove_value(s[p]) == s.remove(p),
{
    s.index_of_first_ensures(s[p]);
    assert(s.contains(s[p]));
    let k = s.index_of_first(s[p])->Some_0;
    assert(k == p) by {
        if k < p {
        } else if k > p {
        }
    }
}

/// What a channel lists does not depend on entries that it does not name.
proof fn lemma_resolve_frame<C>(ids: Seq<Seq<char>>, entries: Map<Seq<char>, C>, k: Seq<char>, c: C)
    requires
        !ids.contains(k),
    ensures
        resolve(ids, entries.insert(k, c)) == resolve(ids, entries),
        resolve(ids, entries.remove(k)) == resolve(ids, entries),
    decreases ids.len(),
{
    if ids.len() > 0 {
        assert(ids.drop_last().len() < ids.len());
        assert forall|x: Seq<char>| ids.drop_last().contains(x) implies ids.contains(x) by {
            let j = choose|j: int| 0 <= j < ids.drop_last().len() && ids.drop_last()[j] == x;
            assert(ids[j] == x);
        }
        lemma_resolve_frame(ids.drop_last(), entries, k, c);
        assert(ids[ids.len() - 1] == ids.last());
    }
}

/// Appending a named entry to a channel appends its content to the listing.
proof fn lemma_resolve_push<C>(ids: Seq<Seq<char>>, entries: Map<Seq<char>, C>, k: Seq<char>)
    requires
        entries.contains_key(k),
    ensures
        resolve(ids.push(k), entries) == resolve(ids, entries).push(entries[k]),
{
    assert(ids.push(k).drop_last() =~= ids);
}

/// Entries inserted under fresh ids into one channel are listed there in the
/// order of insertion, after what the channel listed before; removing the
/// middle one leaves the other two in that order.
pub proof fn lemma_insertion_order<C>(
    m: PortalsModel<C>,
    ch: Seq<char>,
    e1: Seq<char>,
    c1: C,
    e2: Seq<char>,
    c2: C,
    e3: Seq<char>,
    c3: C,
)
    requires
        e1 != e2,
        e2 != e3,
        e1 != e3,
        !m.entries.contains_key(e1),
        !m.entries.contains_key(e2),
        !m.entries.contains_key(e3),
        !m.ids_in(ch).contains(e1),
        !m.ids_in(ch).contains(e2),
        !m.ids_in(ch).contains(e3),
    ensures
        m.inserted(ch, e1, c1).inserted(ch, e2, c2).inserted(ch, e3, c3).listed(ch) == m.listed(
            ch,
        ) + seq![c1, c2, c3],
        m.inserted(ch, e1, c1).inserted(ch, e2, c2).inserted(ch, e3, c3).removed(ch, e2).listed(ch)
            == m.listed(ch) + seq![c1, c3],
{
    let ids = m.ids_in(ch);
    let m1 = m.inserted(ch, e1, c1);
    let m2 = m1.inserted(ch, e2, c2);
    let m3 = m2.inserted(ch, e3, c3);
    assert(m1.ids_in(ch) == ids.push(e1));
    assert(m2.ids_in(ch) == ids.push(e1).push(e2));
    assert(m3.ids_in(ch) == ids.push(e1).push(e2).push(e3));
    let base = resolve(ids, m.entries);
    let e_1 = m.entries.insert(e1, c1);
    let e_2 = e_1.insert(e2, c2);
    let e_3 = e_2.insert(e3, c3);
    assert(!ids.push(e1).contains(e2)) by {
        if ids.push(e1).contains(e2) {
            let j = choose|j: int| 0 <= j < ids.push(e1).len() && ids.push(e1)[j] == e2;
            if j < ids.len() {
                assert(ids.contains(e2));
            }
        }
    }
    assert(!ids.push(e1).push(e2).contains(e3)) by {
        if ids.push(e1).push(e2).contains(e3) {
            let j = choose|j: int|
                0 <= j < ids.push(e1).push(e2).len() && ids.push(e1).push(e2)[j] == e3;
            if j < ids.len() {
                assert(ids.contains(e3));
            }
        }
    }
    lemma_resolve_frame(ids, m.entries, e1, c1);
    lemma_resolve_frame(ids, e_1, e2, c2);
    lemma_resolve_frame(ids, e_2, e3, c3);
    lemma_resolve_frame(ids.push(e1), e_1, e2, c2);
    lemma_resolve_frame(ids.push(e1), e_2, e3, c3);
    lemma_resolve_frame(ids.push(e1).push(e2), e_2, e3, c3);
    lemma_resolve_push(ids, e_1, e1);
    lemma_resolve_push(ids.push(e1), e_2, e2);
    lemma_resolve_push(ids.push(e1).push(e2), e_3, e3);
    assert(m3.listed(ch) =~= base + seq![c1, c2, c3]);

    let full = ids.push(e1).push(e2).push(e3);
    let kept = ids.push(e1).push(e3);
    assert(full.remove_value(e2) =~= kept) by {
        full.index_of_first_ensures(e2);
        assert(full[ids.len() as int + 1] == e2);
        assert(full.contains(e2));
        let k = full.index_of_first(e2)->Some_0;
        assert(k == ids.len() + 1) by {
            if k < ids.len() {
                assert(ids[k] == e2);
                assert(ids.contains(e2));
            } else if k == ids.len() {
            } else if k > ids.len() + 1 {
            }
        }
    }
    let m4 = m3.removed(ch, e2);
    assert(m3.channels.contains_key(ch));
    assert(m4.ids_in(ch) == kept);
    let e_4 = e_3.remove(e2);
    assert(!ids.contains(e2));
    assert(!ids.push(e1).contains(e2));
    assert(!kept.contains(e2)) by {
        if kept.contains(e2) {
            let j = choose|j: int| 0 <= j < kept.len() && kept[j] == e2;
            if j < ids.len() {
                assert(ids.contains(e2));
            }
        }
    }
    assert(!ids.push(e1).contains(e3)) by {
        if ids.push(e1).contains(e3) {
            let j = choose|j: int| 0 <= j < ids.push(e1).len() && ids.push(e1)[j] == e3;
            if j < ids.len() {
                assert(ids.contains(e3));
            }
        }
    }
    lemma_resolve_frame(kept, e_3, e2, c2);
    lemma_resolve_push(ids.push(e1), e_3, e3);
    lemma_resolve_frame(ids.push(e1), e_2, e3, c3);
    lemma_resolve_push(ids, e_2, e1);
    lemma_resolve_frame(ids, e_1, e2, c2);
    assert(e_2.contains_key(e1));
    assert(resolve(ids.push(e1), e_2) == base.push(c1));
    assert(resolve(kept, e_3) == base.push(c1).push(c3));
    assert(m4.listed(ch) =~= base + seq![c1, c3]);
}

/// Inserting a known entry id again replaces its content in place: no
/// channel gains or loses an id, and the entry holds the new content.
pub proof fn lemma_reinsert_in_place<C>(
    m: PortalsModel<C>,
    ch1: Seq<char>,
    ch2: Seq<char>,
    id: Seq<char>,
    c1: C,
    c2: C,
)
    ensures
        m.inserted(ch1, id, c1).inserted(ch2, id, c2).channels == m.inserted(ch1, id, c1).channels,
        m.inserted(ch1, id, c1).inserted(ch2, id, c2).entries == m.inserted(
            ch1,
            id,
            c1,
        ).entries.insert(id, c2),
        m.inserted(ch1, id, c1).inserted(ch2, id, c2).entries[id] == c2,
{
}

proof fn lemma_remove_value_unique(s: Seq<Seq<char>>, v: Seq<char>)
    requires
        s.no_duplicates(),
    ensures
        s.remove_value(v).no_duplicates(),
        forall|x: Seq<char>| #[trigger] s.remove_value(v).contains(x) <==> s.contains(x) && x != v,
{
    s.index_of_first_ensures(v);
    if s.contains(v) {
        let k = s.index_of_first(v)->Some_0;
        let r = s.remove(k);
        assert(s.remove_value(v) == r);
        assert forall|a: int, b: int| 0 <= a < r.len() && 0 <= b < r.len() && a != b implies r[a]
            != r[b] by {
            let a2 = if a < k {
                a
            } else {
                a + 1
            };
            let b2 = if b < k {
                b
            } else {
                b + 1
            };
            assert(r[a] == s[a2] && r[b] == s[b2]);
        }
        assert forall|x: Seq<char>| #[trigger] r.contains(x) <==> s.contains(x) && x != v by {
            if r.contains(x) {
                let j = choose|j: int| 0 <= j < r.len() && r[j] == x;
                let j2 = if j < k {
                    j
                } else {
                    j + 1
                };
                assert(s[j2] == x);
                assert(j2 != k);
            }
            if s.contains(x) && x != v {
                let j = choose|j: int| 0 <= j < s.len() && s[j] == x;
                if j < k {
                    assert(r[j] == x);
                } else {
                    assert(j != k);
                    assert(r[j - 1] == x);
                }
            }
        }
    } else {
        assert(s.remove_value(v) == s);
    }
}

proof fn lemma_push_contains(s: Seq<Seq<char>>, v: Seq<char>)
    ensures
        forall|x: Seq<char>| #[trigger] s.push(v).contains(x) <==> s.contains(x) || x == v,
        !s.contains(v) && s.no_duplicates() ==> s.push(v).no_duplicates(),
{
    let p = s.push(v);
    assert forall|x: Seq<char>| #[trigger] p.contains(x) <==> s.contains(x) || x == v by {
        if p.contains(x) {
            let j = choose|j: int| 0 <= j < p.len() && p[j] == x;
            if j < s.len() {
                assert(s[j] == x);
            }
        }
        if s.contains(x) {
            let j = choose|j: int| 0 <= j < s.len() && s[j] == x;
            assert(p[j] == x);
        }
        if x == v {
            assert(p[s.len() as int] == x);
        }
    }
    if !s.contains(v) && s.no_duplicates() {
        assert forall|a: int, b: int| 0 <= a < p.len() && 0 <= b < p.len() && a != b implies p[a]
            != p[b] by {
            if a < s.len() && b == s.len() {
                assert(s.contains(p[a]));
            }
            if b < s.len() && a == s.len() {
                assert(s.contains(p[b]));
            }
        }
    }
}

/// Inserting keeps a tidy registry tidy.
pub proof fn lemma_insert_keeps_tidy<C>(m: PortalsModel<C>, ch: Seq<char>, id: Seq<char>, c: C)
    requires
        m.tidy(),
    ensures
        m.inserted(ch, id, c).tidy(),
{
    let n = m.inserted(ch, id, c);
    if !m.entries.contains_key(id) {
        let old_ids = m.ids_in(ch);
        lemma_push_contains(old_ids, id);
        assert forall|k: Seq<char>| m.channels.contains_key(k) implies !m.channels[k].contains(id) by {}
        assert(!old_ids.contains(id));
        assert forall|k: Seq<char>, x: Seq<char>|
            n.channels.contains_key(k) && #[trigger] n.channels[k].contains(x) implies n.entries.contains_key(x) by {
            if k == ch {
                if old_ids.contains(x) {
                    assert(m.channels.contains_key(ch));
                }
            }
        }
        assert forall|k: Seq<char>| #[trigger] n.channels.contains_key(k) implies n.channels[k].no_duplicates() by {
            if k == ch {
                if m.channels.contains_key(ch) {
                    assert(m.channels[ch].no_duplicates());
                }
            }
        }
        assert forall|c1: Seq<char>, c2: Seq<char>, x: Seq<char>|
            c1 != c2 && n.channels.contains_key(c1) && n.channels.contains_key(c2)
                && #[trigger] n.channels[c1].contains(x) implies !#[trigger] n.channels[c2].contains(x) by {
            if c1 == ch {
                if x != id {
                    assert(m.channels.contains_key(ch));
                }
            } else if c2 == ch {
                if x != id {
                    if m.channels.contains_key(ch) {
                        assert(!m.channels[ch].contains(x));
                    }
                }
            }
        }
    }
}

/// Removing an entry from the one channel that lists it, or one that no
/// channel lists, keeps a tidy registry tidy.
pub proof fn lemma_remove_keeps_tidy<C>(m: PortalsModel<C>, ch: Seq<char>, id: Seq<char>)
    requires
        m.tidy(),
        forall|k: Seq<char>| k != ch && #[trigger] m.channels.contains_key(k) ==> !m.channels[k].contains(id),
    ensures
        m.removed(ch, id).tidy(),
{
    let n = m.removed(ch, id);
    if m.channels.contains_key(ch) {
        lemma_remove_value_unique(m.channels[ch], id);
    }
    assert forall|k: Seq<char>, x: Seq<char>|
        n.channels.contains_key(k) && #[trigger] n.channels[k].contains(x) implies n.entries.contains_key(x) by {
        if k == ch {
            assert(m.channels[ch].contains(x));
        } else {
            assert(m.channels[k].contains(x));
        }
    }
    assert forall|k: Seq<char>| #[trigger] n.channels.contains_key(k) implies n.channels[k].no_duplicates() by {
        if k != ch {
            assert(m.channels.contains_key(k));
        }
    }
    assert forall|c1: Seq<char>, c2: Seq<char>, x: Seq<char>|
        c1 != c2 && n.channels.contains_key(c1) && n.channels.contains_key(c2)
            && #[trigger] n.channels[c1].contains(x) implies !#[trigger] n.channels[c2].contains(x) by {
        if c1 == ch {
            assert(m.channels[ch].contains(x));
        } else if c2 == ch {
            assert(m.channels[c1].contains(x));
            if n.channels[c2].contains(x) {
                assert(m.channels[ch].contains(x));
            }
        } else {
            assert(m.channels[c1].contains(x));
        }
    }
}

proof fn lemma_resolve_total<C>(ids: Seq<Seq<char>>, entries: Map<Seq<char>, C>)
    requires
        forall|i: int| 0 <= i < ids.len() ==> entries.contains_key(#[trigger] ids[i]),
    ensures
        resolve(ids, entries) == ids.map_values(|x: Seq<char>| entries[x]),
    decreases ids.len(),
{
    if ids.len() > 0 {
        let rest = ids.drop_last();
        assert forall|i: int| 0 <= i < rest.len() implies entries.contains_key(#[trigger] rest[i]) by {
            assert(rest[i] == ids[i]);
        }
        lemma_resolve_total(rest, entries);
        assert(entries.contains_key(ids[ids.len() - 1]));
        assert(ids.map_values(|x: Seq<char>| entries[x]) =~= rest.map_values(
            |x: Seq<char>| entries[x],
        ).push(entries[ids.last()]));
    } else {
        assert(ids.map_values(|x: Seq<char>| entries[x]) =~= Seq::<C>::empty());
    }
}

/// A tidy registry drops nothing: a channel lists the content of each of
/// its ids, in order.
pub proof fn lemma_tidy_lists_every_id<C>(m: PortalsModel<C>, ch: Seq<char>)
    requires
        m.tidy(),
    ensures
        m.listed(ch) == m.ids_in(ch).map_values(|x: Seq<char>| m.entries[x]),
{
    let ids = m.ids_in(ch);
    assert forall|i: int| 0 <= i < ids.len() implies m.entries.contains_key(#[trigger] ids[i]) by {
        assert(m.channels.contains_key(ch));
        assert(m.channels[ch].contains(ids[i]));
    }
    lemma_resolve_total(ids, m.entries);
}

} // verus!
