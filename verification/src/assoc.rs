//! The reaction cache and the sub-part grouping maps: a full-scan cache
//! from a target message's guid to the guids reacting to it, and the
//! grouping of fetched reaction or reply rows by the sub-part index they
//! attach to. The store queries live with the caller; everything computed
//! over already-fetched rows is verified here.

use vstd::prelude::*;

verus! {

use vstd::string::StringExecFns;
use crate::messages::{spec_decode_assoc, spec_reply_index, view_opt, Message};
use crate::strutil::str_eq;
use crate::variants::{Variant, VariantView};

/// Appends `v` to the list of the first entry keyed `k`, or adds a new
/// entry at the end when no entry has that key.
pub open spec fn spec_upsert<K, V>(es: Seq<(K, Seq<V>)>, k: K, v: V) -> Seq<(K, Seq<V>)>
    decreases es.len(),
{
    if es.len() == 0 {
        seq![(k, seq![v])]
    } else if es[0].0 == k {
        seq![(es[0].0, es[0].1.push(v))] + es.skip(1)
    } else {
        seq![es[0]] + spec_upsert(es.skip(1), k, v)
    }
}

/// The list of the first entry keyed `k`, if one stands in `es`.
pub open spec fn spec_lookup<K, V>(es: Seq<(K, V)>, k: K) -> Option<V>
    decreases es.len(),
{
    if es.len() == 0 {
        None
    } else if es[0].0 == k {
        Some(es[0].1)
    } else {
        spec_lookup(es.skip(1), k)
    }
}

pub proof fn lemma_upsert_found<K, V>(es: Seq<(K, Seq<V>)>, k: K, v: V, j: int)
    requires
        0 <= j < es.len(),
        es[j].0 == k,
        forall|i: int| 0 <= i < j ==> (#[trigger] es[i]).0 != k,
    ensures
        spec_upsert(es, k, v) == es.update(j, (es[j].0, es[j].1.push(v))),
    decreases j,
{
    if j == 0 {
        assert(spec_upsert(es, k, v) =~= es.update(0, (es[0].0, es[0].1.push(v))));
    } else {
        assert forall|i: int| 0 <= i < j - 1 implies (#[trigger] es.skip(1)[i]).0 != k by {
            assert(es.skip(1)[i] == es[i + 1]);
        }
        assert(es.skip(1)[j - 1] == es[j]);
        lemma_upsert_found(es.skip(1), k, v, j - 1);
        assert(seq![es[0]] + es.skip(1).update(j - 1, (es[j].0, es[j].1.push(v))) =~= es.update(
            j,
            (es[j].0, es[j].1.push(v)),
        ));
    }
}

pub proof fn lemma_upsert_missing<K, V>(es: Seq<(K, Seq<V>)>, k: K, v: V)
    requires
        forall|i: int| 0 <= i < es.len() ==> (#[trigger] es[i]).0 != k,
    ensures
        spec_upsert(es, k, v) == es.push((k, seq![v])),
    decreases es.len(),
{
    if es.len() == 0 {
        assert(spec_upsert(es, k, v) =~= es.push((k, seq![v])));
    } else {
        assert forall|i: int| 0 <= i < es.skip(1).len() implies (#[trigger] es.skip(1)[i]).0 != k by {
            assert(es.skip(1)[i] == es[i + 1]);
        }
        lemma_upsert_missing(es.skip(1), k, v);
        assert(seq![es[0]] + es.skip(1).push((k, seq![v])) =~= es.push((k, seq![v])));
    }
}

pub proof fn lemma_lookup_found<K, V>(es: Seq<(K, V)>, k: K, j: int)
    requires
        0 <= j < es.len(),
        es[j].0 == k,
        forall|i: int| 0 <= i < j ==> (#[trigger] es[i]).0 != k,
    ensures
        spec_lookup(es, k) == Some(es[j].1),
    decreases j,
{
    if j > 0 {
        assert forall|i: int| 0 <= i < j - 1 implies (#[trigger] es.skip(1)[i]).0 != k by {
            assert(es.skip(1)[i] == es[i + 1]);
        }
        assert(es.skip(1)[j - 1] == es[j]);
        lemma_lookup_found(es.skip(1), k, j - 1);
    }
}

pub proof fn lemma_lookup_missing<K, V>(es: Seq<(K, V)>, k: K)
    requires
        forall|i: int| 0 <= i < es.len() ==> (#[trigger] es[i]).0 != k,
    ensures
        spec_lookup(es, k) is None,
    decreases es.len(),
{
    if es.len() > 0 {
        assert forall|i: int| 0 <= i < es.skip(1).len() implies (#[trigger] es.skip(1)[i]).0 != k by {
            assert(es.skip(1)[i] == es[i + 1]);
        }
        lemma_lookup_missing(es.skip(1), k);
    }
}

/// The character sequences a vector of strings holds.
pub open spec fn strings_view(v: Seq<String>) -> Seq<Seq<char>> {
    v.map(|i: int, s: String| s@)
}

/// The mathematical image of the cache's entry list.
pub open spec fn cache_view(es: Seq<(String, Vec<String>)>) -> Seq<(Seq<char>, Seq<Seq<char>>)> {
    es.map(|i: int, e: (String, Vec<String>)| (e.0@, strings_view(e.1@)))
}

/// The guid of the message an association identifier targets.
pub open spec fn spec_target_of(m: Message) -> Seq<char> {
    match m.associated_message_guid {
        Some(g) => spec_decode_assoc(g@).1,
        None => Seq::<char>::empty(),
    }
}

/// One scan step of reaction-cache construction: a reacting row appends
/// its own guid under its target's guid; other rows change nothing.
pub open spec fn spec_cache_step(
    es: Seq<(Seq<char>, Seq<Seq<char>>)>,
    m: Message,
) -> Seq<(Seq<char>, Seq<Seq<char>>)> {
    if m.associated_message_guid is Some && m.spec_is_reaction() {
        spec_upsert(es, spec_target_of(m), m.guid@)
    } else {
        es
    }
}

/// The reaction cache a scan of `msgs` builds, in scan order.
pub open spec fn spec_build_cache(msgs: Seq<Message>) -> Seq<(Seq<char>, Seq<Seq<char>>)>
    decreases msgs.len(),
{
    if msgs.len() == 0 {
        Seq::<(Seq<char>, Seq<Seq<char>>)>::empty()
    } else {
        spec_cache_step(spec_build_cache(msgs.drop_last()), msgs.last())
    }
}

/// Maps a message's guid to the ordered guids of the messages reacting to
/// it, in dataset scan order.
pub struct ReactionCache {
    pub entries: Vec<(String, Vec<String>)>,
}

impl View for ReactionCache {
    type V = Seq<(Seq<char>, Seq<Seq<char>>)>;

    open spec fn view(&self) -> Seq<(Seq<char>, Seq<Seq<char>>)> {
        cache_view(self.entries@)
    }
}

fn cache_insert(entries: &mut Vec<(String, Vec<String>)>, key: &str, val: String)
    ensures
        cache_view(final(entries)@) == spec_upsert(cache_view(old(entries)@), key@, val@),
{
    let ghost es0 = cache_view(old(entries)@);
    let n = entries.len();
    let mut j: usize = 0;
    while j < n
        invariant
            0 <= j <= n,
            entries@ == old(entries)@,
            n == entries@.len(),
            es0 == cache_view(old(entries)@),
            forall|i: int| 0 <= i < j ==> (#[trigger] entries@[i]).0@ != key@,
        decreases n - j,
    {
        if str_eq(entries[j].0.as_str(), key) {
            let mut pair = entries.remove(j);
            pair.1.push(val);
            entries.insert(j, pair);
            proof {
                assert forall|i: int| 0 <= i < j implies (#[trigger] es0[i]).0 != key@ by {
                    assert(es0[i].0 == old(entries)@[i].0@);
                }
                assert(es0[j as int].0 == key@);
                lemma_upsert_found(es0, key@, val@, j as int);
                assert(entries@ =~= old(entries)@.update(j as int, pair));
                assert(strings_view(pair.1@) =~= es0[j as int].1.push(val@));
                assert(cache_view(entries@) =~= es0.update(
                    j as int,
                    (es0[j as int].0, es0[j as int].1.push(val@)),
                ));
            }
            return;
        }
        j = j + 1;
    }
    let owned = String::from_str(key);
    let mut list: Vec<String> = Vec::new();
    list.push(val);
    entries.push((owned, list));
    proof {
        assert forall|i: int| 0 <= i < es0.len() implies (#[trigger] es0[i]).0 != key@ by {
            assert(es0[i].0 == old(entries)@[i].0@);
        }
        lemma_upsert_missing(es0, key@, val@);
        assert(strings_view(list@) =~= seq![val@]);
        assert(cache_view(entries@) =~= es0.push((key@, seq![val@])));
    }
}

impl ReactionCache {
    /// An empty cache.
    pub fn new() -> (r: ReactionCache)
        ensures
            r@ == Seq::<(Seq<char>, Seq<Seq<char>>)>::empty(),
    {
        let r = ReactionCache { entries: Vec::new() };
        proof {
            assert(r@ =~= Seq::<(Seq<char>, Seq<Seq<char>>)>::empty());
        }
        r
    }

    /// The ordered guids of the messages reacting to `guid`, when any row
    /// reacted to it.
    pub fn get<'a>(&'a self, guid: &str) -> (r: Option<&'a Vec<String>>)
        ensures
            r matches Some(v) ==> spec_lookup(self@, guid@) == Some(strings_view(v@)),
            r is None ==> spec_lookup(self@, guid@) is None,
    {
        let n = self.entries.len();
        let mut j: usize = 0;
        while j < n
            invariant
                0 <= j <= n,
                n == self.entries@.len(),
                forall|i: int| 0 <= i < j ==> (#[trigger] self.entries@[i]).0@ != guid@,
            decreases n - j,
        {
            if str_eq(self.entries[j].0.as_str(), guid) {
                proof {
                    assert forall|i: int| 0 <= i < j implies (#[trigger] self@[i]).0 != guid@ by {
                        assert(self@[i].0 == self.entries@[i].0@);
                    }
                    assert(self@[j as int].0 == guid@);
                    lemma_lookup_found(self@, guid@, j as int);
                }
                return Some(&self.entries[j].1);
            }
            j = j + 1;
        }
        proof {
            assert forall|i: int| 0 <= i < self@.len() implies (#[trigger] self@[i]).0 != guid@ by {
                assert(self@[i].0 == self.entries@[i].0@);
            }
            lemma_lookup_missing(self@, guid@);
        }
        None
    }
}

/// Builds the reaction cache from every fetched row, in scan order: each
/// reacting row appends its own guid to the list keyed by the guid its
/// association identifier targets.
pub fn build_reaction_cache(msgs: &Vec<Message>) -> (r: ReactionCache)
    requires
        forall|i: int| 0 <= i < msgs@.len() ==> (#[trigger] msgs@[i]).assoc_wf(),
    ensures
        r@ == spec_build_cache(msgs@),
{
    let mut entries: Vec<(String, Vec<String>)> = Vec::new();
    let n = msgs.len();
    let mut i: usize = 0;
    proof {
        assert(msgs@.take(0) =~= Seq::<Message>::empty());
    }
    while i < n
        invariant
            0 <= i <= n,
            n == msgs@.len(),
            forall|ix: int| 0 <= ix < msgs@.len() ==> (#[trigger] msgs@[ix]).assoc_wf(),
            cache_view(entries@) == spec_build_cache(msgs@.take(i as int)),
        decreases n - i,
    {
        let m = &msgs[i];
        if m.is_reaction() {
            match m.clean_associated_guid() {
                Some((_, target)) => {
                    cache_insert(&mut entries, target, m.guid.clone());
                },
                None => {},
            }
        }
        proof {
            assert(msgs@.take(i + 1).drop_last() =~= msgs@.take(i as int));
            assert(msgs@.take(i + 1).last() == msgs@[i as int]);
        }
        i = i + 1;
    }
    proof {
        assert(msgs@.take(n as int) =~= msgs@);
    }
    ReactionCache { entries }
}

/// The mathematical image of a part map's entry list.
pub open spec fn part_view(es: Seq<(usize, Vec<Message>)>) -> Seq<(int, Seq<Message>)> {
    es.map(|i: int, e: (usize, Vec<Message>)| (e.0 as int, e.1@))
}

/// Maps a sub-part index to the ordered messages that attach to it.
pub struct PartMap {
    pub entries: Vec<(usize, Vec<Message>)>,
}

impl View for PartMap {
    type V = Seq<(int, Seq<Message>)>;

    open spec fn view(&self) -> Seq<(int, Seq<Message>)> {
        part_view(self.entries@)
    }
}

fn part_insert(entries: &mut Vec<(usize, Vec<Message>)>, key: usize, val: Message)
    ensures
        part_view(final(entries)@) == spec_upsert(part_view(old(entries)@), key as int, val),
{
    let ghost es0 = part_view(old(entries)@);
    let n = entries.len();
    let mut j: usize = 0;
    while j < n
        invariant
            0 <= j <= n,
            entries@ == old(entries)@,
            n == entries@.len(),
            es0 == part_view(old(entries)@),
            forall|i: int| 0 <= i < j ==> (#[trigger] entries@[i]).0 != key,
        decreases n - j,
    {
        if entries[j].0 == key {
            let mut pair = entries.remove(j);
            pair.1.push(val);
            entries.insert(j, pair);
            proof {
                assert forall|i: int| 0 <= i < j implies (#[trigger] es0[i]).0 != key as int by {
                    assert(es0[i].0 == old(entries)@[i].0 as int);
                }
                assert(es0[j as int].0 == key as int);
                lemma_upsert_found(es0, key as int, val, j as int);
                assert(entries@ =~= old(entries)@.update(j as int, pair));
                assert(pair.1@ =~= es0[j as int].1.push(val));
                assert(part_view(entries@) =~= es0.update(
                    j as int,
                    (es0[j as int].0, es0[j as int].1.push(val)),
                ));
            }
            return;
        }
        j = j + 1;
    }
    let mut list: Vec<Message> = Vec::new();
    list.push(val);
    entries.push((key, list));
    proof {
        assert forall|i: int| 0 <= i < es0.len() implies (#[trigger] es0[i]).0 != key as int by {
            assert(es0[i].0 == old(entries)@[i].0 as int);
        }
        lemma_upsert_missing(es0, key as int, val);
        assert(part_view(entries@) =~= es0.push((key as int, seq![val])));
    }
}

impl PartMap {
    /// An empty map.
    pub fn new() -> (r: PartMap)
        ensures
            r@ == Seq::<(int, Seq<Message>)>::empty(),
    {
        let r = PartMap { entries: Vec::new() };
        proof {
            assert(r@ =~= Seq::<(int, Seq<Message>)>::empty());
        }
        r
    }

    /// The ordered messages attached to sub-part `idx`, when any are.
    pub fn get<'a>(&'a self, idx: usize) -> (r: Option<&'a Vec<Message>>)
        ensures
            r matches Some(v) ==> spec_lookup(self@, idx as int) == Some(v@),
            r is None ==> spec_lookup(self@, idx as int) is None,
    {
        let n = self.entries.len();
        let mut j: usize = 0;
        while j < n
            invariant
                0 <= j <= n,
                n == self.entries@.len(),
                forall|i: int| 0 <= i < j ==> (#[trigger] self.entries@[i]).0 != idx,
            decreases n - j,
        {
            if self.entries[j].0 == idx {
                proof {
                    assert forall|i: int| 0 <= i < j implies (#[trigger] self@[i]).0 != idx as int by {
                        assert(self@[i].0 == self.entries@[i].0 as int);
                    }
                    assert(self@[j as int].0 == idx as int);
                    lemma_lookup_found(self@, idx as int, j as int);
                }
                return Some(&self.entries[j].1);
            }
            j = j + 1;
        }
        proof {
            assert forall|i: int| 0 <= i < self@.len() implies (#[trigger] self@[i]).0 != idx as int by {
                assert(self@[i].0 == self.entries@[i].0 as int);
            }
            lemma_lookup_missing(self@, idx as int);
        }
        None
    }
}

/// One step of grouping fetched reacting rows: only a row whose own
/// variant is a reaction or a sticker contributes, keyed by the sub-part
/// index that variant carries.
pub open spec fn spec_reaction_step(
    es: Seq<(int, Seq<Message>)>,
    m: Message,
) -> Seq<(int, Seq<Message>)> {
    match m.spec_variant_of() {
        VariantView::Reaction(idx, _, _) => spec_upsert(es, idx, m),
        VariantView::Sticker(idx) => spec_upsert(es, idx, m),
        _ => es,
    }
}

/// The grouping of fetched reacting rows by targeted sub-part, in fetch
/// order within each group.
pub open spec fn spec_group_reactions(rows: Seq<Message>) -> Seq<(int, Seq<Message>)>
    decreases rows.len(),
{
    if rows.len() == 0 {
        Seq::<(int, Seq<Message>)>::empty()
    } else {
        spec_reaction_step(spec_group_reactions(rows.drop_last()), rows.last())
    }
}

/// One step of grouping reply rows, keyed by the sub-part index the
/// reply's thread-originator-part specifier addresses.
pub open spec fn spec_reply_step(
    es: Seq<(int, Seq<Message>)>,
    m: Message,
) -> Seq<(int, Seq<Message>)> {
    spec_upsert(es, spec_reply_index(view_opt(m.thread_originator_part)), m)
}

/// The grouping of reply rows by targeted sub-part, in fetch order within
/// each group.
pub open spec fn spec_group_replies(rows: Seq<Message>) -> Seq<(int, Seq<Message>)>
    decreases rows.len(),
{
    if rows.len() == 0 {
        Seq::<(int, Seq<Message>)>::empty()
    } else {
        spec_reply_step(spec_group_replies(rows.drop_last()), rows.last())
    }
}

/// Groups fetched reacting rows by the sub-part index their own variant
/// carries; rows that are neither reactions nor stickers are dropped.
pub fn group_reactions(rows: Vec<Message>) -> (r: PartMap)
    requires
        forall|i: int| 0 <= i < rows@.len() ==> (#[trigger] rows@[i]).assoc_wf(),
    ensures
        r@ == spec_group_reactions(rows@),
{
    let ghost orig = rows@;
    let mut remaining = rows;
    let mut entries: Vec<(usize, Vec<Message>)> = Vec::new();
    proof {
        assert(orig.take(0) =~= Seq::<Message>::empty());
        assert(remaining@ =~= orig.skip(0));
    }
    while remaining.len() > 0
        invariant
            remaining@.len() <= orig.len(),
            remaining@ == orig.skip(orig.len() - remaining@.len()),
            forall|i: int| 0 <= i < orig.len() ==> (#[trigger] orig[i]).assoc_wf(),
            part_view(entries@) == spec_group_reactions(
                orig.take(orig.len() - remaining@.len()),
            ),
        decreases remaining@.len(),
    {
        let ghost k = orig.len() - remaining@.len();
        let m = remaining.remove(0);
        proof {
            assert(m == orig[k]);
            assert(remaining@ =~= orig.skip(k + 1));
            assert(orig.take(k + 1).drop_last() =~= orig.take(k));
            assert(orig.take(k + 1).last() == orig[k]);
        }
        let idx_opt: Option<usize> = match m.variant() {
            Variant::Reaction(x, _, _) => Some(x),
            Variant::Sticker(x) => Some(x),
            _ => None,
        };
        match idx_opt {
            Some(idx) => {
                part_insert(&mut entries, idx, m);
            },
            None => {},
        }
    }
    proof {
        assert(orig.take(orig.len() as int) =~= orig);
    }
    PartMap { entries }
}

/// Groups reply rows by the sub-part index their thread-originator-part
/// specifier addresses.
pub fn group_replies(rows: Vec<Message>) -> (r: PartMap)
    ensures
        r@ == spec_group_replies(rows@),
{
    let ghost orig = rows@;
    let mut remaining = rows;
    let mut entries: Vec<(usize, Vec<Message>)> = Vec::new();
    proof {
        assert(orig.take(0) =~= Seq::<Message>::empty());
        assert(remaining@ =~= orig.skip(0));
    }
    while remaining.len() > 0
        invariant
            remaining@.len() <= orig.len(),
            remaining@ == orig.skip(orig.len() - remaining@.len()),
            part_view(entries@) == spec_group_replies(orig.take(orig.len() - remaining@.len())),
        decreases remaining@.len(),
    {
        let ghost k = orig.len() - remaining@.len();
        let m = remaining.remove(0);
        proof {
            assert(m == orig[k]);
            assert(remaining@ =~= orig.skip(k + 1));
            assert(orig.take(k + 1).drop_last() =~= orig.take(k));
            assert(orig.take(k + 1).last() == orig[k]);
        }
        let idx = m.get_reply_index();
        part_insert(&mut entries, idx, m);
    }
    proof {
        assert(orig.take(orig.len() as int) =~= orig);
    }
    PartMap { entries }
}

} // verus!
