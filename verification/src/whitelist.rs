//! Who is let in, and which groups they get.
use vstd::prelude::*;

use crate::decimal::{decimal, push_decimal};
use crate::text::{chars_of, owned};

verus! {

/// The views of a sequence of strings.
pub open spec fn views(v: Seq<String>) -> Seq<Seq<char>> {
    v.map_values(|s: String| s@)
}

/// A rule naming alliances, corporations and characters; a pilot matches it
/// when any of the three names them.
#[derive(Debug, Clone)]
pub struct TierList {
    pub alliance_ids: Vec<u64>,
    pub corporation_ids: Vec<u64>,
    pub character_ids: Vec<u64>,
}

impl TierList {
    /// The pilot `char_id` of corporation `corp_id`, in alliance
    /// `alliance_id` if any, is named by this rule.
    pub open spec fn admits(&self, char_id: u64, corp_id: u64, alliance_id: Option<u64>) -> bool {
        ||| self.character_ids@.contains(char_id)
        ||| self.corporation_ids@.contains(corp_id)
        ||| (alliance_id matches Some(a) && self.alliance_ids@.contains(a))
    }

    fn matches(&self, char_id: u64, corp_id: u64, alliance_id: Option<u64>) -> (res: bool)
        ensures
            res == self.admits(char_id, corp_id, alliance_id),
    {
        contains_id(&self.character_ids, char_id) || contains_id(&self.corporation_ids, corp_id)
            || match alliance_id {
            Some(a) => contains_id(&self.alliance_ids, a),
            None => false,
        }
    }
}

impl Default for TierList {
    fn default() -> (res: Self)
        ensures
            res.alliance_ids@.len() == 0,
            res.corporation_ids@.len() == 0,
            res.character_ids@.len() == 0,
    {
        TierList { alliance_ids: Vec::new(), corporation_ids: Vec::new(), character_ids: Vec::new() }
    }
}

fn contains_id(v: &Vec<u64>, x: u64) -> (res: bool)
    ensures
        res == v@.contains(x),
{
    let mut i: usize = 0;
    while i < v.len()
        invariant
            i <= v.len(),
            forall|j: int| 0 <= j < i ==> v@[j] != x,
        decreases v.len() - i,
    {
        if v[i] == x {
            return true;
        }
        i = i + 1;
    }
    false
}

/// Strict order of names as `String`'s `Ord` has it: character by character,
/// a proper prefix before the longer name.
pub open spec fn name_lt(a: Seq<char>, b: Seq<char>) -> bool
    decreases a.len(),
{
    if b.len() == 0 {
        false
    } else if a.len() == 0 {
        true
    } else if a[0] != b[0] {
        a[0] < b[0]
    } else {
        name_lt(a.drop_first(), b.drop_first())
    }
}

/// No name orders before itself.
pub proof fn lemma_name_lt_irreflexive(a: Seq<char>)
    ensures
        !name_lt(a, a),
    decreases a.len(),
{
    if a.len() > 0 {
        lemma_name_lt_irreflexive(a.drop_first());
    }
}

/// The order of names is transitive.
pub proof fn lemma_name_lt_transitive(a: Seq<char>, b: Seq<char>, c: Seq<char>)
    requires
        name_lt(a, b),
        name_lt(b, c),
    ensures
        name_lt(a, c),
    decreases a.len(),
{
    if a.len() > 0 && b.len() > 0 && c.len() > 0 {
        if a[0] == b[0] && b[0] == c[0] {
            lemma_name_lt_transitive(a.drop_first(), b.drop_first(), c.drop_first());
        }
    }
}

/// Of two different names, one orders before the other.
pub proof fn lemma_name_lt_total(a: Seq<char>, b: Seq<char>)
    ensures
        a == b || name_lt(a, b) || name_lt(b, a),
    decreases a.len(),
{
    if a.len() > 0 && b.len() > 0 && a[0] == b[0] {
        lemma_name_lt_total(a.drop_first(), b.drop_first());
        if a.drop_first() == b.drop_first() {
            assert(a == seq![a[0]] + a.drop_first());
            assert(b == seq![b[0]] + b.drop_first());
        }
    }
    if a.len() == 0 && b.len() == 0 {
        assert(a == b);
    }
}

/// Two names never order each before the other.
pub proof fn lemma_name_lt_asymmetric(a: Seq<char>, b: Seq<char>)
    requires
        name_lt(a, b),
    ensures
        !name_lt(b, a),
{
    if name_lt(b, a) {
        lemma_name_lt_transitive(a, b, a);
        lemma_name_lt_irreflexive(a);
    }
}

/// The entries' names ascend strictly.
pub open spec fn sorted_names(s: Seq<(Seq<char>, TierList)>) -> bool {
    forall|i: int, j: int| 0 <= i < j < s.len() ==> name_lt(#[trigger] s[i].0, #[trigger] s[j].0)
}

/// What inserting `(k, v)` into the ascending entries `s` gives, as a map
/// ordered by name does it: `k`'s entry is replaced when present, else added
/// at its place in the order.
pub open spec fn insert_sorted(s: Seq<(Seq<char>, TierList)>, k: Seq<char>, v: TierList) -> Seq<
    (Seq<char>, TierList),
>
    decreases s.len(),
{
    if s.len() == 0 {
        seq![(k, v)]
    } else if name_lt(k, s[0].0) {
        seq![(k, v)] + s
    } else if s[0].0 == k {
        seq![(k, v)] + s.drop_first()
    } else {
        seq![s[0]] + insert_sorted(s.drop_first(), k, v)
    }
}

/// Whether `a` orders before, with, or after `b`.
pub enum NameOrder {
    Before,
    Same,
    After,
}

fn compare_names(a: &Vec<char>, b: &Vec<char>) -> (res: NameOrder)
    ensures
        res is Before <==> name_lt(a@, b@),
        res is Same <==> a@ == b@,
        res is After <==> name_lt(b@, a@),
{
    proof {
        lemma_name_lt_total(a@, b@);
        lemma_name_lt_irreflexive(a@);
        if name_lt(a@, b@) {
            lemma_name_lt_asymmetric(a@, b@);
        }
    }
    let mut i: usize = 0;
    assert(a@.skip(0) == a@);
    assert(b@.skip(0) == b@);
    while i < a.len() && i < b.len()
        invariant
            i <= a.len(),
            i <= b.len(),
            name_lt(a@, b@) == name_lt(a@.skip(i as int), b@.skip(i as int)),
            name_lt(b@, a@) == name_lt(b@.skip(i as int), a@.skip(i as int)),
            a@.take(i as int) == b@.take(i as int),
        decreases a.len() - i,
    {
        assert(a@.skip(i as int)[0] == a@[i as int]);
        assert(b@.skip(i as int)[0] == b@[i as int]);
        if a[i] != b[i] {
            if a[i] < b[i] {
                return NameOrder::Before;
            } else {
                return NameOrder::After;
            }
        }
        assert(a@.skip(i as int).drop_first() == a@.skip(i + 1));
        assert(b@.skip(i as int).drop_first() == b@.skip(i + 1));
        assert(a@.take(i + 1) == a@.take(i as int).push(a@[i as int]));
        assert(b@.take(i + 1) == b@.take(i as int).push(b@[i as int]));
        i = i + 1;
    }
    if a.len() == b.len() {
        assert(a@ == a@.take(i as int));
        assert(b@ == b@.take(i as int));
        NameOrder::Same
    } else if a.len() < b.len() {
        assert(a@.skip(i as int).len() == 0);
        NameOrder::Before
    } else {
        assert(b@.skip(i as int).len() == 0);
        NameOrder::After
    }
}

/// Named group rules, kept in ascending order of name with each name once,
/// as a map ordered by name keeps them.
#[derive(Debug)]
pub struct GroupMap {
    entries: Vec<(String, TierList)>,
}

/// The entries of `v` with names taken by their views.
pub open spec fn entry_views(v: Seq<(String, TierList)>) -> Seq<(Seq<char>, TierList)> {
    v.map_values(|e: (String, TierList)| (e.0@, e.1))
}

impl View for GroupMap {
    type V = Seq<(Seq<char>, TierList)>;

    closed spec fn view(&self) -> Seq<(Seq<char>, TierList)> {
        entry_views(self.entries@)
    }
}

proof fn lemma_insert_sorted_at(s: Seq<(Seq<char>, TierList)>, k: Seq<char>, v: TierList, p: int)
    requires
        sorted_names(s),
        0 <= p <= s.len(),
        forall|j: int| 0 <= j < p ==> name_lt(#[trigger] s[j].0, k),
        p < s.len() ==> !name_lt(s[p].0, k),
    ensures
        p < s.len() && s[p].0 == k ==> insert_sorted(s, k, v) == s.take(p) + seq![(k, v)] + s.skip(
            p + 1,
        ),
        !(p < s.len() && s[p].0 == k) ==> insert_sorted(s, k, v) == s.take(p) + seq![(k, v)]
            + s.skip(p),
        sorted_names(insert_sorted(s, k, v)),
    decreases s.len(),
{
    if s.len() == 0 {
        assert(insert_sorted(s, k, v) == seq![(k, v)]);
    } else if p == 0 {
        lemma_name_lt_total(k, s[0].0);
        if s[0].0 == k {
            assert(s.take(0) + seq![(k, v)] + s.skip(1) == seq![(k, v)] + s.drop_first());
            let r = insert_sorted(s, k, v);
            assert forall|i: int, j: int| 0 <= i < j < r.len() implies name_lt(
                #[trigger] r[i].0,
                #[trigger] r[j].0,
            ) by {
                if i > 0 {
                    assert(r[i] == s[i]);
                }
                assert(r[j] == s[j]);
            }
        } else {
            assert(name_lt(k, s[0].0));
            assert(s.take(0) + seq![(k, v)] + s.skip(0) == seq![(k, v)] + s);
            let r = insert_sorted(s, k, v);
            assert forall|i: int, j: int| 0 <= i < j < r.len() implies name_lt(
                #[trigger] r[i].0,
                #[trigger] r[j].0,
            ) by {
                if i == 0 {
                    if j > 1 {
                        lemma_name_lt_transitive(k, s[0].0, s[j - 1].0);
                    }
                } else {
                    assert(r[i] == s[i - 1]);
                }
                assert(r[j] == s[j - 1]);
            }
        }
    } else {
        let t = s.drop_first();
        assert(sorted_names(t)) by {
            assert forall|i: int, j: int| 0 <= i < j < t.len() implies name_lt(
                #[trigger] t[i].0,
                #[trigger] t[j].0,
            ) by {
                assert(t[i] == s[i + 1]);
                assert(t[j] == s[j + 1]);
            }
        }
        assert forall|j: int| 0 <= j < p - 1 implies name_lt(#[trigger] t[j].0, k) by {
            assert(t[j] == s[j + 1]);
        }
        lemma_insert_sorted_at(t, k, v, p - 1);
        assert(name_lt(s[0].0, k));
        lemma_name_lt_irreflexive(k);
        lemma_name_lt_asymmetric(s[0].0, k);
        assert(!name_lt(k, s[0].0));
        assert(s[0].0 != k);
        let r = insert_sorted(s, k, v);
        assert(r == seq![s[0]] + insert_sorted(t, k, v));
        if p < s.len() && s[p].0 == k {
            assert(s.take(p) == seq![s[0]] + t.take(p - 1));
            assert(s.skip(p + 1) == t.skip(p));
        } else {
            assert(s.take(p) == seq![s[0]] + t.take(p - 1));
            assert(s.skip(p) == t.skip(p - 1));
        }
        let rt = insert_sorted(t, k, v);
        assert forall|i: int, j: int| 0 <= i < j < r.len() implies name_lt(
            #[trigger] r[i].0,
            #[trigger] r[j].0,
        ) by {
            if i == 0 {
                assert(r[j] == rt[j - 1]);
                // every entry of `rt` is `k` or an entry of `t`
                if p < s.len() && s[p].0 == k {
                    if j - 1 < p - 1 {
                        assert(rt[j - 1] == t[j - 1]);
                    } else if j - 1 == p - 1 {
                        assert(rt[j - 1].0 == k);
                    } else {
                        assert(rt[j - 1] == t[j - 1]);
                    }
                } else {
                    if j - 1 < p - 1 {
                        assert(rt[j - 1] == t[j - 1]);
                    } else if j - 1 == p - 1 {
                        assert(rt[j - 1].0 == k);
                    } else {
                        assert(rt[j - 1] == t[j - 2]);
                    }
                }
            } else {
                assert(r[i] == rt[i - 1]);
                assert(r[j] == rt[j - 1]);
            }
        }
    }
}

impl GroupMap {
    #[verifier::type_invariant]
    closed spec fn ascending(&self) -> bool {
        sorted_names(entry_views(self.entries@))
    }

    /// No group rules.
    pub fn new() -> (res: Self)
        ensures
            res@ == Seq::<(Seq<char>, TierList)>::empty(),
    {
        let res = GroupMap { entries: Vec::new() };
        assert(entry_views(res.entries@) =~= Seq::<(Seq<char>, TierList)>::empty());
        res
    }

    /// The number of group rules; the rules are held in ascending order of
    /// name, each name once.
    pub fn len(&self) -> (res: usize)
        ensures
            res == self@.len(),
            sorted_names(self@),
    {
        proof {
            use_type_invariant(self);
        }
        self.entries.len()
    }

    /// The `i`-th group rule in ascending order of name.
    pub fn entry(&self, i: usize) -> (res: (&String, &TierList))
        requires
            i < self@.len(),
        ensures
            res.0@ == self@[i as int].0,
            *res.1 == self@[i as int].1,
    {
        let e = &self.entries[i];
        (&e.0, &e.1)
    }

    /// Sets the rule of group `name` to `rules`, replacing any rule it had.
    pub fn insert(&mut self, name: String, rules: TierList)
        ensures
            final(self)@ == insert_sorted(old(self)@, name@, rules),
            sorted_names(final(self)@),
    {
        proof {
            use_type_invariant(&*self);
        }
        let mut entries: Vec<(String, TierList)> = Vec::new();
        std::mem::swap(&mut entries, &mut self.entries);
        let ghost s = entry_views(entries@);
        assert(s == old(self)@);
        let key = chars_of(name.as_str());
        let mut p: usize = 0;
        let mut same = false;
        while p < entries.len()
            invariant_except_break
                !same,
            invariant
                s == entry_views(entries@),
                sorted_names(s),
                key@ == name@,
                p <= entries.len(),
                forall|j: int| 0 <= j < p ==> name_lt(#[trigger] s[j].0, key@),
            ensures
                p <= entries.len(),
                forall|j: int| 0 <= j < p ==> name_lt(#[trigger] s[j].0, key@),
                p < entries.len() ==> !name_lt(s[p as int].0, key@),
                same <==> (p < entries.len() && s[p as int].0 == key@),
            decreases entries.len() - p,
        {
            let here = chars_of(entries[p].0.as_str());
            assert(here@ == s[p as int].0);
            match compare_names(&here, &key) {
                NameOrder::Before => {
                    p = p + 1;
                },
                NameOrder::Same => {
                    same = true;
                    break ;
                },
                NameOrder::After => {
                    proof {
                        lemma_name_lt_asymmetric(key@, here@);
                    }
                    break ;
                },
            }
        }
        proof {
            lemma_insert_sorted_at(s, name@, rules, p as int);
        }
        let ghost entry = (name@, rules);
        if same {
            entries.remove(p);
            entries.insert(p, (name, rules));
            assert(entry_views(entries@) =~= s.take(p as int) + seq![entry] + s.skip(p + 1));
        } else {
            entries.insert(p, (name, rules));
            assert(entry_views(entries@) =~= s.take(p as int) + seq![entry] + s.skip(p as int));
        }
        self.entries = entries;
    }
}

/// Who is let in (`whitelist`; when absent, everyone), and the named groups
/// that a pilot who is let in may also get.
#[derive(Debug)]
pub struct WhitelistConfig {
    pub whitelist: Option<TierList>,
    pub groups: GroupMap,
}

impl Default for WhitelistConfig {
    fn default() -> (res: Self)
        ensures
            res.whitelist is None,
            res.groups@.len() == 0,
    {
        WhitelistConfig { whitelist: None, groups: GroupMap::new() }
    }
}

/// The outcome for one pilot: whether they are let in, and their groups.
#[derive(Debug, Clone, PartialEq, Eq)]
pub struct Decision {
    pub admitted: bool,
    pub groups: Vec<String>,
}

/// The pilot is let in: there is no whitelist, or it names them.
pub open spec fn whitelist_admits(
    cfg: WhitelistConfig,
    char_id: u64,
    corp_id: u64,
    alliance_id: Option<u64>,
) -> bool {
    match cfg.whitelist {
        None => true,
        Some(t) => t.admits(char_id, corp_id, alliance_id),
    }
}

/// With no whitelist configured, every pilot is let in.
pub proof fn lemma_absent_whitelist_admits_everyone(
    cfg: WhitelistConfig,
    char_id: u64,
    corp_id: u64,
    alliance_id: Option<u64>,
)
    requires
        cfg.whitelist is None,
    ensures
        whitelist_admits(cfg, char_id, corp_id, alliance_id),
{
}

/// A whitelist that names no alliance, corporation or character lets no one
/// in.
pub proof fn lemma_empty_whitelist_denies(
    cfg: WhitelistConfig,
    char_id: u64,
    corp_id: u64,
    alliance_id: Option<u64>,
)
    requires
        cfg.whitelist matches Some(t) && t.alliance_ids@.len() == 0 && t.corporation_ids@.len() == 0
            && t.character_ids@.len() == 0,
    ensures
        !whitelist_admits(cfg, char_id, corp_id, alliance_id),
{
}

/// A pilot is let in exactly when there is no whitelist, or one of its three
/// lists holds the pilot's id at some position: the character id among
/// `character_ids`, the corporation id among `corporation_ids`, or, for a
/// pilot in an alliance, the alliance id among `alliance_ids`.
pub proof fn lemma_admitted_by_membership(
    cfg: WhitelistConfig,
    char_id: u64,
    corp_id: u64,
    alliance_id: Option<u64>,
)
    ensures
        whitelist_admits(cfg, char_id, corp_id, alliance_id) <==> match cfg.whitelist {
            None => true,
            Some(t) => {
                ||| exists|i: int| 0 <= i < t.character_ids@.len() && #[trigger] t.character_ids@[i] == char_id
                ||| exists|i: int| 0 <= i < t.corporation_ids@.len() && #[trigger] t.corporation_ids@[i] == corp_id
                ||| exists|i: int|
                    0 <= i < t.alliance_ids@.len() && alliance_id == Some(#[trigger] t.alliance_ids@[i])
            },
        },
{
}

/// A named group is among the groups given exactly when one of the rules of
/// that name holds, at some position of one of its lists, the pilot's
/// character id, corporation id, or (for a pilot in an alliance) alliance id.
/// A pilot in no alliance gets no group through an alliance list.
pub proof fn lemma_named_groups_by_membership(
    entries: Seq<(Seq<char>, TierList)>,
    char_id: u64,
    corp_id: u64,
    alliance_id: Option<u64>,
    name: Seq<char>,
)
    ensures
        matching_groups(entries, char_id, corp_id, alliance_id).contains(name) <==> exists|i: int|
            0 <= i < entries.len() && #[trigger] entries[i].0 == name && {
                let t = entries[i].1;
                ||| exists|j: int| 0 <= j < t.character_ids@.len() && #[trigger] t.character_ids@[j] == char_id
                ||| exists|j: int| 0 <= j < t.corporation_ids@.len() && #[trigger] t.corporation_ids@[j] == corp_id
                ||| (alliance_id matches Some(a) && exists|j: int|
                    0 <= j < t.alliance_ids@.len() && #[trigger] t.alliance_ids@[j] == a)
            },
    decreases entries.len(),
{
    if entries.len() > 0 {
        let d = entries.drop_last();
        let last = entries.last();
        lemma_named_groups_by_membership(d, char_id, corp_id, alliance_id, name);
        let m = matching_groups(d, char_id, corp_id, alliance_id);
        let tail = if last.1.admits(char_id, corp_id, alliance_id) {
            seq![last.0]
        } else {
            Seq::<Seq<char>>::empty()
        };
        let all = matching_groups(entries, char_id, corp_id, alliance_id);
        assert(all == m + tail);
        if all.contains(name) {
            let k = choose|k: int| 0 <= k < all.len() && all[k] == name;
            if k < m.len() {
                assert(m[k] == name);
                assert(m.contains(name));
                let i = choose|i: int|
                    0 <= i < d.len() && #[trigger] d[i].0 == name && {
                        let t = d[i].1;
                        ||| exists|j: int| 0 <= j < t.character_ids@.len() && #[trigger] t.character_ids@[j] == char_id
                        ||| exists|j: int| 0 <= j < t.corporation_ids@.len() && #[trigger] t.corporation_ids@[j] == corp_id
                        ||| (alliance_id matches Some(a) && exists|j: int|
                            0 <= j < t.alliance_ids@.len() && #[trigger] t.alliance_ids@[j] == a)
                    };
                assert(entries[i] == d[i]);
            } else {
                assert(tail[k - m.len()] == name);
                assert(entries[entries.len() - 1].0 == name);
            }
        }
        if exists|i: int|
            0 <= i < entries.len() && #[trigger] entries[i].0 == name && {
                let t = entries[i].1;
                ||| exists|j: int| 0 <= j < t.character_ids@.len() && #[trigger] t.character_ids@[j] == char_id
                ||| exists|j: int| 0 <= j < t.corporation_ids@.len() && #[trigger] t.corporation_ids@[j] == corp_id
                ||| (alliance_id matches Some(a) && exists|j: int|
                    0 <= j < t.alliance_ids@.len() && #[trigger] t.alliance_ids@[j] == a)
            } {
            let i = choose|i: int|
                0 <= i < entries.len() && #[trigger] entries[i].0 == name && {
                    let t = entries[i].1;
                    ||| exists|j: int| 0 <= j < t.character_ids@.len() && #[trigger] t.character_ids@[j] == char_id
                    ||| exists|j: int| 0 <= j < t.corporation_ids@.len() && #[trigger] t.corporation_ids@[j] == corp_id
                    ||| (alliance_id matches Some(a) && exists|j: int|
                        0 <= j < t.alliance_ids@.len() && #[trigger] t.alliance_ids@[j] == a)
                };
            if i < entries.len() - 1 {
                assert(d[i] == entries[i]);
                let k = choose|k: int| 0 <= k < m.len() && m[k] == name;
                assert(all[k] == name);
            } else {
                assert(last.1.admits(char_id, corp_id, alliance_id));
                assert(all[m.len() as int] == name);
            }
        }
    }
}

/// The groups every admitted pilot gets: `char_<id>`, `corp_<id>`, and
/// `alliance_<id>` when they are in an alliance.
pub open spec fn auto_groups(char_id: u64, corp_id: u64, alliance_id: Option<u64>) -> Seq<
    Seq<char>,
> {
    seq!["char_"@ + decimal(char_id as nat), "corp_"@ + decimal(corp_id as nat)] + match alliance_id {
        Some(a) => seq!["alliance_"@ + decimal(a as nat)],
        None => Seq::<Seq<char>>::empty(),
    }
}

/// The names of the group rules among `entries` that name the pilot, in
/// the order of `entries`.
pub open spec fn matching_groups(
    entries: Seq<(Seq<char>, TierList)>,
    char_id: u64,
    corp_id: u64,
    alliance_id: Option<u64>,
) -> Seq<Seq<char>>
    decreases entries.len(),
{
    if entries.len() == 0 {
        Seq::empty()
    } else {
        matching_groups(entries.drop_last(), char_id, corp_id, alliance_id) + if entries.last().1.admits(
            char_id,
            corp_id,
            alliance_id,
        ) {
            seq![entries.last().0]
        } else {
            Seq::<Seq<char>>::empty()
        }
    }
}

fn labelled(label: &str, id: u64) -> (res: String)
    ensures
        res@ == label@ + decimal(id as nat),
{
    let mut s = owned(label);
    push_decimal(&mut s, id);
    s
}

/// Decides whether the pilot `char_id` of corporation `corp_id` (in alliance
/// `alliance_id`, if any) is let in. A pilot who is let in gets the automatic
/// groups, then each named group whose rule names them, in ascending order of
/// group name; a pilot who is not gets no group.
pub fn decide(char_id: u64, corp_id: u64, alliance_id: Option<u64>, cfg: &WhitelistConfig) -> (res:
    Decision)
    ensures
        res.admitted == whitelist_admits(*cfg, char_id, corp_id, alliance_id),
        res.admitted ==> views(res.groups@) == auto_groups(char_id, corp_id, alliance_id)
            + matching_groups(cfg.groups@, char_id, corp_id, alliance_id),
        !res.admitted ==> res.groups@.len() == 0,
        sorted_names(cfg.groups@),
{
    proof {
        use_type_invariant(&cfg.groups);
    }
    let admitted = match &cfg.whitelist {
        None => true,
        Some(t) => t.matches(char_id, corp_id, alliance_id),
    };
    if !admitted {
        return Decision { admitted: false, groups: Vec::new() };
    }
    let mut groups: Vec<String> = Vec::new();
    groups.push(labelled("char_", char_id));
    groups.push(labelled("corp_", corp_id));
    if let Some(a) = alliance_id {
        groups.push(labelled("alliance_", a));
    }
    let ghost auto = auto_groups(char_id, corp_id, alliance_id);
    assert(views(groups@) =~= auto);
    let n = cfg.groups.len();
    let mut i: usize = 0;
    while i < n
        invariant
            n == cfg.groups@.len(),
            i <= n,
            views(groups@) == auto + matching_groups(cfg.groups@.take(i as int), char_id, corp_id, alliance_id),
        decreases n - i,
    {
        let (name, rule) = cfg.groups.entry(i);
        let ghost before = views(groups@);
        let ghost pre = cfg.groups@.take(i as int);
        let ghost now = cfg.groups@.take(i + 1);
        assert(now.drop_last() == pre);
        assert(now.last() == cfg.groups@[i as int]);
        if rule.matches(char_id, corp_id, alliance_id) {
            groups.push(name.clone());
            assert(views(groups@) =~= before.push(name@));
            assert(views(groups@) =~= auto + matching_groups(now, char_id, corp_id, alliance_id));
        } else {
            assert(matching_groups(now, char_id, corp_id, alliance_id) =~= matching_groups(pre, char_id, corp_id, alliance_id));
        }
        i = i + 1;
    }
    assert(cfg.groups@.take(n as int) == cfg.groups@);
    Decision { admitted: true, groups }
}

} // verus!
