//! A map from strings to strings that lists its keys in order.

use vstd::prelude::*;

use crate::text;

verus! {

// ---------------------------------------------------------------------------
// The order of strings
// ---------------------------------------------------------------------------

/// Whether `a` comes before `b`: by the first character in which they differ, or by being a
/// proper prefix. This is the order of code points, which is also that of the UTF-8 bytes.
pub open spec fn before(a: Seq<char>, b: Seq<char>) -> bool
    decreases a.len(),
{
    if b.len() == 0 {
        false
    } else if a.len() == 0 {
        true
    } else if a[0] != b[0] {
        a[0] < b[0]
    } else {
        before(a.drop_first(), b.drop_first())
    }
}

/// Nothing comes before itself.
pub proof fn lemma_before_irreflexive(a: Seq<char>)
    ensures
        !before(a, a),
    decreases a.len(),
{
    if a.len() > 0 {
        lemma_before_irreflexive(a.drop_first());
    }
}

/// The order is transitive.
pub proof fn lemma_before_transitive(a: Seq<char>, b: Seq<char>, c: Seq<char>)
    requires
        before(a, b),
        before(b, c),
    ensures
        before(a, c),
    decreases a.len(),
{
    if a.len() > 0 && a[0] == b[0] && b[0] == c[0] {
        lemma_before_transitive(a.drop_first(), b.drop_first(), c.drop_first());
    }
}

/// Of two different strings one comes before the other.
pub proof fn lemma_before_total(a: Seq<char>, b: Seq<char>)
    ensures
        a == b || before(a, b) || before(b, a),
    decreases a.len(),
{
    if a.len() == 0 && b.len() == 0 {
        assert(a =~= b);
    } else if a.len() > 0 && b.len() > 0 && a[0] == b[0] {
        lemma_before_total(a.drop_first(), b.drop_first());
        if a.drop_first() == b.drop_first() {
            assert(a =~= seq![a[0]] + a.drop_first());
            assert(b =~= seq![b[0]] + b.drop_first());
        }
    }
}

/// Whether `a` comes before `b`.
pub fn is_before(a: &str, b: &str) -> (r: bool)
    ensures
        r == before(a@, b@),
{
    let x = text::chars(a);
    let y = text::chars(b);
    let mut i: usize = 0;
    proof {
        assert(x@.skip(0) =~= a@);
        assert(y@.skip(0) =~= b@);
    }
    while i < x.len() && i < y.len()
        invariant
            i <= x@.len(),
            i <= y@.len(),
            before(x@.skip(i as int), y@.skip(i as int)) == before(a@, b@),
        decreases x@.len() - i,
    {
        proof {
            assert(x@.skip(i as int).drop_first() =~= x@.skip(i + 1));
            assert(y@.skip(i as int).drop_first() =~= y@.skip(i + 1));
        }
        if x[i] != y[i] {
            return x[i] < y[i];
        }
        i += 1;
    }
    i < y.len()
}

// ---------------------------------------------------------------------------
// Listings
// ---------------------------------------------------------------------------

/// Whether `keys` is in strictly ascending order.
pub open spec fn ascending(keys: Seq<Seq<char>>) -> bool {
    forall|i: int, j: int| 0 <= i < j < keys.len() ==> before(#[trigger] keys[i], #[trigger] keys[j])
}

/// Whether `keys` lists the strings of `dom`, each once, in ascending order.
pub open spec fn lists(keys: Seq<Seq<char>>, dom: Set<Seq<char>>) -> bool {
    &&& ascending(keys)
    &&& forall|k: Seq<char>| #[trigger] keys.contains(k) <==> dom.contains(k)
}

/// A set of strings has one listing.
pub proof fn lemma_lists_unique(a: Seq<Seq<char>>, b: Seq<Seq<char>>, dom: Set<Seq<char>>)
    requires
        lists(a, dom),
        lists(b, dom),
    ensures
        a == b,
    decreases a.len(),
{
    if a.len() == 0 {
        if b.len() > 0 {
            assert(b.contains(b[0]));
            assert(a.contains(b[0]));
        }
        assert(a =~= b);
    } else {
        assert(a.contains(a[0]));
        assert(b.contains(a[0]));
        assert(b.contains(b[0]));
        assert(a.contains(b[0]));
        let i = choose|i: int| 0 <= i < b.len() && b[i] == a[0];
        let j = choose|j: int| 0 <= j < a.len() && a[j] == b[0];
        if i > 0 && j > 0 {
            lemma_before_transitive(a[0], b[0], a[0]);
            lemma_before_irreflexive(a[0]);
        }
        let d = dom.remove(a[0]);
        lemma_listing_rest(a, dom);
        lemma_listing_rest(b, dom);
        lemma_lists_unique(a.drop_first(), b.drop_first(), d);
        assert(a =~= seq![a[0]] + a.drop_first());
        assert(b =~= seq![b[0]] + b.drop_first());
    }
}

proof fn lemma_listing_rest(a: Seq<Seq<char>>, dom: Set<Seq<char>>)
    requires
        lists(a, dom),
        a.len() > 0,
    ensures
        lists(a.drop_first(), dom.remove(a[0])),
{
    let t = a.drop_first();
    assert forall|k: Seq<char>| #[trigger] t.contains(k) <==> dom.remove(a[0]).contains(k) by {
        if t.contains(k) {
            let i = choose|i: int| 0 <= i < t.len() && t[i] == k;
            assert(a[i + 1] == k);
            assert(a.contains(k));
            lemma_before_irreflexive(k);
        }
        if dom.remove(a[0]).contains(k) {
            assert(a.contains(k));
            let i = choose|i: int| 0 <= i < a.len() && a[i] == k;
            assert(t[i - 1] == k);
        }
    }
}

// ---------------------------------------------------------------------------
// The map
// ---------------------------------------------------------------------------

/// The keys of a map in ascending order.
pub open spec fn sorted_keys(m: Map<Seq<char>, Seq<char>>) -> Seq<Seq<char>> {
    choose|keys: Seq<Seq<char>>| lists(keys, m.dom())
}

/// The keys of a list of pairs.
pub open spec fn keys_of(entries: Seq<(String, String)>) -> Seq<Seq<char>> {
    Seq::new(entries.len(), |i: int| entries[i].0@)
}

spec fn holds_key(entries: Seq<(String, String)>, k: Seq<char>) -> bool {
    exists|i: int| 0 <= i < entries.len() && (#[trigger] entries[i]).0@ == k
}

spec fn position(entries: Seq<(String, String)>, k: Seq<char>) -> int {
    choose|i: int| 0 <= i < entries.len() && (#[trigger] entries[i]).0@ == k
}

spec fn value_at(entries: Seq<(String, String)>, k: Seq<char>) -> Seq<char> {
    entries[position(entries, k)].1@
}

/// A map from strings to strings. No key occurs twice.
#[derive(Debug)]
pub struct StringMap {
    entries: Vec<(String, String)>,
}

impl View for StringMap {
    type V = Map<Seq<char>, Seq<char>>;

    closed spec fn view(&self) -> Map<Seq<char>, Seq<char>> {
        Map::new(
            |k: Seq<char>| holds_key(self.entries@, k),
            |k: Seq<char>| value_at(self.entries@, k),
        )
    }
}

impl StringMap {
    #[verifier::type_invariant]
    spec fn well_formed(self) -> bool {
        ascending(keys_of(self.entries@))
    }

    /// The empty map.
    pub fn new() -> (m: StringMap)
        ensures
            m@ == Map::<Seq<char>, Seq<char>>::empty(),
    {
        let m = StringMap { entries: Vec::new() };
        assert(m@ =~= Map::<Seq<char>, Seq<char>>::empty());
        m
    }

    proof fn lemma_at(entries: Seq<(String, String)>, i: int)
        requires
            ascending(keys_of(entries)),
            0 <= i < entries.len(),
        ensures
            holds_key(entries, entries[i].0@),
            value_at(entries, entries[i].0@) == entries[i].1@,
    {
        let k = entries[i].0@;
        assert(holds_key(entries, k));
        let j = position(entries, k);
        lemma_before_irreflexive(k);
        let ks = keys_of(entries);
        assert(ks[i] == k && ks[j] == k);
        if i < j {
            assert(before(ks[i], ks[j]));
        } else if j < i {
            assert(before(ks[j], ks[i]));
        }
    }

    /// Whether the map holds nothing.
    pub fn is_empty(&self) -> (r: bool)
        ensures
            r == (self@ == Map::<Seq<char>, Seq<char>>::empty()),
    {
        if self.entries.len() == 0 {
            assert(self@ =~= Map::<Seq<char>, Seq<char>>::empty());
            true
        } else {
            proof {
                assert(holds_key(self.entries@, self.entries@[0].0@));
                assert(self@.dom().contains(self.entries@[0].0@));
            }
            false
        }
    }

    /// The value of `key`.
    pub fn get(&self, key: &str) -> (r: Option<&String>)
        ensures
            r is Some <==> self@.dom().contains(key@),
            r matches Some(v) ==> v@ == self@[key@],
    {
        proof {
            use_type_invariant(self);
        }
        let mut i: usize = 0;
        while i < self.entries.len()
            invariant
                i <= self.entries@.len(),
                ascending(keys_of(self.entries@)),
                forall|j: int| 0 <= j < i ==> (#[trigger] self.entries@[j]).0@ != key@,
            decreases self.entries@.len() - i,
        {
            if text::same(self.entries[i].0.as_str(), key) {
                proof {
                    Self::lemma_at(self.entries@, i as int);
                }
                return Some(&self.entries[i].1);
            }
            i += 1;
        }
        None
    }

    /// Gives `key` the value `value`, in place of the one it had.
    pub fn insert(&mut self, key: String, value: String)
        ensures
            final(self)@ == old(self)@.insert(key@, value@),
    {
        proof {
            use_type_invariant(&*self);
        }
        let ghost before_entries = self.entries@;
        let mut e: Vec<(String, String)> = Vec::new();
        std::mem::swap(&mut e, &mut self.entries);
        let mut p: usize = 0;
        while p < e.len() && is_before(e[p].0.as_str(), key.as_str())
            invariant
                p <= e@.len(),
                forall|j: int| 0 <= j < p ==> before((#[trigger] e@[j]).0@, key@),
            decreases e@.len() - p,
        {
            p += 1;
        }
        let ghost k = key@;
        let ghost v = value@;
        let ghost ks = keys_of(e@);
        proof {
            assert forall|j: int| 0 <= j < e@.len() implies #[trigger] ks[j] == e@[j].0@ by {}
            if p < e@.len() {
                lemma_before_total(k, e@[p as int].0@);
                assert forall|j: int| p < j < e@.len() implies before(k, #[trigger] ks[j]) by {
                    assert(before(ks[p as int], ks[j]));
                    if k != ks[p as int] {
                        lemma_before_transitive(k, ks[p as int], ks[j]);
                    }
                }
            }
        }
        if p < e.len() && text::same(e[p].0.as_str(), key.as_str()) {
            e.set(p, (key, value));
        } else {
            e.insert(p, (key, value));
        }
        proof {
            let ks2 = keys_of(e@);
            assert(ascending(ks2)) by {
                assert forall|i: int, j: int| 0 <= i < j < ks2.len() implies before(
                    #[trigger] ks2[i],
                    #[trigger] ks2[j],
                ) by {
                    if e@.len() == ks.len() {
                        assert(ks2[i] == ks[i] && ks2[j] == ks[j]);
                    } else {
                        if i < p {
                            assert(ks2[i] == ks[i]);
                        }
                        if i > p {
                            assert(ks2[i] == ks[i - 1]);
                        }
                        if j < p {
                            assert(ks2[j] == ks[j]);
                        }
                        if j > p {
                            assert(ks2[j] == ks[j - 1]);
                        }
                    }
                }
            }
            Self::lemma_at(e@, p as int);
            assert forall|q: Seq<char>| holds_key(e@, q) == (q == k || holds_key(before_entries, q)) by {
                if holds_key(e@, q) && q != k {
                    let i = choose|i: int| 0 <= i < e@.len() && (#[trigger] e@[i]).0@ == q;
                    if e@.len() == ks.len() {
                        assert(before_entries[i].0@ == q);
                    } else if i < p {
                        assert(before_entries[i].0@ == q);
                    } else {
                        assert(before_entries[i - 1].0@ == q);
                    }
                }
                if holds_key(before_entries, q) && q != k {
                    let i = choose|i: int|
                        0 <= i < before_entries.len() && (#[trigger] before_entries[i]).0@ == q;
                    if e@.len() == ks.len() {
                        assert(e@[i].0@ == q);
                    } else if i < p {
                        assert(e@[i].0@ == q);
                    } else {
                        assert(e@[i + 1].0@ == q);
                    }
                }
            }
            assert forall|q: Seq<char>| q != k && holds_key(before_entries, q) implies value_at(
                e@,
                q,
            ) == value_at(before_entries, q) by {
                let i = choose|i: int|
                    0 <= i < before_entries.len() && (#[trigger] before_entries[i]).0@ == q;
                Self::lemma_at(before_entries, i);
                if e@.len() == ks.len() || i < p {
                    assert(e@[i] == before_entries[i]);
                    Self::lemma_at(e@, i);
                } else {
                    assert(e@[i + 1] == before_entries[i]);
                    Self::lemma_at(e@, i + 1);
                }
            }
        }
        self.entries = e;
        assert(self@ =~= old(self)@.insert(k, v));
    }

    /// The entries, in ascending order of their keys.
    pub fn entries(&self) -> (r: &Vec<(String, String)>)
        ensures
            lists(keys_of(r@), self@.dom()),
            forall|i: int| 0 <= i < r@.len() ==> self@[(#[trigger] r@[i]).0@] == r@[i].1@,
    {
        proof {
            use_type_invariant(self);
            self.lemma_keys();
            assert forall|i: int| 0 <= i < self.entries@.len() implies self@[(
            #[trigger] self.entries@[i]).0@] == self.entries@[i].1@ by {
                Self::lemma_at(self.entries@, i);
            }
        }
        &self.entries
    }

    proof fn lemma_keys(self)
        ensures
            forall|k: Seq<char>| #[trigger]
                keys_of(self.entries@).contains(k) <==> self@.dom().contains(k),
    {
        let ks = keys_of(self.entries@);
        assert forall|k: Seq<char>| #[trigger] ks.contains(k) <==> self@.dom().contains(k) by {
            if ks.contains(k) {
                let j = choose|j: int| 0 <= j < ks.len() && ks[j] == k;
                assert(self.entries@[j].0@ == k);
            }
            if holds_key(self.entries@, k) {
                let j = choose|j: int|
                    0 <= j < self.entries@.len() && (#[trigger] self.entries@[j]).0@ == k;
                assert(ks[j] == k);
            }
        }
    }

    /// The keys, in ascending order.
    pub fn keys(&self) -> (r: Vec<String>)
        ensures
            lists(text::views(r@), self@.dom()),
    {
        proof {
            use_type_invariant(self);
        }
        let mut r: Vec<String> = Vec::new();
        let mut i: usize = 0;
        while i < self.entries.len()
            invariant
                i <= self.entries@.len(),
                text::views(r@) == keys_of(self.entries@).take(i as int),
            decreases self.entries@.len() - i,
        {
            let ghost listed = r@;
            r.push(self.entries[i].0.clone());
            i += 1;
            proof {
                text::lemma_views_push(listed, r@.last());
                let ks = keys_of(self.entries@);
                assert(ks.take(i as int) =~= ks.take(i - 1).push(ks[i - 1]));
            }
        }
        proof {
            let ks = keys_of(self.entries@);
            assert(text::views(r@) =~= ks);
            self.lemma_keys();
        }
        r
    }
}

/// The order of strings is that of a dictionary over the characters' numbers: it goes by the first
/// character in which two strings differ, and a string comes before every longer one that begins
/// with it.
pub proof fn law_order_goes_by_the_first_difference(
    common: Seq<char>,
    a: char,
    b: char,
    x: Seq<char>,
    y: Seq<char>,
)
    ensures
        before(common, common + seq![a] + x),
        !before(common + seq![a] + x, common),
        !before(common, common),
        a != b ==> (before(common + seq![a] + x, common + seq![b] + y) <==> a < b),
    decreases common.len(),
{
    let s = common + seq![a] + x;
    let t = common + seq![b] + y;
    if common.len() > 0 {
        let rest = common.drop_first();
        law_order_goes_by_the_first_difference(rest, a, b, x, y);
        assert(s.drop_first() =~= rest + seq![a] + x);
        assert(t.drop_first() =~= rest + seq![b] + y);
        assert(s[0] == common[0] && t[0] == common[0]);
    } else {
        assert(s[0] == a && t[0] == b);
    }
}

} // verus!
