//! The modifier model: the fixed set of modifier keys, the native bitmask
//! bit each one occupies, and canonicalization of a modifier sequence into
//! sorted, deduplicated form.

use vstd::prelude::*;

verus! {

/// One modifier key, as the host reports it in a native modifier bitmask.
/// Each variant owns exactly one bit; no two variants share a bit.
#[derive(Debug, PartialOrd, Ord, PartialEq, Eq, Hash, Clone, Copy, Structural)]
pub enum Modifier {
    Shift,
    CapsLock,
    Ctrl,
    Alt,
    NumLock,
    ScrollLock,
    Window,
    Mod5,
}

impl Modifier {
    /// The native bitmask bit for this modifier.
    pub open spec fn spec_mask(self) -> u32 {
        match self {
            Modifier::Shift => 1,
            Modifier::CapsLock => 2,
            Modifier::Ctrl => 4,
            Modifier::Alt => 8,
            Modifier::NumLock => 16,
            Modifier::ScrollLock => 32,
            Modifier::Window => 64,
            Modifier::Mod5 => 128,
        }
    }

    /// Native bitmask bit of this modifier; a pure total function, one bit
    /// per variant.
    pub fn mask(self) -> (r: u32)
        ensures
            r == self.spec_mask(),
    {
        match self {
            Modifier::Shift => 1,
            Modifier::CapsLock => 2,
            Modifier::Ctrl => 4,
            Modifier::Alt => 8,
            Modifier::NumLock => 16,
            Modifier::ScrollLock => 32,
            Modifier::Window => 64,
            Modifier::Mod5 => 128,
        }
    }
}

/// Every modifier once, in the fixed total order that canonical modifier
/// sets follow (ascending mask bit).
pub open spec fn all_modifiers() -> Seq<Modifier> {
    seq![
        Modifier::Shift,
        Modifier::CapsLock,
        Modifier::Ctrl,
        Modifier::Alt,
        Modifier::NumLock,
        Modifier::ScrollLock,
        Modifier::Window,
        Modifier::Mod5,
    ]
}

/// Membership predicate of a modifier sequence, used as the filter that
/// defines the canonical form.
pub open spec fn in_seq(s: Seq<Modifier>) -> spec_fn(Modifier) -> bool {
    |m: Modifier| s.contains(m)
}

/// The canonical form of a modifier sequence: every modifier that occurs in
/// `s`, listed once, in the fixed total order. It depends only on which
/// modifiers occur in `s`, not on their order or multiplicity.
pub open spec fn canon_spec(s: Seq<Modifier>) -> Seq<Modifier> {
    all_modifiers().filter(in_seq(s))
}

fn contains_modifier(v: &Vec<Modifier>, m: Modifier) -> (r: bool)
    ensures
        r == v@.contains(m),
{
    let mut i: usize = 0;
    while i < v.len()
        invariant
            i <= v@.len(),
            forall|j: int| 0 <= j < i ==> v@[j] != m,
        decreases v@.len() - i,
    {
        if v[i] == m {
            return true;
        }
        i += 1;
    }
    false
}

fn all_modifiers_vec() -> (v: Vec<Modifier>)
    ensures
        v@ == all_modifiers(),
{
    let mut v: Vec<Modifier> = Vec::new();
    v.push(Modifier::Shift);
    v.push(Modifier::CapsLock);
    v.push(Modifier::Ctrl);
    v.push(Modifier::Alt);
    v.push(Modifier::NumLock);
    v.push(Modifier::ScrollLock);
    v.push(Modifier::Window);
    v.push(Modifier::Mod5);
    proof {
        assert(v@ =~= all_modifiers());
    }
    v
}

proof fn lemma_filter_take_step<A>(s: Seq<A>, i: int, pred: spec_fn(A) -> bool)
    requires
        0 <= i < s.len(),
    ensures
        s.take(i + 1).filter(pred) == (if pred(s[i]) {
            s.take(i).filter(pred).push(s[i])
        } else {
            s.take(i).filter(pred)
        }),
    decreases s.len(),
{
    reveal_with_fuel(Seq::filter, 2);
    assert(s.take(i + 1).drop_last() =~= s.take(i));
    assert(s.take(i + 1).last() == s[i]);
}

/// Sorts by the fixed total order and removes duplicates: the result is
/// the canonical form of the input.
pub fn canonicalize(v: &Vec<Modifier>) -> (r: Vec<Modifier>)
    ensures
        r@ == canon_spec(v@),
{
    let order = all_modifiers_vec();
    let mut r: Vec<Modifier> = Vec::new();
    let mut i: usize = 0;
    while i < order.len()
        invariant
            order@ == all_modifiers(),
            i <= 8,
            r@ == all_modifiers().take(i as int).filter(in_seq(v@)),
        decreases 8 - i,
    {
        let m = order[i];
        proof {
            lemma_filter_take_step(all_modifiers(), i as int, in_seq(v@));
        }
        if contains_modifier(v, m) {
            r.push(m);
        }
        i += 1;
    }
    proof {
        assert(all_modifiers().take(8) =~= all_modifiers());
    }
    r
}

proof fn lemma_all_modifiers_contains(m: Modifier)
    ensures
        all_modifiers().contains(m),
{
    match m {
        Modifier::Shift => assert(all_modifiers()[0] == m),
        Modifier::CapsLock => assert(all_modifiers()[1] == m),
        Modifier::Ctrl => assert(all_modifiers()[2] == m),
        Modifier::Alt => assert(all_modifiers()[3] == m),
        Modifier::NumLock => assert(all_modifiers()[4] == m),
        Modifier::ScrollLock => assert(all_modifiers()[5] == m),
        Modifier::Window => assert(all_modifiers()[6] == m),
        Modifier::Mod5 => assert(all_modifiers()[7] == m),
    }
}

proof fn lemma_filter_equiv<A>(s: Seq<A>, p1: spec_fn(A) -> bool, p2: spec_fn(A) -> bool)
    requires
        forall|x: A| #[trigger] p1(x) == p2(x),
    ensures
        s.filter(p1) == s.filter(p2),
    decreases s.len(),
{
    reveal_with_fuel(Seq::filter, 2);
    if s.len() > 0 {
        lemma_filter_equiv(s.drop_last(), p1, p2);
    }
}

proof fn lemma_filter_subset<A>(s: Seq<A>, pred: spec_fn(A) -> bool, x: A)
    requires
        s.filter(pred).contains(x),
    ensures
        s.contains(x),
    decreases s.len(),
{
    reveal_with_fuel(Seq::filter, 2);
    if s.len() > 0 {
        if s.last() == x {
        } else {
            lemma_filter_subset(s.drop_last(), pred, x);
            let i = choose|i: int| 0 <= i < s.drop_last().len() && s.drop_last()[i] == x;
            assert(s[i] == x);
        }
    }
}

proof fn lemma_filter_no_duplicates<A>(s: Seq<A>, pred: spec_fn(A) -> bool)
    requires
        s.no_duplicates(),
    ensures
        s.filter(pred).no_duplicates(),
    decreases s.len(),
{
    broadcast use vstd::seq_lib::group_filter_ensures;

    reveal_with_fuel(Seq::filter, 2);
    if s.len() > 0 {
        let dl = s.drop_last();
        assert(dl.no_duplicates());
        lemma_filter_no_duplicates(dl, pred);
        if pred(s.last()) {
            if dl.filter(pred).contains(s.last()) {
                lemma_filter_subset(dl, pred, s.last());
                let i = choose|i: int| 0 <= i < dl.len() && dl[i] == s.last();
                assert(s[i] == s[s.len() - 1]);
                assert(false);
            }
            let f = dl.filter(pred);
            let g = f.push(s.last());
            assert forall|i: int, j: int| 0 <= i < j < g.len() implies g[i] != g[j] by {
                if j == f.len() {
                    assert(g[i] == f[i]);
                    if f[i] == s.last() {
                        assert(f.contains(s.last()));
                    }
                } else {
                    assert(g[i] == f[i] && g[j] == f[j]);
                }
            }
            assert(g.no_duplicates());
        }
    }
}

/// Canonical form keeps exactly the modifiers that occur in the input:
/// membership survives canonicalization, duplicates and order do not.
pub proof fn lemma_canon_contains(s: Seq<Modifier>, m: Modifier)
    ensures
        canon_spec(s).contains(m) <==> s.contains(m),
{
    broadcast use vstd::seq_lib::group_filter_ensures;

    if canon_spec(s).contains(m) {
        let i = choose|i: int| 0 <= i < canon_spec(s).len() && canon_spec(s)[i] == m;
        assert(in_seq(s)(canon_spec(s)[i]));
    }
    if s.contains(m) {
        lemma_all_modifiers_contains(m);
        let i = choose|i: int| 0 <= i < all_modifiers().len() && all_modifiers()[i] == m;
        assert(in_seq(s)(all_modifiers()[i]));
        assert(canon_spec(s).contains(all_modifiers()[i]));
    }
}

/// A canonical modifier set lists no modifier twice.
pub proof fn lemma_canon_no_duplicates(s: Seq<Modifier>)
    ensures
        canon_spec(s).no_duplicates(),
{
    assert(all_modifiers().no_duplicates());
    lemma_filter_no_duplicates(all_modifiers(), in_seq(s));
}

/// Strictly increasing by mask bit.
pub open spec fn sorted_by_mask(s: Seq<Modifier>) -> bool {
    forall|i: int, j: int| 0 <= i < j < s.len() ==> s[i].spec_mask() < s[j].spec_mask()
}

proof fn lemma_filter_preserves_sorted(s: Seq<Modifier>, pred: spec_fn(Modifier) -> bool)
    requires
        sorted_by_mask(s),
    ensures
        sorted_by_mask(s.filter(pred)),
    decreases s.len(),
{
    reveal_with_fuel(Seq::filter, 2);
    if s.len() > 0 {
        let dl = s.drop_last();
        assert(sorted_by_mask(dl));
        lemma_filter_preserves_sorted(dl, pred);
        if pred(s.last()) {
            let f = dl.filter(pred);
            let g = f.push(s.last());
            assert forall|i: int, j: int| 0 <= i < j < g.len() implies g[i].spec_mask()
                < g[j].spec_mask() by {
                if j == f.len() {
                    assert(g[i] == f[i]);
                    assert(f.contains(f[i]));
                    lemma_filter_subset(dl, pred, f[i]);
                    let k = choose|k: int| 0 <= k < dl.len() && dl[k] == f[i];
                    assert(s[k].spec_mask() < s[s.len() - 1].spec_mask());
                } else {
                    assert(g[i] == f[i] && g[j] == f[j]);
                }
            }
        }
    }
}

/// Law: a canonical modifier set is sorted by the fixed total order —
/// strictly increasing mask bits.
pub proof fn lemma_canon_sorted(s: Seq<Modifier>)
    ensures
        sorted_by_mask(canon_spec(s)),
{
    assert(sorted_by_mask(all_modifiers()));
    lemma_filter_preserves_sorted(all_modifiers(), in_seq(s));
}

/// Law: canonicalization is idempotent — canonicalizing a canonical
/// modifier set gives it back unchanged.
pub proof fn lemma_canonicalize_idempotent(s: Seq<Modifier>)
    ensures
        canon_spec(canon_spec(s)) == canon_spec(s),
{
    assert forall|m: Modifier| #[trigger] in_seq(canon_spec(s))(m) == in_seq(s)(m) by {
        lemma_canon_contains(s, m);
    }
    lemma_filter_equiv(all_modifiers(), in_seq(canon_spec(s)), in_seq(s));
}

/// Law: canonicalization is order-insensitive — two sequences holding the
/// same multiset of modifiers canonicalize identically.
pub proof fn lemma_canonicalize_order_insensitive(s1: Seq<Modifier>, s2: Seq<Modifier>)
    requires
        s1.to_multiset() == s2.to_multiset(),
    ensures
        canon_spec(s1) == canon_spec(s2),
{
    broadcast use vstd::seq_lib::group_to_multiset_ensures;

    assert forall|m: Modifier| #[trigger] in_seq(s1)(m) == in_seq(s2)(m) by {
        assert(s1.contains(m) <==> s1.to_multiset().count(m) > 0);
        assert(s2.contains(m) <==> s2.to_multiset().count(m) > 0);
    }
    lemma_filter_equiv(all_modifiers(), in_seq(s1), in_seq(s2));
}

} // verus!
