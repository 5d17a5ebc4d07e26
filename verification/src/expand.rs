//! Mask expansion: a required modifier set is turned into every native
//! modifier mask that the host should treat as a match, one for each on/off
//! combination of the ignorable lock-style modifiers.

use vstd::prelude::*;
use crate::modifiers::Modifier;

verus! {

/// The host's "any modifier" wildcard mask, used as the base when no
/// modifier is required.
pub const ANY_MODIFIER: u32 = 32768;

/// Combined mask of the ignorable modifiers: CapsLock, NumLock, ScrollLock
/// and Mod5. Their on/off state never decides whether a shortcut matches.
pub const IGNORED_MODIFIER_MASK: u32 = 2 | 16 | 32 | 128;

/// True of the modifiers whose bit lies inside `IGNORED_MODIFIER_MASK`.
pub open spec fn is_ignored(m: Modifier) -> bool {
    match m {
        Modifier::CapsLock => true,
        Modifier::NumLock => true,
        Modifier::ScrollLock => true,
        Modifier::Mod5 => true,
        _ => false,
    }
}

/// Bitwise OR of the masks of a modifier sequence.
pub open spec fn or_all(s: Seq<Modifier>) -> u32
    decreases s.len(),
{
    if s.len() == 0 {
        0
    } else {
        or_all(s.drop_last()) | s.last().spec_mask()
    }
}

/// The base mask of a modifier set: the OR of its members' masks, or the
/// wildcard mask when the set is empty.
pub open spec fn spec_base(s: Seq<Modifier>) -> u32 {
    if s.len() == 0 {
        ANY_MODIFIER
    } else {
        or_all(s)
    }
}

/// The `k`-th subset of `IGNORED_MODIFIER_MASK`, in increasing numeric
/// order; there are exactly 16 of them.
pub open spec fn variant_at(k: int) -> u32 {
    if k == 0 {
        0
    } else if k == 1 {
        2
    } else if k == 2 {
        16
    } else if k == 3 {
        18
    } else if k == 4 {
        32
    } else if k == 5 {
        34
    } else if k == 6 {
        48
    } else if k == 7 {
        50
    } else if k == 8 {
        128
    } else if k == 9 {
        130
    } else if k == 10 {
        144
    } else if k == 11 {
        146
    } else if k == 12 {
        160
    } else if k == 13 {
        162
    } else if k == 14 {
        176
    } else {
        178
    }
}

/// What `expand` returns: the base mask joined with each of the 16 subsets
/// of the ignored-modifier mask, in increasing subset order.
pub open spec fn expand_spec(mods: Seq<Modifier>) -> Seq<u32> {
    Seq::new(16, |k: int| spec_base(mods) | variant_at(k))
}

/// The facts about the 16 ignored-bit subsets that the expansion proofs
/// lean on: each lies inside the ignored mask, they are strictly
/// increasing, they do not exceed the ignored mask, and every integer
/// inside the ignored mask is one of them.
proof fn lemma_variants()
    ensures
        IGNORED_MODIFIER_MASK == 178,
        forall|k: int| 0 <= k < 16 ==> ((#[trigger] variant_at(k)) & !IGNORED_MODIFIER_MASK) == 0,
        forall|i: int, j: int| 0 <= i < j < 16 ==> variant_at(i) < variant_at(j),
        forall|k: int| 0 <= k < 16 ==> #[trigger] variant_at(k) <= 178,
        forall|v: u32|
            (#[trigger] (v & !IGNORED_MODIFIER_MASK)) == 0 ==> exists|k: int|
                0 <= k < 16 && variant_at(k) == v,
{
    assert(IGNORED_MODIFIER_MASK == 178) by (bit_vector);
    assert((0u32 & !178u32) == 0 && (2u32 & !178u32) == 0 && (16u32 & !178u32) == 0 && (18u32
        & !178u32) == 0 && (32u32 & !178u32) == 0 && (34u32 & !178u32) == 0 && (48u32 & !178u32)
        == 0 && (50u32 & !178u32) == 0 && (128u32 & !178u32) == 0 && (130u32 & !178u32) == 0 && (
    144u32 & !178u32) == 0 && (146u32 & !178u32) == 0 && (160u32 & !178u32) == 0 && (162u32
        & !178u32) == 0 && (176u32 & !178u32) == 0 && (178u32 & !178u32) == 0) by (bit_vector);
    assert(forall|v: u32|
        (v & !178u32) == 0 ==> (v == 0 || v == 2 || v == 16 || v == 18 || v == 32 || v == 34 || v
            == 48 || v == 50 || v == 128 || v == 130 || v == 144 || v == 146 || v == 160 || v
            == 162 || v == 176 || v == 178)) by (bit_vector);
    assert forall|v: u32| (#[trigger] (v & !IGNORED_MODIFIER_MASK)) == 0 implies exists|k: int|
        0 <= k < 16 && variant_at(k) == v by {
        if v == 0 {
            assert(variant_at(0) == v);
        } else if v == 2 {
            assert(variant_at(1) == v);
        } else if v == 16 {
            assert(variant_at(2) == v);
        } else if v == 18 {
            assert(variant_at(3) == v);
        } else if v == 32 {
            assert(variant_at(4) == v);
        } else if v == 34 {
            assert(variant_at(5) == v);
        } else if v == 48 {
            assert(variant_at(6) == v);
        } else if v == 50 {
            assert(variant_at(7) == v);
        } else if v == 128 {
            assert(variant_at(8) == v);
        } else if v == 130 {
            assert(variant_at(9) == v);
        } else if v == 144 {
            assert(variant_at(10) == v);
        } else if v == 146 {
            assert(variant_at(11) == v);
        } else if v == 160 {
            assert(variant_at(12) == v);
        } else if v == 162 {
            assert(variant_at(13) == v);
        } else {
            assert(variant_at(14) == 176 && variant_at(15) == 178);
        }
    }
}

/// Computes the base mask of a modifier set: the OR of the members' masks,
/// or the wildcard mask when no modifier is required.
pub fn base_mask(mods: &Vec<Modifier>) -> (r: u32)
    ensures
        r == spec_base(mods@),
{
    if mods.len() == 0 {
        return ANY_MODIFIER;
    }
    let mut acc: u32 = 0;
    let mut i: usize = 0;
    while i < mods.len()
        invariant
            i <= mods@.len(),
            acc == or_all(mods@.take(i as int)),
        decreases mods@.len() - i,
    {
        proof {
            assert(mods@.take(i as int + 1).drop_last() =~= mods@.take(i as int));
            assert(mods@.take(i as int + 1).last() == mods@[i as int]);
        }
        acc = acc | mods[i].mask();
        i += 1;
    }
    proof {
        assert(mods@.take(mods@.len() as int) =~= mods@);
    }
    acc
}

/// Expands a required modifier set into the 16 native masks to grab or
/// ungrab: the base mask joined with every on/off combination of the
/// ignorable modifiers. The scan walks every integer up to the ignored
/// mask and discards the ones that set a bit outside it.
pub fn expand(mods: &Vec<Modifier>) -> (r: Vec<u32>)
    ensures
        r@ == expand_spec(mods@),
{
    proof {
        lemma_variants();
    }
    let base = base_mask(mods);
    let mut r: Vec<u32> = Vec::new();
    let mut ig: u32 = 0;
    while ig <= IGNORED_MODIFIER_MASK
        invariant
            base == spec_base(mods@),
            ig <= 179,
            r@.len() <= 16,
            forall|j: int| 0 <= j < r@.len() ==> r@[j] == (base | #[trigger] variant_at(j)),
            r@.len() < 16 ==> ig <= variant_at(r@.len() as int),
            r@.len() > 0 ==> variant_at(r@.len() - 1) < ig,
            r@.len() == 16 ==> ig >= 179,
        decreases 179 - ig,
    {
        proof {
            lemma_variants();
            assert(r@.len() < 16);
        }
        if (ig & !IGNORED_MODIFIER_MASK) > 0 {
            // a bit outside the ignored mask: not a subset, skip it
            proof {
                assert(ig != variant_at(r@.len() as int));
            }
        } else {
            let ghost n = r@.len() as int;
            proof {
                assert((ig & !IGNORED_MODIFIER_MASK) == 0);
                let k = choose|k: int| 0 <= k < 16 && variant_at(k) == ig;
                if k < n {
                    if n > 0 && k < n - 1 {
                        assert(variant_at(k) < variant_at(n - 1));
                    }
                    assert(false);
                } else if k > n {
                    assert(variant_at(n) < variant_at(k));
                    assert(false);
                }
                assert(ig == variant_at(n));
            }
            r.push(base | ig);
        }
        ig += 1;
    }
    proof {
        lemma_variants();
        if r@.len() < 16 {
            assert(variant_at(r@.len() as int) <= 178);
            assert(false);
        }
        assert(r@ =~= expand_spec(mods@));
    }
    r
}

proof fn lemma_or_all_clear(mods: Seq<Modifier>)
    requires
        forall|i: int| 0 <= i < mods.len() ==> !is_ignored(#[trigger] mods[i]),
    ensures
        (or_all(mods) & IGNORED_MODIFIER_MASK) == 0,
    decreases mods.len(),
{
    assert((0u32 & IGNORED_MODIFIER_MASK) == 0) by (bit_vector);
    if mods.len() > 0 {
        let dl = mods.drop_last();
        assert(forall|i: int| 0 <= i < dl.len() ==> !is_ignored(#[trigger] dl[i]));
        lemma_or_all_clear(dl);
        let last = mods.last();
        assert(!is_ignored(last));
        assert((1u32 & IGNORED_MODIFIER_MASK) == 0 && (4u32 & IGNORED_MODIFIER_MASK) == 0 && (8u32
            & IGNORED_MODIFIER_MASK) == 0 && (64u32 & IGNORED_MODIFIER_MASK) == 0) by (bit_vector);
        assert((last.spec_mask() & IGNORED_MODIFIER_MASK) == 0);
        let a = or_all(dl);
        let b = last.spec_mask();
        assert((a & IGNORED_MODIFIER_MASK) == 0 && (b & IGNORED_MODIFIER_MASK) == 0 ==> ((a | b)
            & IGNORED_MODIFIER_MASK) == 0) by (bit_vector);
    }
}

/// Law: the expansion has exactly 16 entries, and every entry agrees with
/// the base mask outside the ignored bits — expansion only varies the
/// ignored modifiers.
pub proof fn lemma_expand_properties(mods: Seq<Modifier>)
    ensures
        expand_spec(mods).len() == 16,
        forall|j: int| 0 <= j < 16 ==> ((#[trigger] expand_spec(mods)[j]) & !IGNORED_MODIFIER_MASK)
            == (spec_base(mods) & !IGNORED_MODIFIER_MASK),
{
    lemma_variants();
    assert(forall|b: u32, v: u32|
        (v & !IGNORED_MODIFIER_MASK) == 0 ==> (#[trigger] (b | v) & !IGNORED_MODIFIER_MASK) == (b
            & !IGNORED_MODIFIER_MASK)) by (bit_vector);
    assert forall|j: int| 0 <= j < 16 implies ((#[trigger] expand_spec(mods)[j])
        & !IGNORED_MODIFIER_MASK) == (spec_base(mods) & !IGNORED_MODIFIER_MASK) by {
        assert((variant_at(j) & !IGNORED_MODIFIER_MASK) == 0);
        assert(expand_spec(mods)[j] == (spec_base(mods) | variant_at(j)));
    }
}

/// Law: the expansion covers every on/off combination of the ignorable
/// modifiers — for any bits lying inside the ignored mask, the base mask
/// joined with those bits is among the expanded masks.
pub proof fn lemma_expand_covers_ignored_combinations(mods: Seq<Modifier>, bits: u32)
    requires
        (bits & !IGNORED_MODIFIER_MASK) == 0,
    ensures
        expand_spec(mods).contains(spec_base(mods) | bits),
{
    lemma_variants();
    let k = choose|k: int| 0 <= k < 16 && variant_at(k) == bits;
    assert(expand_spec(mods)[k] == (spec_base(mods) | bits));
}

/// Law: when the required set holds no ignorable modifier, the 16 expanded
/// masks are pairwise distinct. (A required set that itself contains an
/// ignorable modifier, such as CapsLock alone, makes some variants
/// coincide.)
pub proof fn lemma_expand_distinct(mods: Seq<Modifier>)
    requires
        forall|i: int| 0 <= i < mods.len() ==> !is_ignored(#[trigger] mods[i]),
    ensures
        expand_spec(mods).no_duplicates(),
{
    lemma_variants();
    let base = spec_base(mods);
    if mods.len() == 0 {
        assert((32768u32 & IGNORED_MODIFIER_MASK) == 0) by (bit_vector);
    } else {
        lemma_or_all_clear(mods);
    }
    assert((base & IGNORED_MODIFIER_MASK) == 0);
    assert(forall|b: u32, v1: u32, v2: u32|
        (b & IGNORED_MODIFIER_MASK) == 0 && (v1 & !IGNORED_MODIFIER_MASK) == 0 && (v2
            & !IGNORED_MODIFIER_MASK) == 0 && v1 != v2 ==> (#[trigger] (b | v1)) != (#[trigger] (b
            | v2))) by (bit_vector);
    assert forall|i: int, j: int|
        0 <= i < expand_spec(mods).len() && 0 <= j < expand_spec(mods).len() && i != j implies
        expand_spec(mods)[i] != expand_spec(mods)[j] by {
        assert((variant_at(i) & !IGNORED_MODIFIER_MASK) == 0);
        assert((variant_at(j) & !IGNORED_MODIFIER_MASK) == 0);
        if i < j {
            assert(variant_at(i) < variant_at(j));
        } else {
            assert(variant_at(j) < variant_at(i));
        }
        assert(expand_spec(mods)[i] == (base | variant_at(i)));
        assert(expand_spec(mods)[j] == (base | variant_at(j)));
    }
    assert(expand_spec(mods).no_duplicates());
}

} // verus!
