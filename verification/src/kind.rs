//! Kinds: finite sets of value variants, stored as bit flags.

use vstd::prelude::*;

verus! {

/// The shape a runtime value can take.
#[derive(Clone, Copy, Debug, PartialEq, Eq, Structural)]
pub enum Variant {
    Bytes,
    Integer,
    Float,
    Boolean,
    Mapping,
    Array,
    Timestamp,
    Regex,
    Null,
}

impl Variant {
    /// The flag that stands for this variant inside a [`Kind`].
    pub open spec fn mask(self) -> u16 {
        match self {
            Variant::Bytes => 0x001,
            Variant::Integer => 0x002,
            Variant::Float => 0x004,
            Variant::Boolean => 0x008,
            Variant::Mapping => 0x010,
            Variant::Array => 0x020,
            Variant::Timestamp => 0x040,
            Variant::Regex => 0x080,
            Variant::Null => 0x100,
        }
    }

    /// The flag that stands for this variant inside a [`Kind`].
    pub fn flag(self) -> (m: u16)
        ensures
            m == self.mask(),
    {
        match self {
            Variant::Bytes => 0x001,
            Variant::Integer => 0x002,
            Variant::Float => 0x004,
            Variant::Boolean => 0x008,
            Variant::Mapping => 0x010,
            Variant::Array => 0x020,
            Variant::Timestamp => 0x040,
            Variant::Regex => 0x080,
            Variant::Null => 0x100,
        }
    }
}

/// Every flag a kind may carry.
pub const ALL_FLAGS: u16 = 0x1ff;

/// Whether `bits` carries no flag outside [`ALL_FLAGS`].
pub open spec fn only_flags(bits: u16) -> bool {
    bits & !ALL_FLAGS == 0
}

/// The variants whose flag is raised in `bits`.
pub open spec fn variants_of(bits: u16) -> Set<Variant> {
    Set::new(|v: Variant| bits & v.mask() != 0)
}

/// The set of variants an expression may produce.
///
/// The view of a kind is that set; the flags are an implementation detail.
#[derive(Clone, Copy, Debug, PartialEq, Eq)]
pub struct Kind {
    bits: u16,
}

impl View for Kind {
    type V = Set<Variant>;

    closed spec fn view(&self) -> Set<Variant> {
        variants_of(self.bits)
    }
}

/// A union raises exactly the flags raised on either side.
proof fn lemma_union_flags(a: u16, b: u16)
    requires
        only_flags(a),
        only_flags(b),
    ensures
        only_flags(a | b),
        variants_of(a | b) == variants_of(a).union(variants_of(b)),
{
    assert(a & !0x1ffu16 == 0 && b & !0x1ffu16 == 0 ==> (a | b) & !0x1ffu16 == 0)
        by (bit_vector);
    assert forall|v: Variant| (a | b) & v.mask() != 0 <==> (a & v.mask() != 0 || b & v.mask()
        != 0) by {
        let m = v.mask();
        assert((a | b) & m != 0 <==> (a & m != 0 || b & m != 0)) by (bit_vector);
    }
    assert(variants_of(a | b) =~= variants_of(a).union(variants_of(b)));
}

/// An intersection raises exactly the flags raised on both sides.
proof fn lemma_intersection_flags(a: u16, b: u16)
    requires
        only_flags(a),
        only_flags(b),
    ensures
        only_flags(a & b),
        variants_of(a & b) == variants_of(a).intersect(variants_of(b)),
{
    assert(a & !0x1ffu16 == 0 ==> (a & b) & !0x1ffu16 == 0) by (bit_vector);
    assert forall|v: Variant| (a & b) & v.mask() != 0 <==> (a & v.mask() != 0 && b & v.mask()
        != 0) by {
        let m = v.mask();
        assert(m == 0x001 || m == 0x002 || m == 0x004 || m == 0x008 || m == 0x010 || m == 0x020
            || m == 0x040 || m == 0x080 || m == 0x100);
        assert((m == 0x001 || m == 0x002 || m == 0x004 || m == 0x008 || m == 0x010 || m == 0x020
            || m == 0x040 || m == 0x080 || m == 0x100) ==> ((a & b) & m != 0 <==> (a & m != 0 && b
            & m != 0))) by (bit_vector);
    }
    assert(variants_of(a & b) =~= variants_of(a).intersect(variants_of(b)));
}

/// No flag of `b` is missing from `a` exactly when every variant of `b` is
/// a variant of `a`.
proof fn lemma_subset_flags(a: u16, b: u16)
    requires
        only_flags(b),
    ensures
        (b & !a == 0) <==> variants_of(b).subset_of(variants_of(a)),
{
    assert(b & !0x1ffu16 == 0 ==> ((b & !a == 0) <==> ((b & 0x001 != 0 ==> a & 0x001 != 0) && (b
        & 0x002 != 0 ==> a & 0x002 != 0) && (b & 0x004 != 0 ==> a & 0x004 != 0) && (b & 0x008 != 0
        ==> a & 0x008 != 0) && (b & 0x010 != 0 ==> a & 0x010 != 0) && (b & 0x020 != 0 ==> a & 0x020
        != 0) && (b & 0x040 != 0 ==> a & 0x040 != 0) && (b & 0x080 != 0 ==> a & 0x080 != 0) && (b
        & 0x100 != 0 ==> a & 0x100 != 0)))) by (bit_vector);
    if b & !a == 0 {
        assert forall|v: Variant| variants_of(b).contains(v) implies variants_of(a).contains(
            v,
        ) by {}
    } else {
        let v = if b & 0x001 != 0 && a & 0x001 == 0 {
            Variant::Bytes
        } else if b & 0x002 != 0 && a & 0x002 == 0 {
            Variant::Integer
        } else if b & 0x004 != 0 && a & 0x004 == 0 {
            Variant::Float
        } else if b & 0x008 != 0 && a & 0x008 == 0 {
            Variant::Boolean
        } else if b & 0x010 != 0 && a & 0x010 == 0 {
            Variant::Mapping
        } else if b & 0x020 != 0 && a & 0x020 == 0 {
            Variant::Array
        } else if b & 0x040 != 0 && a & 0x040 == 0 {
            Variant::Timestamp
        } else if b & 0x080 != 0 && a & 0x080 == 0 {
            Variant::Regex
        } else {
            Variant::Null
        };
        assert(variants_of(b).contains(v) && !variants_of(a).contains(v));
    }
}

/// Two flag words within range that raise the same variants are the same word.
proof fn lemma_flags_determined(a: u16, b: u16)
    requires
        only_flags(a),
        only_flags(b),
        variants_of(a) == variants_of(b),
    ensures
        a == b,
{
    lemma_subset_flags(a, b);
    lemma_subset_flags(b, a);
    assert(b & !a == 0 && a & !b == 0 ==> a == b) by (bit_vector);
}

/// A single flag raises a single variant.
proof fn lemma_single_flag(v: Variant)
    ensures
        only_flags(v.mask()),
        variants_of(v.mask()) == set![v],
{
    let m = v.mask();
    assert(m == 0x001 || m == 0x002 || m == 0x004 || m == 0x008 || m == 0x010 || m == 0x020 || m
        == 0x040 || m == 0x080 || m == 0x100);
    assert((m == 0x001 || m == 0x002 || m == 0x004 || m == 0x008 || m == 0x010 || m == 0x020 || m
        == 0x040 || m == 0x080 || m == 0x100) ==> m & !0x1ffu16 == 0) by (bit_vector);
    assert forall|w: Variant| m & w.mask() != 0 <==> w == v by {
        let n = w.mask();
        assert(0x001u16 & 0x001u16 != 0 && 0x002u16 & 0x002u16 != 0 && 0x004u16 & 0x004u16 != 0
            && 0x008u16 & 0x008u16 != 0 && 0x010u16 & 0x010u16 != 0 && 0x020u16 & 0x020u16 != 0
            && 0x040u16 & 0x040u16 != 0 && 0x080u16 & 0x080u16 != 0 && 0x100u16 & 0x100u16 != 0)
            by (bit_vector);
        assert((m == 0x001 || m == 0x002 || m == 0x004 || m == 0x008 || m == 0x010 || m == 0x020
            || m == 0x040 || m == 0x080 || m == 0x100) && (n == 0x001 || n == 0x002 || n == 0x004
            || n == 0x008 || n == 0x010 || n == 0x020 || n == 0x040 || n == 0x080 || n == 0x100)
            && m != n ==> m & n == 0) by (bit_vector);
    }
    assert(variants_of(m) =~= set![v]);
}

/// The word without flags raises no variant.
proof fn lemma_no_flags()
    ensures
        only_flags(0),
        variants_of(0) == Set::<Variant>::empty(),
{
    assert(0u16 & !0x1ffu16 == 0) by (bit_vector);
    assert forall|v: Variant| 0u16 & v.mask() == 0 by {
        let m = v.mask();
        assert(0u16 & m == 0) by (bit_vector);
    }
    assert(variants_of(0) =~= Set::<Variant>::empty());
}

/// The word with every flag raises every variant.
proof fn lemma_all_flags()
    ensures
        only_flags(ALL_FLAGS),
        variants_of(ALL_FLAGS) == Set::<Variant>::full(),
{
    assert(0x1ffu16 & !0x1ffu16 == 0) by (bit_vector);
    assert forall|v: Variant| 0x1ffu16 & v.mask() != 0 by {
        assert(0x1ffu16 & 0x001 != 0 && 0x1ffu16 & 0x002 != 0 && 0x1ffu16 & 0x004 != 0 && 0x1ffu16
            & 0x008 != 0 && 0x1ffu16 & 0x010 != 0 && 0x1ffu16 & 0x020 != 0 && 0x1ffu16 & 0x040 != 0
            && 0x1ffu16 & 0x080 != 0 && 0x1ffu16 & 0x100 != 0) by (bit_vector);
    }
    assert(variants_of(0x1ff) =~= Set::<Variant>::full());
}

impl Kind {
    /// Kinds never carry a flag that stands for no variant.
    #[verifier::type_invariant]
    spec fn in_range(self) -> bool {
        only_flags(self.bits)
    }

    /// The kind that holds no variant.
    pub fn empty() -> (k: Kind)
        ensures
            k@ == Set::<Variant>::empty(),
    {
        proof {
            lemma_no_flags();
        }
        Kind { bits: 0 }
    }

    /// The kind that holds every variant.
    pub fn all() -> (k: Kind)
        ensures
            k@ == Set::<Variant>::full(),
    {
        proof {
            lemma_all_flags();
        }
        Kind { bits: ALL_FLAGS }
    }

    /// The kind that holds `variant` and nothing else.
    pub fn exactly(variant: Variant) -> (k: Kind)
        ensures
            k@ == set![variant],
    {
        proof {
            lemma_single_flag(variant);
        }
        Kind { bits: variant.flag() }
    }

    /// The kind of byte strings.
    pub fn bytes() -> (k: Kind)
        ensures
            k@ == set![Variant::Bytes],
    {
        Kind::exactly(Variant::Bytes)
    }

    /// The kind of integers.
    pub fn integer() -> (k: Kind)
        ensures
            k@ == set![Variant::Integer],
    {
        Kind::exactly(Variant::Integer)
    }

    /// The kind of floating-point numbers.
    pub fn float() -> (k: Kind)
        ensures
            k@ == set![Variant::Float],
    {
        Kind::exactly(Variant::Float)
    }

    /// The kind of booleans.
    pub fn boolean() -> (k: Kind)
        ensures
            k@ == set![Variant::Boolean],
    {
        Kind::exactly(Variant::Boolean)
    }

    /// The kind of maps.
    pub fn mapping() -> (k: Kind)
        ensures
            k@ == set![Variant::Mapping],
    {
        Kind::exactly(Variant::Mapping)
    }

    /// The kind of arrays.
    pub fn array() -> (k: Kind)
        ensures
            k@ == set![Variant::Array],
    {
        Kind::exactly(Variant::Array)
    }

    /// The kind of timestamps.
    pub fn timestamp() -> (k: Kind)
        ensures
            k@ == set![Variant::Timestamp],
    {
        Kind::exactly(Variant::Timestamp)
    }

    /// The kind of regular expressions.
    pub fn regex() -> (k: Kind)
        ensures
            k@ == set![Variant::Regex],
    {
        Kind::exactly(Variant::Regex)
    }

    /// The kind of the null value.
    pub fn null() -> (k: Kind)
        ensures
            k@ == set![Variant::Null],
    {
        Kind::exactly(Variant::Null)
    }

    /// The variants of either kind.
    pub fn union(self, other: Kind) -> (k: Kind)
        ensures
            k@ == self@.union(other@),
    {
        proof {
            use_type_invariant(self);
            use_type_invariant(other);
            lemma_union_flags(self.bits, other.bits);
        }
        Kind { bits: self.bits | other.bits }
    }

    /// The variants common to both kinds.
    pub fn intersection(self, other: Kind) -> (k: Kind)
        ensures
            k@ == self@.intersect(other@),
    {
        proof {
            use_type_invariant(self);
            use_type_invariant(other);
            lemma_intersection_flags(self.bits, other.bits);
        }
        Kind { bits: self.bits & other.bits }
    }

    /// Whether every variant of `other` is a variant of `self`.
    pub fn contains(self, other: Kind) -> (b: bool)
        ensures
            b == other@.subset_of(self@),
    {
        proof {
            use_type_invariant(other);
            lemma_subset_flags(self.bits, other.bits);
        }
        other.bits & !self.bits == 0
    }

    /// Whether `variant` is one of the variants of `self`.
    pub fn has(self, variant: Variant) -> (b: bool)
        ensures
            b == self@.contains(variant),
    {
        self.bits & variant.flag() != 0
    }

    /// Whether the kind holds no variant.
    pub fn is_empty(self) -> (b: bool)
        ensures
            b == (self@ == Set::<Variant>::empty()),
    {
        proof {
            use_type_invariant(self);
            lemma_no_flags();
            if self@ == Set::<Variant>::empty() {
                lemma_flags_determined(self.bits, 0);
            }
        }
        self.bits == 0
    }

    /// Whether the kind holds every variant.
    pub fn is_all(self) -> (b: bool)
        ensures
            b == (self@ == Set::<Variant>::full()),
    {
        proof {
            use_type_invariant(self);
            lemma_all_flags();
            if self@ == Set::<Variant>::full() {
                lemma_flags_determined(self.bits, ALL_FLAGS);
            }
        }
        self.bits == ALL_FLAGS
    }

    /// Whether both kinds hold the same variants.
    pub fn same(self, other: Kind) -> (b: bool)
        ensures
            b == (self@ == other@),
    {
        proof {
            use_type_invariant(self);
            use_type_invariant(other);
            if self@ == other@ {
                lemma_flags_determined(self.bits, other.bits);
            }
        }
        self.bits == other.bits
    }
}

} // verus!
