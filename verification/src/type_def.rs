//! Type definitions: what an expression may produce, and whether it may fail.

use vstd::prelude::*;
use crate::kind::{Kind, Variant};

verus! {

/// The mathematical content of a [`TypeDef`].
pub struct TypeDefView {
    pub fallible: bool,
    pub kind: Set<Variant>,
}

impl TypeDefView {
    /// Becomes fallible when some possible variant lies outside `allowed`;
    /// an expression that was fallible stays so.
    pub open spec fn fallible_unless(self, allowed: Set<Variant>) -> TypeDefView {
        TypeDefView { fallible: self.fallible || !self.kind.subset_of(allowed), kind: self.kind }
    }

    /// Declares `kind` as the only possible outcome of a success.
    pub open spec fn with_constraint(self, kind: Set<Variant>) -> TypeDefView {
        TypeDefView { fallible: self.fallible, kind }
    }

    /// Sets the fallible flag.
    pub open spec fn into_fallible(self, fallible: bool) -> TypeDefView {
        TypeDefView { fallible, kind: self.kind }
    }

    /// The definition of an expression that behaves as either operand.
    pub open spec fn merge(self, other: TypeDefView) -> TypeDefView {
        TypeDefView {
            fallible: self.fallible || other.fallible,
            kind: self.kind.union(other.kind),
        }
    }

    /// Any variant, never failing.
    pub open spec fn any() -> TypeDefView {
        TypeDefView { fallible: false, kind: Set::full() }
    }
}

/// The static summary of an expression: the variants it may produce and
/// whether executing it may fail.
#[derive(Clone, Copy, Debug, PartialEq, Eq)]
pub struct TypeDef {
    pub fallible: bool,
    pub kind: Kind,
}

impl View for TypeDef {
    type V = TypeDefView;

    open spec fn view(&self) -> TypeDefView {
        TypeDefView { fallible: self.fallible, kind: self.kind@ }
    }
}

impl Default for TypeDef {
    /// Any variant, never failing.
    fn default() -> (t: TypeDef)
        ensures
            t@ == TypeDefView::any(),
    {
        TypeDef { fallible: false, kind: Kind::all() }
    }
}

impl TypeDef {
    /// A definition with the given kind and flag.
    pub fn new(kind: Kind, fallible: bool) -> (t: TypeDef)
        ensures
            t@ == (TypeDefView { fallible, kind: kind@ }),
    {
        TypeDef { fallible, kind }
    }

    /// Marks the definition fallible unless every possible variant is one
    /// of `allowed`. A definition that is already fallible stays fallible.
    pub fn fallible_unless(self, allowed: Kind) -> (t: TypeDef)
        ensures
            t@ == self@.fallible_unless(allowed@),
    {
        let within = allowed.contains(self.kind);
        TypeDef { fallible: self.fallible || !within, kind: self.kind }
    }

    /// Replaces the kind by `kind`, keeping the fallible flag.
    pub fn with_constraint(self, kind: Kind) -> (t: TypeDef)
        ensures
            t@ == self@.with_constraint(kind@),
    {
        TypeDef { fallible: self.fallible, kind }
    }

    /// Sets the fallible flag, keeping the kind.
    pub fn into_fallible(self, fallible: bool) -> (t: TypeDef)
        ensures
            t@ == self@.into_fallible(fallible),
    {
        TypeDef { fallible, kind: self.kind }
    }

    /// The definition of an expression that behaves as either operand.
    pub fn merge(self, other: TypeDef) -> (t: TypeDef)
        ensures
            t@ == self@.merge(other@),
    {
        TypeDef { fallible: self.fallible || other.fallible, kind: self.kind.union(other.kind) }
    }

    /// Whether executing the expression may fail.
    pub fn is_fallible(&self) -> (b: bool)
        ensures
            b == self@.fallible,
    {
        self.fallible
    }
}

/// Narrowing by `allowed` never clears the fallible flag, and raises it
/// exactly when some possible variant is not allowed.
pub proof fn lemma_fallible_unless_monotone(t: TypeDefView, allowed: Set<Variant>)
    ensures
        t.fallible ==> t.fallible_unless(allowed).fallible,
        !t.fallible ==> (t.fallible_unless(allowed).fallible <==> !t.kind.subset_of(allowed)),
        t.fallible_unless(allowed).kind == t.kind,
{
}

/// A definition whose kind is bytes or timestamp stays infallible when
/// narrowed to those two variants; one whose kind is integer becomes fallible.
pub proof fn lemma_fallible_unless_bytes_or_timestamp(fallible: bool)
    ensures
        (TypeDefView {
            fallible,
            kind: set![Variant::Bytes, Variant::Timestamp],
        }).fallible_unless(set![Variant::Bytes, Variant::Timestamp]).fallible == fallible,
        (TypeDefView { fallible, kind: set![Variant::Integer] }).fallible_unless(
            set![Variant::Bytes, Variant::Timestamp],
        ).fallible,
{
    let allowed = set![Variant::Bytes, Variant::Timestamp];
    assert(allowed.subset_of(allowed));
    assert(set![Variant::Integer].contains(Variant::Integer));
    assert(!allowed.contains(Variant::Integer));
}

} // verus!
