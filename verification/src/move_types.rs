//! Types of values at run time in the Move virtual machine.

use vstd::prelude::*;

verus! {

/// The index of a struct type in the loader's cache.
#[derive(Debug, Copy, Clone, PartialEq, Eq, Hash, PartialOrd, Ord, Structural)]
pub struct CachedStructIndex(pub usize);

/// A type at run time.
#[derive(Debug, PartialEq, Eq, Hash, PartialOrd, Ord)]
pub enum Type {
    Bool,
    U8,
    U64,
    U128,
    Address,
    Signer,
    Vector(Box<Type>),
    Struct(CachedStructIndex),
    StructInstantiation(CachedStructIndex, Vec<Type>),
    Reference(Box<Type>),
    MutableReference(Box<Type>),
    TyParam(u16),
    U16,
    U32,
    U256,
}

/// Whether `b` is the same type as `a`: the same variant with the same
/// indices and parameters, and component types that are the same in turn.
pub open spec fn same_type(a: Type, b: Type) -> bool
    decreases a,
{
    match a {
        Type::Vector(x) => b matches Type::Vector(y) && same_type(*x, *y),
        Type::Reference(x) => b matches Type::Reference(y) && same_type(*x, *y),
        Type::MutableReference(x) => b matches Type::MutableReference(y) && same_type(*x, *y),
        Type::StructInstantiation(i, ts) => b matches Type::StructInstantiation(j, us) && i == j && {
            proof {
                broadcast use vstd::std_specs::vec::axiom_vec_decreases_to_view;

                assert(decreases_to!(ts => ts@));
            }
            same_types(ts@, us@)
        },
        _ => b == a,
    }
}

/// Whether two lists of types have the same length and the same types,
/// position by position.
pub open spec fn same_types(xs: Seq<Type>, ys: Seq<Type>) -> bool
    decreases xs,
{
    if xs.len() == 0 {
        ys.len() == 0
    } else {
        ys.len() > 0 && same_types(xs.drop_last(), ys.drop_last()) && same_type(xs.last(), ys.last())
    }
}

/// The variant of a type, as a number.
pub open spec fn type_kind(t: Type) -> int {
    match t {
        Type::Bool => 0,
        Type::U8 => 1,
        Type::U64 => 2,
        Type::U128 => 3,
        Type::Address => 4,
        Type::Signer => 5,
        Type::Vector(_) => 6,
        Type::Struct(_) => 7,
        Type::StructInstantiation(_, _) => 8,
        Type::Reference(_) => 9,
        Type::MutableReference(_) => 10,
        Type::TyParam(_) => 11,
        Type::U16 => 12,
        Type::U32 => 13,
        Type::U256 => 14,
    }
}

/// Sameness of types is reflexive, and keeps the variant: every type is the
/// same as itself, and a type the same as another has its variant, and,
/// where it has no component types, equals it.
pub proof fn lemma_same_type_laws(a: Type, b: Type)
    ensures
        same_type(a, a),
        same_type(a, b) ==> type_kind(a) == type_kind(b),
        same_type(a, b) && !(a is Vector || a is Reference || a is MutableReference || a is StructInstantiation)
            ==> a == b,
    decreases a,
{
    match a {
        Type::Vector(x) => {
            lemma_same_type_laws(*x, *x);
        },
        Type::Reference(x) => {
            lemma_same_type_laws(*x, *x);
        },
        Type::MutableReference(x) => {
            lemma_same_type_laws(*x, *x);
        },
        Type::StructInstantiation(i, ts) => {
            broadcast use vstd::std_specs::vec::axiom_vec_decreases_to_view;

            assert(decreases_to!(ts => ts@));
            lemma_same_types_reflexive(ts@);
        },
        _ => {},
    }
}

/// Every list of types is the same as itself.
pub proof fn lemma_same_types_reflexive(xs: Seq<Type>)
    ensures
        same_types(xs, xs),
    decreases xs,
{
    if xs.len() > 0 {
        assert(decreases_to!(xs => xs[xs.len() - 1]));
        lemma_same_type_laws(xs.last(), xs.last());
        lemma_same_types_reflexive(xs.drop_last());
    }
}

/// Copies a list of types.
fn clone_types(types: &Vec<Type>) -> (r: Vec<Type>)
    ensures
        same_types(types@, r@),
    decreases types@,
{
    let mut r: Vec<Type> = Vec::new();
    let mut i: usize = 0;
    assert(types@.take(0) =~= Seq::<Type>::empty());
    while i < types.len()
        invariant
            i <= types.len(),
            same_types(types@.take(i as int), r@),
        decreases types.len() - i,
    {
        assert(decreases_to!(types@ => types@[i as int]));
        let ghost r0 = r@;
        let t = types[i].clone();
        r.push(t);
        assert(r@.drop_last() =~= r0);
        assert(types@.take(i + 1).drop_last() =~= types@.take(i as int));
        i = i + 1;
    }
    assert(types@.take(i as int) =~= types@);
    r
}

impl Clone for Type {
    fn clone(&self) -> (r: Self)
        ensures
            same_type(*self, r),
        decreases *self,
    {
        match self {
            Type::Bool => Type::Bool,
            Type::U8 => Type::U8,
            Type::U64 => Type::U64,
            Type::U128 => Type::U128,
            Type::Address => Type::Address,
            Type::Signer => Type::Signer,
            Type::Vector(t) => Type::Vector(Box::new((**t).clone())),
            Type::Struct(i) => Type::Struct(*i),
            Type::StructInstantiation(i, ts) => {
                Type::StructInstantiation(*i, clone_types(ts))
            },
            Type::Reference(t) => Type::Reference(Box::new((**t).clone())),
            Type::MutableReference(t) => Type::MutableReference(Box::new((**t).clone())),
            Type::TyParam(n) => Type::TyParam(*n),
            Type::U16 => Type::U16,
            Type::U32 => Type::U32,
            Type::U256 => Type::U256,
        }
    }
}

} // verus!
