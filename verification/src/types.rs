//! Type signatures as the schema presents them.
//!
//! A signature is a path of identifier segments; the generic arguments,
//! if any, are attached to the last segment.  The classifier only ever
//! compares segment spellings and counts arguments, so this structural
//! form carries everything the generation logic reads from a type.

use vstd::prelude::*;

verus! {

/// A type signature: a path of identifier segments with the generic
/// arguments of the last segment.
#[derive(Debug, PartialEq, Eq)]
pub struct TypeSig {
    pub segments: Vec<String>,
    pub args: Vec<TypeSig>,
}

/// Structural equality of two signatures: the same segment spellings and
/// structurally equal generic arguments, in the same order.
pub open spec fn sig_eq(a: TypeSig, b: TypeSig) -> bool
    decreases a,
{
    &&& a.segments@.len() == b.segments@.len()
    &&& (forall|i: int|
        0 <= i < a.segments@.len() ==> (#[trigger] a.segments@[i])@ == b.segments@[i]@)
    &&& a.args@.len() == b.args@.len()
    &&& (forall|i: int| 0 <= i < a.args@.len() ==> sig_eq(#[trigger] a.args@[i], b.args@[i]))
}

pub proof fn lemma_sig_eq_reflexive(a: TypeSig)
    ensures
        sig_eq(a, a),
    decreases a,
{
    assert forall|i: int| 0 <= i < a.args@.len() implies sig_eq(#[trigger] a.args@[i], a.args@[i]) by {
        lemma_sig_eq_reflexive(a.args@[i]);
    }
}

pub(crate) fn clone_strings(v: &Vec<String>) -> (r: Vec<String>)
    ensures
        r@ == v@,
{
    let mut r: Vec<String> = Vec::new();
    let mut i: usize = 0;
    while i < v.len()
        invariant
            i <= v@.len(),
            r@ == v@.subrange(0, i as int),
        decreases v@.len() - i,
    {
        r.push(v[i].clone());
        proof {
            assert(r@ =~= v@.subrange(0, i + 1 as int));
        }
        i = i + 1;
    }
    proof {
        assert(r@ =~= v@);
    }
    r
}

/// Structural copy of a signature, `sig_eq`-equal to its source.
pub fn clone_sig(t: &TypeSig) -> (r: TypeSig)
    ensures
        sig_eq(*t, r),
    decreases *t,
{
    let segments = clone_strings(&t.segments);
    let mut args: Vec<TypeSig> = Vec::new();
    let mut i: usize = 0;
    while i < t.args.len()
        invariant
            i <= t.args@.len(),
            args@.len() == i,
            forall|j: int| 0 <= j < i ==> sig_eq(t.args@[j], #[trigger] args@[j]),
        decreases t.args@.len() - i,
    {
        let a = clone_sig(&t.args[i]);
        args.push(a);
        i = i + 1;
    }
    TypeSig { segments, args }
}

} // verus!
