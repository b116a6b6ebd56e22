//! Derivation of asset signatures.
//!
//! A model signature is a pure function of the entity-class name and the
//! variant id, joined by a separator; an animation signature nests on top of
//! its owning model's signature, never on the raw variant id. As long as
//! class names and ids stay free of the separator, the derivation is
//! injective, so signatures cannot collide across entity classes.

use vstd::prelude::*;
use vstd::string::StringExecFns;

verus! {

/// The derived key for a model: `<entity-class>_<variant-id>`.
pub open spec fn spec_model_signature(class: Seq<char>, variant_id: Seq<char>) -> Seq<char> {
    class + "_"@ + variant_id
}

/// The derived key for an animation: `<model-signature>_<animation-id>`.
pub open spec fn spec_animation_signature(
    model_signature: Seq<char>,
    animation_id: Seq<char>,
) -> Seq<char> {
    model_signature + "_"@ + animation_id
}

/// Holds when a name is free of the separator, the condition under which
/// the derivation is injective.
pub open spec fn separator_free(s: Seq<char>) -> bool {
    forall|k: int| 0 <= k < s.len() ==> s[k] != '_'
}

/// Derives a model signature from an entity-class name and a variant id.
pub fn derive_model_signature(class: &str, variant_id: &str) -> (r: String)
    ensures
        r@ == spec_model_signature(class@, variant_id@),
{
    let r = String::from_str(class).concat("_").concat(variant_id);
    proof {
        assert(r@ =~= spec_model_signature(class@, variant_id@));
    }
    r
}

/// Derives an animation signature from the owning model's signature and an
/// animation id.
pub fn derive_animation_signature(model_signature: &str, animation_id: &str) -> (r: String)
    ensures
        r@ == spec_animation_signature(model_signature@, animation_id@),
{
    let r = String::from_str(model_signature).concat("_").concat(animation_id);
    proof {
        assert(r@ =~= spec_animation_signature(model_signature@, animation_id@));
    }
    r
}

/// Law: on separator-free class names the derivation is injective, so two
/// signatures agree only when both the class names and the variant ids do.
/// In particular, distinct classes can never collide, whatever the ids.
pub proof fn lemma_model_signature_injective(
    c1: Seq<char>,
    i1: Seq<char>,
    c2: Seq<char>,
    i2: Seq<char>,
)
    requires
        separator_free(c1),
        separator_free(c2),
        spec_model_signature(c1, i1) == spec_model_signature(c2, i2),
    ensures
        c1 == c2,
        i1 == i2,
{
    reveal_strlit("_");
    let s1 = spec_model_signature(c1, i1);
    let s2 = spec_model_signature(c2, i2);
    assert(s1.len() == c1.len() + 1 + i1.len());
    assert(s2.len() == c2.len() + 1 + i2.len());
    if c1.len() < c2.len() {
        assert(s1[c1.len() as int] == '_');
        assert(s2[c1.len() as int] == c2[c1.len() as int]);
        assert(false);
    }
    if c2.len() < c1.len() {
        assert(s2[c2.len() as int] == '_');
        assert(s1[c2.len() as int] == c1[c2.len() as int]);
        assert(false);
    }
    assert(c1 =~= c2) by {
        assert(forall|k: int| 0 <= k < c1.len() ==> s1[k] == c1[k] && s2[k] == c2[k]);
    }
    assert(i1 =~= i2) by {
        assert(forall|k: int|
            0 <= k < i1.len() ==> s1[c1.len() + 1 + k] == i1[k] && s2[c2.len() + 1 + k] == i2[k]);
    }
}

} // verus!
