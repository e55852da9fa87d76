//! Effects that ship with the controller: scripts addressed by a slug.
use vstd::prelude::*;

verus! {

/// A built-in effect: its display name, its slug, its script and the JSON
/// list of its parameter definitions.
pub struct BuiltinEffect {
    pub name: String,
    pub slug: String,
    pub script: String,
    pub params: String,
}

/// The id under which a built-in effect with slug `slug` is addressed.
pub open spec fn builtin_id(slug: Seq<char>) -> Seq<char> {
    seq!['b', 'u', 'i', 'l', 't', 'i', 'n', ':'] + slug
}

impl BuiltinEffect {
    /// The id of this effect: `builtin:` followed by its slug.
    pub fn id(&self) -> (r: String)
        ensures
            r@ == builtin_id(self.slug@),
    {
        let r = String::from_str("builtin:").concat(self.slug.as_str());
        proof {
            reveal_strlit("builtin:");
            assert(r@ =~= builtin_id(self.slug@));
        }
        r
    }
}

} // verus!
