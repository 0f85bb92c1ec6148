use vstd::prelude::*;

verus! {

/// The path that joining `part` onto `base` gives.
pub uninterp spec fn path_joined(base: Seq<char>, part: Seq<char>) -> Seq<char>;

/// `Path::join`: `part` joined onto `base` (with a separator where needed; an absolute `part`
/// replaces `base`), as text.
#[verifier::external_body]
pub fn join_path(base: &str, part: &str) -> (r: String)
    ensures
        r@ == path_joined(base@, part@),
{
    std::path::Path::new(base).join(part).to_string_lossy().into_owned()
}

} // verus!
