use vstd::prelude::*;

verus! {

/// One node of the minimal expression language that path strings are written
/// in.  A sequence of fragments resolves to the concatenation, in order, of
/// the text each fragment resolves to; no separator is inserted.
#[derive(Debug)]
pub enum PathFragment {
    /// Literal text, used verbatim.
    Str(String),
    /// The inner fragments resolve to the *name* of an environment variable,
    /// whose value is then looked up and substituted.  Nesting another
    /// `ExpandEnvVar` inside gives indirection: a variable holding the name
    /// of another variable.
    ExpandEnvVar(Vec<PathFragment>),
    /// The inner fragments resolve to the name of an external command; the
    /// command's standard output becomes the substituted text.
    ExpandShell(Vec<PathFragment>),
}

/// Structural size of one fragment; a termination measure for resolution.
pub open spec fn fragment_height(f: PathFragment) -> nat
    decreases f,
{
    match f {
        PathFragment::Str(_) => 1,
        PathFragment::ExpandEnvVar(inner) => 1 + fragment_vec_height(inner),
        PathFragment::ExpandShell(inner) => 1 + fragment_vec_height(inner),
    }
}

/// Structural size of a vector of fragments.
pub open spec fn fragment_vec_height(v: Vec<PathFragment>) -> nat
    decreases v,
{
    fragment_seq_height(v@)
}

/// Structural size of a fragment sequence: the sum of its members' sizes.
pub open spec fn fragment_seq_height(s: Seq<PathFragment>) -> nat
    decreases s,
{
    if s.len() == 0 {
        0
    } else {
        fragment_height(s[0]) + fragment_seq_height(s.subrange(1, s.len() as int))
    }
}

pub proof fn lemma_fragment_height_pos(f: PathFragment)
    ensures
        fragment_height(f) >= 1,
{
}

} // verus!
