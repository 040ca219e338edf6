use vstd::prelude::*;

use crate::grammar::{
    description_of, is_conventional, is_split, is_type_keyword, lemma_split_positions,
};
use crate::validate::{
    empty_message, length_message, length_messages, lowercase_of, structure_message, violations,
    MAX_SUBJECT_CHARS,
};

verus! {

/// An empty subject gets exactly one violation, the empty one, and nothing else.
pub proof fn law_empty_subject(s: Seq<char>)
    requires
        s.len() == 0,
    ensures
        violations(s) == seq![empty_message()],
{
}

/// A subject longer than the limit is reported first with its exact length,
/// whatever its shape.
pub proof fn law_long_subject(s: Seq<char>)
    requires
        s.len() > MAX_SUBJECT_CHARS,
    ensures
        violations(s)[0] == length_message(s.len()),
        violations(s).contains(length_message(s.len())),
{
    assert(violations(s)[0] == length_message(s.len()));
}

/// A conventional subject whose description neither ends with a period nor
/// changes when lowercased gets no violation but, possibly, the length one.
pub proof fn law_well_formed_subject(s: Seq<char>)
    requires
        is_conventional(s),
        description_of(s).last() != '.',
        lowercase_of(description_of(s)) == description_of(s),
    ensures
        violations(s) == length_messages(s),
{
    let (t, sc, d) = choose|t: Seq<char>, sc: Seq<char>, d: Seq<char>| is_split(s, t, sc, d);
    lemma_split_positions(s, t, sc, d);
    assert(violations(s) =~= length_messages(s));
}

/// A subject that does not start with a known type followed by a scope or a
/// colon gets the shape violation, after the length one if any, and no
/// violation of its description.
pub proof fn law_unknown_type(s: Seq<char>)
    requires
        s.len() > 0,
        forall|t: Seq<char>| #[trigger]
            is_type_keyword(t) ==> !(t + seq!['(']).is_prefix_of(s)
                && !(t + seq![':']).is_prefix_of(s),
    ensures
        violations(s) == length_messages(s).push(structure_message()),
{
    if is_conventional(s) {
        let (t, sc, d) = choose|t: Seq<char>, sc: Seq<char>, d: Seq<char>| is_split(s, t, sc, d);
        lemma_split_positions(s, t, sc, d);
        let n = t.len() as int;
        if sc.len() == 0 {
            assert(s.subrange(0, n + 1) =~= t + seq![':']);
        } else {
            assert(s[n + 0] == sc[0]);
            assert(s.subrange(0, n + 1) =~= t + seq!['(']);
        }
    }
    assert(violations(s) =~= length_messages(s).push(structure_message()));
}

} // verus!
