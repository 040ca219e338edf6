use vstd::prelude::*;

use crate::text::chars_of;

verus! {

broadcast use vstd::string::group_string_axioms;

/// Whether `char::is_whitespace` holds of `c` (Unicode's White_Space property).
pub uninterp spec fn white_space(c: char) -> bool;

/// Relies on `char::is_whitespace`: a property of the character alone.
#[verifier::external_body]
fn is_whitespace(c: char) -> (r: bool)
    ensures
        r == white_space(c),
{
    c.is_whitespace()
}

/// `k` is where the first line of `m` ends: at the first line feed, or at the end.
pub open spec fn is_first_line_end(m: Seq<char>, k: int) -> bool {
    &&& 0 <= k <= m.len()
    &&& (k == m.len() || m[k] == '\n')
    &&& forall|j: int| 0 <= j < k ==> m[j] != '\n'
}

/// `r` is the first line of `m` without its trailing white space.
pub open spec fn is_subject_of(m: Seq<char>, r: Seq<char>) -> bool {
    exists|k: int|
        #![trigger is_first_line_end(m, k)]
        {
            &&& is_first_line_end(m, k)
            &&& r.len() <= k
            &&& r == m.take(r.len() as int)
            &&& forall|j: int| r.len() <= j < k ==> white_space(m[j])
            &&& (r.len() == 0 || !white_space(r.last()))
        }
}

/// The subject of commit message `message`: its first line, with trailing
/// white space removed and leading white space kept.
pub fn subject_line(message: &str) -> (r: &str)
    ensures
        is_subject_of(message@, r@),
{
    let cs = chars_of(message);
    let len = cs.len();
    let mut k: usize = 0;
    while k < len && cs[k] != '\n'
        invariant
            k <= len,
            len == cs.len(),
            forall|j: int| 0 <= j < k ==> cs@[j] != '\n',
        decreases len - k,
    {
        k += 1;
    }
    let mut e: usize = k;
    while e > 0 && is_whitespace(cs[e - 1])
        invariant
            e <= k <= len,
            len == cs.len(),
            forall|j: int| e <= j < k ==> white_space(cs@[j]),
        decreases e,
    {
        e -= 1;
    }
    let r = message.substring_char(0, e);
    assert(is_first_line_end(message@, k as int));
    assert(r@ == message@.take(e as int));
    r
}

} // verus!
