use vstd::prelude::*;

use crate::grammar::{description_of, is_conventional, subject_description};

verus! {

broadcast use vstd::string::group_string_axioms;

/// The most characters a subject line may have.
pub const MAX_SUBJECT_CHARS: usize = 72;

/// Reported for an empty subject, and then alone.
pub open spec fn empty_message() -> Seq<char> {
    "Subject line is empty"@
}

/// Reported for a subject that is not `<type>(<optional-scope>): <description>`.
pub open spec fn structure_message() -> Seq<char> {
    "Subject must match <type>(<optional-scope>): <description> with a valid type"@
}

/// Reported for a description that ends with `.`.
pub open spec fn period_message() -> Seq<char> {
    "Description must not end with a period"@
}

/// Reported for a description that lowercasing would change.
pub open spec fn case_message() -> Seq<char> {
    "Description must be lowercase"@
}

/// The decimal digit for `d < 10`.
pub open spec fn digit_char(d: nat) -> char {
    seq!['0', '1', '2', '3', '4', '5', '6', '7', '8', '9'][d as int]
}

/// `n` written in decimal, without leading zeros.
pub open spec fn decimal(n: nat) -> Seq<char>
    decreases n,
{
    if n < 10 {
        seq![digit_char(n)]
    } else {
        decimal(n / 10).push(digit_char(n % 10))
    }
}

/// The message for a subject of `n` characters, too many.
pub open spec fn length_message(n: nat) -> Seq<char> {
    "Subject line is "@ + decimal(n) + " characters; must be 72 or fewer"@
}

/// What `str::to_lowercase` makes of a text.
pub uninterp spec fn lowercase_of(s: Seq<char>) -> Seq<char>;

/// The violations of description `d`, given `lowered`, its lowercase form.
pub open spec fn description_messages(d: Seq<char>, lowered: Seq<char>) -> Seq<Seq<char>> {
    (if d.len() > 0 && d.last() == '.' {
        seq![period_message()]
    } else {
        seq![]
    }) + (if lowered != d {
        seq![case_message()]
    } else {
        seq![]
    })
}

/// The length violation of a non-empty subject, if it has one.
pub open spec fn length_messages(s: Seq<char>) -> Seq<Seq<char>> {
    if s.len() > MAX_SUBJECT_CHARS {
        seq![length_message(s.len())]
    } else {
        seq![]
    }
}

/// The violations of the shape of a non-empty subject, and of its description.
pub open spec fn structure_messages(s: Seq<char>) -> Seq<Seq<char>> {
    if is_conventional(s) {
        description_messages(description_of(s), lowercase_of(description_of(s)))
    } else {
        seq![structure_message()]
    }
}

/// All violations of subject `s`, in the order in which they are reported.
pub open spec fn violations(s: Seq<char>) -> Seq<Seq<char>> {
    if s.len() == 0 {
        seq![empty_message()]
    } else {
        length_messages(s) + structure_messages(s)
    }
}

/// Relies on `str::to_lowercase`: the result depends on the characters alone.
#[verifier::external_body]
fn to_lowercase(s: &str) -> (r: String)
    ensures
        r@ == lowercase_of(s@),
{
    s.to_lowercase()
}

/// `n` in decimal.
pub fn decimal_string(n: usize) -> (r: String)
    ensures
        r@ == decimal(n as nat),
{
    let digits = "0123456789";
    proof {
        reveal_strlit("0123456789");
    }
    let k = n % 10;
    let mut r = String::from_str(digits.substring_char(k, k + 1));
    let mut m: usize = n / 10;
    assert(r@ =~= seq![digit_char(k as nat)]);
    proof {
        if n >= 10 {
            assert(decimal(n as nat) =~= decimal(m as nat) + r@);
        }
    }
    while m > 0
        invariant
            digits@ == seq!['0', '1', '2', '3', '4', '5', '6', '7', '8', '9'],
            m > 0 ==> decimal(n as nat) == decimal(m as nat) + r@,
            m == 0 ==> decimal(n as nat) == r@,
        decreases m,
    {
        let k = m % 10;
        let piece = String::from_str(digits.substring_char(k, k + 1));
        assert(piece@ =~= seq![digit_char(k as nat)]);
        proof {
            if m >= 10 {
                assert(decimal(m as nat) == decimal((m / 10) as nat).push(digit_char(k as nat)));
                assert(decimal((m / 10) as nat) + (piece@ + r@) =~= decimal(m as nat) + r@);
            } else {
                assert(decimal(m as nat) == piece@);
            }
        }
        r = piece.concat(r.as_str());
        m = m / 10;
    }
    r
}

/// Pushing a message pushes its text.
proof fn lemma_push_view(v: Seq<String>, m: String)
    ensures
        v.push(m).map_values(|x: String| x@) == v.map_values(|x: String| x@).push(m@),
{
    assert(v.push(m).map_values(|x: String| x@) =~= v.map_values(|x: String| x@).push(m@));
}

/// The texts of a list of messages.
pub open spec fn texts(v: Seq<String>) -> Seq<Seq<char>> {
    v.map_values(|x: String| x@)
}

/// Appends `m` to `errors`.
fn push_message(errors: &mut Vec<String>, m: String)
    ensures
        texts(final(errors)@) == texts(old(errors)@).push(m@),
{
    proof {
        lemma_push_view(old(errors)@, m);
    }
    errors.push(m);
}

/// The message for a subject of `n` characters.
pub fn length_violation(n: usize) -> (r: String)
    ensures
        r@ == length_message(n as nat),
{
    let head = String::from_str("Subject line is ");
    let count = decimal_string(n);
    head.concat(count.as_str()).concat(" characters; must be 72 or fewer")
}

/// The violations of `description`, given `lowered`, its lowercase form.
pub fn description_violations(description: &str, lowered: &str) -> (r: Vec<String>)
    ensures
        texts(r@) == description_messages(description@, lowered@),
{
    let mut errors: Vec<String> = Vec::new();
    assert(texts(errors@) =~= seq![]);
    let len = description.unicode_len();
    if len > 0 && description.get_char(len - 1) == '.' {
        push_message(&mut errors, String::from_str("Description must not end with a period"));
    }
    let d = String::from_str(description);
    let l = String::from_str(lowered);
    if d != l {
        push_message(&mut errors, String::from_str("Description must be lowercase"));
    }
    assert(texts(errors@) =~= description_messages(description@, lowered@));
    errors
}

/// Every violation of commit subject `subject`, in order: empty, too long, and
/// then either the wrong shape or what is wrong with the description.
pub fn validate_subject(subject: &str) -> (r: Vec<String>)
    ensures
        texts(r@) == violations(subject@),
{
    let mut errors: Vec<String> = Vec::new();
    assert(texts(errors@) =~= seq![]);
    if subject.is_empty() {
        push_message(&mut errors, String::from_str("Subject line is empty"));
        return errors;
    }
    let len = subject.unicode_len();
    if len > MAX_SUBJECT_CHARS {
        push_message(&mut errors, length_violation(len));
    }
    assert(texts(errors@) == length_messages(subject@));
    match subject_description(subject) {
        Some(d) => {
            let lowered = to_lowercase(d);
            let mut more = description_violations(d, lowered.as_str());
            let ghost before = errors@;
            let ghost added = more@;
            errors.append(&mut more);
            assert(texts(errors@) =~= texts(before) + texts(added));
        },
        None => {
            push_message(
                &mut errors,
                String::from_str(
                    "Subject must match <type>(<optional-scope>): <description> with a valid type",
                ),
            );
        },
    }
    errors
}

} // verus!
