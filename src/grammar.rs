use vstd::prelude::*;

use crate::text::chars_of;

verus! {

broadcast use vstd::string::group_string_axioms;

/// The commit types a subject may start with.
pub open spec fn is_type_keyword(t: Seq<char>) -> bool {
    ||| t == "feat"@
    ||| t == "fix"@
    ||| t == "docs"@
    ||| t == "style"@
    ||| t == "refactor"@
    ||| t == "test"@
    ||| t == "chore"@
}

/// A scope: `(`, one or more characters other than `)`, then `)`.
pub open spec fn is_scope(sc: Seq<char>) -> bool {
    &&& sc.len() >= 3
    &&& sc[0] == '('
    &&& sc[sc.len() - 1] == ')'
    &&& forall|i: int| 1 <= i < sc.len() - 1 ==> sc[i] != ')'
}

/// A description: one or more characters, none of them a line feed.
pub open spec fn is_description(d: Seq<char>) -> bool {
    &&& d.len() > 0
    &&& forall|i: int| 0 <= i < d.len() ==> d[i] != '\n'
}

/// The text between the header and the description.
pub open spec fn separator() -> Seq<char> {
    seq![':', ' ']
}

/// `s` reads as type `t`, optional scope `sc` (empty when absent), `": "`,
/// and description `d`, covering the whole of `s`.
pub open spec fn is_split(s: Seq<char>, t: Seq<char>, sc: Seq<char>, d: Seq<char>) -> bool {
    &&& is_type_keyword(t)
    &&& (sc.len() == 0 || is_scope(sc))
    &&& is_description(d)
    &&& s == t + sc + separator() + d
}

/// `s` has the shape `<type>(<optional-scope>): <description>`.
pub open spec fn is_conventional(s: Seq<char>) -> bool {
    exists|t: Seq<char>, sc: Seq<char>, d: Seq<char>| is_split(s, t, sc, d)
}

/// `d` is the description of some reading of `s`.
pub open spec fn has_description(s: Seq<char>, d: Seq<char>) -> bool {
    exists|t: Seq<char>, sc: Seq<char>| is_split(s, t, sc, d)
}

/// The description of a conventional subject (see `lemma_split_unique`: there is one).
pub open spec fn description_of(s: Seq<char>) -> Seq<char> {
    choose|d: Seq<char>| has_description(s, d)
}

/// No type keyword is a proper prefix of another, so at most one starts a text.
pub proof fn lemma_keyword_prefix_unique(s: Seq<char>, a: Seq<char>, b: Seq<char>)
    requires
        is_type_keyword(a),
        is_type_keyword(b),
        a.is_prefix_of(s),
        b.is_prefix_of(s),
    ensures
        a == b,
{
    reveal_strlit("feat");
    reveal_strlit("fix");
    reveal_strlit("docs");
    reveal_strlit("style");
    reveal_strlit("refactor");
    reveal_strlit("test");
    reveal_strlit("chore");
    assert(a[0] == s[0] && b[0] == s[0]);
    assert(a[1] == s[1] && b[1] == s[1]);
}

/// Where the parts of a reading of `s` stand in it.
pub proof fn lemma_split_positions(s: Seq<char>, t: Seq<char>, sc: Seq<char>, d: Seq<char>)
    requires
        is_split(s, t, sc, d),
    ensures
        t.is_prefix_of(s),
        s.len() == t.len() + sc.len() + 2 + d.len(),
        forall|j: int| 0 <= j < sc.len() ==> s[t.len() + j] == sc[j],
        s[t.len() + sc.len() as int] == ':',
        s[t.len() + sc.len() + 1int] == ' ',
        d == s.subrange(t.len() + sc.len() + 2int, s.len() as int),
{
    let a = t.len() as int;
    let b = sc.len() as int;
    assert(s.subrange(0, a) =~= t);
    assert(s.subrange(a + b + 2, s.len() as int) =~= d);
    assert forall|j: int| 0 <= j < b implies s[a + j] == sc[j] by {
        assert(s[a + j] == (t + sc)[a + j]);
    }
    assert(s[a + b] == (t + sc + separator())[a + b]);
    assert(s[a + b + 1] == (t + sc + separator())[a + b + 1]);
}

/// A subject has at most one reading.
pub proof fn lemma_split_unique(
    s: Seq<char>,
    t1: Seq<char>,
    sc1: Seq<char>,
    d1: Seq<char>,
    t2: Seq<char>,
    sc2: Seq<char>,
    d2: Seq<char>,
)
    requires
        is_split(s, t1, sc1, d1),
        is_split(s, t2, sc2, d2),
    ensures
        t1 == t2,
        sc1 == sc2,
        d1 == d2,
{
    lemma_split_positions(s, t1, sc1, d1);
    lemma_split_positions(s, t2, sc2, d2);
    lemma_keyword_prefix_unique(s, t1, t2);
    let n = t1.len() as int;
    if sc1.len() != sc2.len() {
        if sc1.len() == 0 {
            assert(s[n + 0] == sc2[0]);
        } else if sc2.len() == 0 {
            assert(s[n + 0] == sc1[0]);
        } else if sc1.len() < sc2.len() {
            assert(s[n + (sc1.len() - 1)] == sc2[sc1.len() - 1]);
        } else {
            assert(s[n + (sc2.len() - 1)] == sc1[sc2.len() - 1]);
        }
    }
    assert(sc1 =~= sc2) by {
        assert forall|j: int| 0 <= j < sc1.len() implies sc1[j] == sc2[j] by {
            assert(s[n + j] == sc1[j]);
            assert(s[n + j] == sc2[j]);
        }
    }
}

/// Some reading of a conventional subject, with where its parts stand.
proof fn lemma_reading(s: Seq<char>) -> (r: (Seq<char>, Seq<char>, Seq<char>))
    requires
        is_conventional(s),
    ensures
        is_split(s, r.0, r.1, r.2),
        s.len() == r.0.len() + r.1.len() + 2 + r.2.len(),
        r.2 == s.subrange(r.0.len() + r.1.len() + 2int, s.len() as int),
{
    let (t, sc, d) = choose|t: Seq<char>, sc: Seq<char>, d: Seq<char>| is_split(s, t, sc, d);
    lemma_split_positions(s, t, sc, d);
    (t, sc, d)
}

/// Every reading of `s` has its type and scope take up the first `p` characters.
spec fn header_ends_at(s: Seq<char>, p: int) -> bool {
    forall|t: Seq<char>, sc: Seq<char>, d: Seq<char>|
        #[trigger] is_split(s, t, sc, d) ==> t.len() + sc.len() == p
}

/// The description of a conventional subject, if `subject` is one.
pub fn subject_description(subject: &str) -> (r: Option<&str>)
    ensures
        r is Some <==> is_conventional(subject@),
        r matches Some(d) ==> d@ == description_of(subject@),
{
    let ghost s = subject@;
    let cs = chars_of(subject);
    let len = cs.len();
    let n = match type_keyword_len(&cs) {
        Some(n) => n,
        None => {
            proof {
                if is_conventional(s) {
                    lemma_reading(s);
                }
            }
            return None;
        },
    };
    // Every reading of `s` has the keyword `s.take(n)` as its type.
    assert forall|t: Seq<char>, sc: Seq<char>, d: Seq<char>|
        is_split(s, t, sc, d) implies t.len() == n by {
        lemma_split_positions(s, t, sc, d);
        lemma_keyword_prefix_unique(s, t, s.take(n as int));
    }
    // `p` is where the separator has to start.
    let mut p: usize = n;
    if n < len && cs[n] == '(' {
        let mut q: usize = n + 1;
        while q < len && cs[q] != ')'
            invariant
                n < q <= len,
                len == cs.len(),
                cs@ == s,
                forall|j: int| n < j < q ==> s[j] != ')',
            decreases len - q,
        {
            q += 1;
        }
        assert forall|t: Seq<char>, sc: Seq<char>, d: Seq<char>|
            is_split(s, t, sc, d) implies t.len() + sc.len() == q + 1 by {
            lemma_split_positions(s, t, sc, d);
            if sc.len() == 0 {
                assert(s[n + 0] == ':');
            } else {
                assert(s[n + (sc.len() - 1)] == sc[sc.len() - 1]);
                if q < n + sc.len() - 1 {
                    assert(s[n + (q - n)] == sc[q - n]);
                }
            }
        }
        if q == len || q == n + 1 {
            proof {
                if is_conventional(s) {
                    lemma_reading(s);
                }
            }
            return None;
        }
        p = q + 1;
    } else {
        assert forall|t: Seq<char>, sc: Seq<char>, d: Seq<char>|
            is_split(s, t, sc, d) implies t.len() + sc.len() == n by {
            lemma_split_positions(s, t, sc, d);
            if sc.len() > 0 {
                assert(s[n + 0] == sc[0]);
            }
        }
    }
    assert(header_ends_at(s, p as int));
    assert(p <= len);
    if len - p < 3 || cs[p] != ':' || cs[p + 1] != ' ' {
        proof {
            if is_conventional(s) {
                lemma_reading(s);
            }
        }
        return None;
    }
    let mut i: usize = p + 2;
    while i < len
        invariant
            p + 2 <= i <= len,
            len == cs.len(),
            cs@ == s,
            s == subject@,
            forall|j: int| p + 2 <= j < i ==> s[j] != '\n',
            header_ends_at(s, p as int),
        decreases len - i,
    {
        if cs[i] == '\n' {
            proof {
                if is_conventional(s) {
                    let (t, sc, d) = lemma_reading(s);
                    assert(t.len() + sc.len() == p);
                    let k = i - (p + 2);
                    assert(s[i as int] == '\n');
                    assert(d[k] == s[i as int]);
                }
            }
            return None;
        }
        i += 1;
    }
    let d = subject.substring_char(p + 2, len);
    proof {
        let t = s.take(n as int);
        let sc = s.subrange(n as int, p as int);
        assert(s =~= t + sc + separator() + d@);
        assert(is_split(s, t, sc, d@));
        let d2 = description_of(s);
        assert(has_description(s, d@));
        let (t2, sc2) = choose|t2: Seq<char>, sc2: Seq<char>| is_split(s, t2, sc2, d2);
        lemma_split_unique(s, t, sc, d@, t2, sc2, d2);
    }
    Some(d)
}

fn starts_with(cs: &Vec<char>, k: &str) -> (r: bool)
    ensures
        r == k@.is_prefix_of(cs@),
{
    let n = k.unicode_len();
    if n > cs.len() {
        return false;
    }
    let mut i: usize = 0;
    while i < n
        invariant
            n == k@.len(),
            n <= cs.len(),
            i <= n,
            forall|j: int| 0 <= j < i ==> k@[j] == cs@[j],
        decreases n - i,
    {
        if k.get_char(i) != cs[i] {
            return false;
        }
        i += 1;
    }
    assert(cs@.subrange(0, n as int) =~= k@);
    true
}

/// The length of the type keyword that starts `cs`, if one does.
fn type_keyword_len(cs: &Vec<char>) -> (r: Option<usize>)
    ensures
        r matches Some(n) ==> n <= cs.len() && is_type_keyword(cs@.take(n as int)),
        r is None ==> forall|t: Seq<char>| is_type_keyword(t) ==> !t.is_prefix_of(cs@),
{
    let k = if starts_with(cs, "feat") {
        "feat"
    } else if starts_with(cs, "fix") {
        "fix"
    } else if starts_with(cs, "docs") {
        "docs"
    } else if starts_with(cs, "style") {
        "style"
    } else if starts_with(cs, "refactor") {
        "refactor"
    } else if starts_with(cs, "test") {
        "test"
    } else if starts_with(cs, "chore") {
        "chore"
    } else {
        return None;
    };
    let n = k.unicode_len();
    assert(cs@.take(n as int) =~= k@);
    Some(n)
}

} // verus!
