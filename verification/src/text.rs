//! Small verified string utilities: equality of string slices and trimming
//! of surrounding whitespace, as needed when matching metric field names.

use vstd::prelude::*;
use vstd::string::StrSliceExecFns;

verus! {

/// The whitespace characters stripped from the ends of a field name.
pub open spec fn is_space_char(c: char) -> bool {
    c == ' ' || c == '\t' || c == '\n' || c == '\r'
}

/// The sequence with its leading whitespace removed.
pub open spec fn trim_start_spec(s: Seq<char>) -> Seq<char>
    decreases s.len(),
{
    if s.len() > 0 && is_space_char(s.first()) {
        trim_start_spec(s.drop_first())
    } else {
        s
    }
}

/// The sequence with its trailing whitespace removed.
pub open spec fn trim_end_spec(s: Seq<char>) -> Seq<char>
    decreases s.len(),
{
    if s.len() > 0 && is_space_char(s.last()) {
        trim_end_spec(s.drop_last())
    } else {
        s
    }
}

/// The sequence with whitespace removed from both ends.
pub open spec fn trim_spec(s: Seq<char>) -> Seq<char> {
    trim_end_spec(trim_start_spec(s))
}

/// If every character before `a` is whitespace and either `a` is the end or
/// the character at `a` is not whitespace, then trimming the front drops
/// exactly the first `a` characters.
proof fn lemma_trim_start_skip(s: Seq<char>, a: int)
    requires
        0 <= a <= s.len(),
        forall|j: int| 0 <= j < a ==> is_space_char(s[j]),
        a == s.len() || !is_space_char(s[a]),
    ensures
        trim_start_spec(s) == s.skip(a),
    decreases a,
{
    if a == 0 {
        assert(s.skip(0) =~= s);
    } else {
        lemma_trim_start_skip(s.drop_first(), a - 1);
        assert(s.drop_first().skip(a - 1) =~= s.skip(a));
    }
}

/// If every character after `b` is whitespace and the character at `b` is
/// not, then trimming the back keeps exactly the first `b + 1` characters.
proof fn lemma_trim_end_take(s: Seq<char>, b: int)
    requires
        0 <= b < s.len(),
        forall|j: int| b < j < s.len() ==> is_space_char(s[j]),
        !is_space_char(s[b]),
    ensures
        trim_end_spec(s) == s.take(b + 1),
    decreases s.len(),
{
    if b + 1 == s.len() {
        assert(s.take(b + 1) =~= s);
    } else {
        lemma_trim_end_take(s.drop_last(), b);
        assert(s.drop_last().take(b + 1) =~= s.take(b + 1));
    }
}

/// A sequence of whitespace alone trims from the back to the empty sequence.
proof fn lemma_trim_end_all_spaces(s: Seq<char>)
    requires
        forall|j: int| 0 <= j < s.len() ==> is_space_char(s[j]),
    ensures
        trim_end_spec(s) == Seq::<char>::empty(),
    decreases s.len(),
{
    if s.len() > 0 {
        lemma_trim_end_all_spaces(s.drop_last());
    } else {
        assert(s =~= Seq::<char>::empty());
    }
}

/// Whether two string slices hold the same characters.
pub fn str_eq(a: &str, b: &str) -> (r: bool)
    ensures
        r == (a@ == b@),
{
    let n = a.unicode_len();
    let m = b.unicode_len();
    if n != m {
        return false;
    }
    let mut i: usize = 0;
    while i < n
        invariant
            0 <= i <= n,
            n == a@.len(),
            n == b@.len(),
            forall|j: int| 0 <= j < i ==> a@[j] == b@[j],
        decreases n - i,
    {
        if a.get_char(i) != b.get_char(i) {
            assert(a@[i as int] != b@[i as int]);
            return false;
        }
        i = i + 1;
    }
    proof {
        assert(a@ =~= b@);
    }
    true
}

/// Executable whitespace test for one character.
fn is_space(c: char) -> (r: bool)
    ensures
        r == is_space_char(c),
{
    c == ' ' || c == '\t' || c == '\n' || c == '\r'
}

/// The slice with leading and trailing whitespace removed; see [`trim_spec`].
pub fn trim(s: &str) -> (r: &str)
    ensures
        r@ == trim_spec(s@),
{
    let n = s.unicode_len();
    let mut a: usize = 0;
    while a < n && is_space(s.get_char(a))
        invariant
            0 <= a <= n,
            n == s@.len(),
            forall|j: int| 0 <= j < a ==> is_space_char(s@[j]),
        decreases n - a,
    {
        a = a + 1;
    }
    if a == n {
        proof {
            lemma_trim_start_skip(s@, a as int);
            assert(s@.skip(n as int) =~= Seq::<char>::empty());
            lemma_trim_end_all_spaces(Seq::<char>::empty());
        }
        return s.substring_char(n, n);
    }
    let mut b: usize = n - 1;
    while b > a && is_space(s.get_char(b))
        invariant
            a <= b < n,
            n == s@.len(),
            forall|j: int| b < j < n ==> is_space_char(s@[j]),
        decreases b,
    {
        b = b - 1;
    }
    // the character at `a` is not whitespace, so the scan from the back
    // stopped at a non-whitespace character as well
    let r = s.substring_char(a, b + 1);
    proof {
        lemma_trim_start_skip(s@, a as int);
        lemma_trim_end_take(s@.skip(a as int), b - a);
        assert(s@.skip(a as int).take(b - a + 1) =~= s@.subrange(a as int, b + 1));
    }
    r
}

} // verus!
