//! Small text helpers shared by the option normalizers and parsers:
//! whitespace trimming and character-exact string comparison.

use vstd::prelude::*;
use vstd::string::*;

verus! {

/// A whitespace character, as `str::trim` understands it: the characters
/// with the White_Space property.
pub open spec fn is_space(c: char) -> bool {
    let u = c as u32;
    ||| 0x09 <= u && u <= 0x0d
    ||| u == 0x20
    ||| u == 0x85
    ||| u == 0xa0
    ||| u == 0x1680
    ||| 0x2000 <= u && u <= 0x200a
    ||| u == 0x2028
    ||| u == 0x2029
    ||| u == 0x202f
    ||| u == 0x205f
    ||| u == 0x3000
}

/// Drop leading whitespace.
pub open spec fn trim_front(s: Seq<char>) -> Seq<char>
    decreases s.len(),
{
    if s.len() > 0 && is_space(s[0]) {
        trim_front(s.drop_first())
    } else {
        s
    }
}

/// Drop trailing whitespace.
pub open spec fn trim_back(s: Seq<char>) -> Seq<char>
    decreases s.len(),
{
    if s.len() > 0 && is_space(s.last()) {
        trim_back(s.drop_last())
    } else {
        s
    }
}

/// Drop whitespace from both ends.
pub open spec fn trim_spec(s: Seq<char>) -> Seq<char> {
    trim_back(trim_front(s))
}

proof fn lemma_trim_front_no_lead(s: Seq<char>)
    ensures
        trim_front(s).len() > 0 ==> !is_space(trim_front(s)[0]),
    decreases s.len(),
{
    if s.len() > 0 && is_space(s[0]) {
        lemma_trim_front_no_lead(s.drop_first());
    }
}

proof fn lemma_trim_back_no_trail(s: Seq<char>)
    ensures
        trim_back(s).len() > 0 ==> !is_space(trim_back(s).last()),
    decreases s.len(),
{
    if s.len() > 0 && is_space(s.last()) {
        lemma_trim_back_no_trail(s.drop_last());
    }
}

proof fn lemma_trim_back_keeps_first(s: Seq<char>)
    ensures
        trim_back(s).len() > 0 ==> trim_back(s)[0] == s[0],
    decreases s.len(),
{
    if s.len() > 0 && is_space(s.last()) {
        lemma_trim_back_keeps_first(s.drop_last());
    }
}

/// Trimming is idempotent.
pub proof fn lemma_trim_idempotent(s: Seq<char>)
    ensures
        trim_spec(trim_spec(s)) == trim_spec(s),
{
    let t = trim_spec(s);
    if t.len() == 0 {
        assert(trim_front(t) == t);
        assert(trim_back(t) == t);
    } else {
        lemma_trim_front_no_lead(s);
        lemma_trim_back_keeps_first(trim_front(s));
        assert(!is_space(t[0]));
        assert(trim_front(t) == t);
        lemma_trim_back_no_trail(trim_front(s));
        assert(!is_space(t.last()));
        assert(trim_back(t) == t);
    }
}

fn is_space_char(c: char) -> (r: bool)
    ensures
        r == is_space(c),
{
    let u = c as u32;
    (0x09 <= u && u <= 0x0d) || u == 0x20 || u == 0x85 || u == 0xa0 || u == 0x1680 || (0x2000 <= u
        && u <= 0x200a) || u == 0x2028 || u == 0x2029 || u == 0x202f || u == 0x205f || u == 0x3000
}

/// Copy of `input` with whitespace removed from both ends.
pub fn trim_str(input: &str) -> (r: String)
    ensures
        r@ == trim_spec(input@),
{
    let ghost s = input@;
    let n: usize = input.unicode_len();

    let mut start: usize = 0;
    proof {
        assert(s.skip(0) =~= s);
    }
    while start < n && is_space_char(input.get_char(start))
        invariant
            start <= n,
            n == s.len(),
            s == input@,
            trim_front(s) == trim_front(s.skip(start as int)),
        decreases n - start,
    {
        proof {
            assert(s.skip(start as int).drop_first() =~= s.skip(start as int + 1));
        }
        start += 1;
    }
    proof {
        assert(trim_front(s.skip(start as int)) == s.skip(start as int));
    }
    let ghost t = s.skip(start as int);

    let mut end: usize = n;
    proof {
        assert(t.take(n - start as int) =~= t);
    }
    while end > start && is_space_char(input.get_char(end - 1))
        invariant
            start <= end <= n,
            n == s.len(),
            s == input@,
            t == s.skip(start as int),
            trim_back(t) == trim_back(t.take(end - start)),
        decreases end,
    {
        proof {
            assert(t.take(end - start as int)[end - start - 1] == s[end as int - 1]);
            assert(t.take(end - start as int).drop_last() =~= t.take(end - 1 - start as int));
        }
        end -= 1;
    }
    proof {
        assert(trim_back(t.take(end - start as int)) == t.take(end - start as int));
        assert(t.take(end - start as int) =~= s.subrange(start as int, end as int));
    }
    let piece = input.substring_char(start, end);
    piece.to_owned()
}

/// Character-exact comparison of two strings.
pub fn str_eq_str(a: &str, b: &str) -> (r: bool)
    ensures
        r == (a@ == b@),
{
    let na = a.unicode_len();
    let nb = b.unicode_len();
    if na != nb {
        return false;
    }
    let mut i: usize = 0;
    while i < na
        invariant
            i <= na,
            na == a@.len(),
            na == b@.len(),
            forall|j: int| 0 <= j < i ==> a@[j] == b@[j],
        decreases na - i,
    {
        if a.get_char(i) != b.get_char(i) {
            return false;
        }
        i += 1;
    }
    proof {
        assert(a@ =~= b@);
    }
    true
}

/// Byte-exact comparison of two byte vectors.
pub fn bytes_eq(a: &Vec<u8>, b: &Vec<u8>) -> (r: bool)
    ensures
        r == (a@ == b@),
{
    if a.len() != b.len() {
        proof {
            assert(a@.len() != b@.len());
        }
        return false;
    }
    let mut i: usize = 0;
    while i < a.len()
        invariant
            i <= a@.len(),
            a@.len() == b@.len(),
            forall|j: int| 0 <= j < i ==> a@[j] == b@[j],
        decreases a@.len() - i,
    {
        if a[i] != b[i] {
            return false;
        }
        i += 1;
    }
    proof {
        assert(a@ =~= b@);
    }
    true
}

} // verus!
