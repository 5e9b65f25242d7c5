//! Verified helpers for character-level string work: equality, searching,
//! splitting on a separator, prefix tests and decimal rendering of integers.
use vstd::prelude::*;
use vstd::string::{StrSliceExecFns, StringExecFns};

verus! {

/// Relies on std's `String::push`: appends the character to the string.
#[verifier::external_body]
pub fn push_char(s: &mut String, c: char)
    ensures
        final(s)@ == old(s)@.push(c),
{
    s.push(c);
}

/// Index of the first occurrence of `c` in `s`; `s.len()` when absent.
pub open spec fn first_index_of(s: Seq<char>, c: char) -> int
    decreases s.len(),
{
    if s.len() == 0 {
        0
    } else if s[0] == c {
        0
    } else {
        1 + first_index_of(s.drop_first(), c)
    }
}

pub broadcast proof fn lemma_first_index_of(s: Seq<char>, c: char)
    ensures
        0 <= #[trigger] first_index_of(s, c) <= s.len(),
        s.contains(c) ==> first_index_of(s, c) < s.len() && s[first_index_of(s, c)] == c,
        !s.contains(c) ==> first_index_of(s, c) == s.len(),
        forall|j: int| 0 <= j < first_index_of(s, c) ==> s[j] != c,
    decreases s.len(),
{
    if s.len() == 0 {
        assert(!s.contains(c));
    } else if s[0] == c {
        assert(s.contains(c));
    } else {
        let t = s.drop_first();
        lemma_first_index_of(t, c);
        assert(forall|j: int| 0 <= j < t.len() ==> t[j] == s[j + 1]);
        if s.contains(c) {
            let w = choose|w: int| 0 <= w < s.len() && s[w] == c;
            assert(t[w - 1] == c);
            assert(t.contains(c));
        }
        if t.contains(c) {
            let w = choose|w: int| 0 <= w < t.len() && t[w] == c;
            assert(s[w + 1] == c);
            assert(s.contains(c));
        }
        assert(forall|j: int| 1 <= j < first_index_of(s, c) ==> #[trigger] s[j] == t[j - 1]);
    }
}

/// Concatenation of character sequences is associative.
pub broadcast proof fn lemma_concat_assoc(a: Seq<char>, b: Seq<char>, c: Seq<char>)
    ensures
        #[trigger] ((a + b) + c) == a + (b + c),
{
    assert((a + b) + c =~= a + (b + c));
}

/// Character-by-character string equality.
pub fn str_eq(a: &str, b: &str) -> (r: bool)
    ensures
        r == (a@ == b@),
{
    let an = a.unicode_len();
    let bn = b.unicode_len();
    if an != bn {
        return false;
    }
    let mut i: usize = 0;
    while i < an
        invariant
            i <= an,
            an == a@.len(),
            an == b@.len(),
            forall|j: int| 0 <= j < i ==> a@[j] == b@[j],
        decreases an - i,
    {
        if a.get_char(i) != b.get_char(i) {
            return false;
        }
        i += 1;
    }
    proof {
        assert(a@ =~= b@);
    }
    true
}

/// First index of `c` in `s`, or `None` when `s` does not contain it.
pub fn find_char(s: &str, c: char) -> (r: Option<usize>)
    ensures
        match r {
            Some(i) => s@.contains(c) && i == first_index_of(s@, c),
            None => !s@.contains(c),
        },
{
    let n = s.unicode_len();
    let mut i: usize = 0;
    while i < n
        invariant
            i <= n,
            n == s@.len(),
            forall|j: int| 0 <= j < i ==> s@[j] != c,
        decreases n - i,
    {
        if s.get_char(i) == c {
            proof {
                lemma_first_index_of(s@, c);
                assert(s@[i as int] == c);
                assert(s@.contains(c));
                if first_index_of(s@, c) < i {
                    assert(s@[first_index_of(s@, c)] != c);
                }
            }
            return Some(i);
        }
        i += 1;
    }
    proof {
        lemma_first_index_of(s@, c);
        if s@.contains(c) {
            assert(s@[first_index_of(s@, c)] != c);
        }
    }
    None
}

/// `s` split at every occurrence of `c`; an `s` free of `c` stands alone.
pub open spec fn split_on(s: Seq<char>, c: char) -> Seq<Seq<char>>
    decreases s.len(),
{
    if !s.contains(c) {
        seq![s]
    } else {
        let i = first_index_of_found(s, c);
        seq![s.subrange(0, i)] + split_on(s.subrange(i + 1, s.len() as int), c)
    }
}

/// `first_index_of`, packaged with its bounds so that recursion on the tail
/// of a split is visibly terminating.
pub open spec fn first_index_of_found(s: Seq<char>, c: char) -> int {
    if s.contains(c) && 0 <= first_index_of(s, c) < s.len() {
        first_index_of(s, c)
    } else {
        0
    }
}

pub broadcast proof fn lemma_first_index_of_found(s: Seq<char>, c: char)
    requires
        s.contains(c),
    ensures
        #[trigger] first_index_of_found(s, c) == first_index_of(s, c),
{
    lemma_first_index_of(s, c);
}

/// Splits `s` at every occurrence of `c`.
pub fn split_all(s: &str, c: char) -> (r: Vec<String>)
    ensures
        r.deep_view() == split_on(s@, c),
    decreases s@.len(),
{
    broadcast use lemma_first_index_of_found;

    match find_char(s, c) {
        None => {
            let mut v: Vec<String> = Vec::new();
            v.push(s.to_owned());
            proof {
                assert(v.deep_view() =~= split_on(s@, c));
            }
            v
        },
        Some(i) => {
            proof {
                lemma_first_index_of(s@, c);
            }
            let n = s.unicode_len();
            let head = s.substring_char(0, i).to_owned();
            let tail = s.substring_char(i + 1, n);
            let mut rest = split_all(tail, c);
            rest.insert(0, head);
            proof {
                assert(rest.deep_view() =~= split_on(s@, c));
            }
            rest
        },
    }
}

/// Does `p` stand at the start of `s`?
pub open spec fn spec_has_prefix(s: Seq<char>, p: Seq<char>) -> bool {
    p.len() <= s.len() && s.subrange(0, p.len() as int) == p
}

pub fn has_prefix(s: &str, p: &str) -> (r: bool)
    ensures
        r == spec_has_prefix(s@, p@),
{
    let sn = s.unicode_len();
    let pn = p.unicode_len();
    if pn > sn {
        proof {
            assert(!spec_has_prefix(s@, p@));
        }
        return false;
    }
    let mut i: usize = 0;
    while i < pn
        invariant
            i <= pn <= sn,
            sn == s@.len(),
            pn == p@.len(),
            forall|j: int| 0 <= j < i ==> s@[j] == p@[j],
        decreases pn - i,
    {
        if s.get_char(i) != p.get_char(i) {
            proof {
                assert(s@.subrange(0, p@.len() as int)[i as int] != p@[i as int]);
            }
            return false;
        }
        i += 1;
    }
    proof {
        assert(s@.subrange(0, p@.len() as int) =~= p@);
    }
    true
}

/// An owned copy of the characters of `s` from `from` to `to`.
pub fn substring(s: &str, from: usize, to: usize) -> (r: String)
    requires
        from <= to <= s@.len(),
    ensures
        r@ == s@.subrange(from as int, to as int),
{
    s.substring_char(from, to).to_owned()
}

pub open spec fn dec_digit(d: int) -> char {
    if d == 0 {
        '0'
    } else if d == 1 {
        '1'
    } else if d == 2 {
        '2'
    } else if d == 3 {
        '3'
    } else if d == 4 {
        '4'
    } else if d == 5 {
        '5'
    } else if d == 6 {
        '6'
    } else if d == 7 {
        '7'
    } else if d == 8 {
        '8'
    } else {
        '9'
    }
}

/// Decimal rendering of a natural number, most significant digit first.
pub open spec fn dec_of_nat(n: nat) -> Seq<char>
    decreases n,
{
    if n < 10 {
        seq![dec_digit(n as int)]
    } else {
        dec_of_nat(n / 10).push(dec_digit((n % 10) as int))
    }
}

/// Decimal rendering of an integer, with a leading minus sign when negative.
pub open spec fn dec_of_int(i: int) -> Seq<char> {
    if i < 0 {
        seq!['-'] + dec_of_nat((-i) as nat)
    } else {
        dec_of_nat(i as nat)
    }
}

fn dec_digit_exec(d: u64) -> (c: char)
    requires
        d < 10,
    ensures
        c == dec_digit(d as int),
{
    if d == 0 {
        '0'
    } else if d == 1 {
        '1'
    } else if d == 2 {
        '2'
    } else if d == 3 {
        '3'
    } else if d == 4 {
        '4'
    } else if d == 5 {
        '5'
    } else if d == 6 {
        '6'
    } else if d == 7 {
        '7'
    } else if d == 8 {
        '8'
    } else {
        '9'
    }
}

fn u64_to_dec(n: u64) -> (r: String)
    ensures
        r@ == dec_of_nat(n as nat),
    decreases n,
{
    if n < 10 {
        let mut s = String::new();
        push_char(&mut s, dec_digit_exec(n));
        proof {
            assert(s@ =~= dec_of_nat(n as nat));
        }
        s
    } else {
        let mut s = u64_to_dec(n / 10);
        push_char(&mut s, dec_digit_exec(n % 10));
        s
    }
}

/// Decimal rendering of a signed 64-bit integer.
pub fn i64_to_dec(i: i64) -> (r: String)
    ensures
        r@ == dec_of_int(i as int),
{
    if i >= 0 {
        u64_to_dec(i as u64)
    } else {
        let wide: i128 = i as i128;
        let mag: u64 = (-wide) as u64;
        let mut s = String::new();
        push_char(&mut s, '-');
        let digits = u64_to_dec(mag);
        s.append(digits.as_str());
        proof {
            assert(s@ =~= dec_of_int(i as int));
        }
        s
    }
}

} // verus!
