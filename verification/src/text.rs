//! Verified text primitives: the library's own substring search, literal
//! replacement and whitespace trimming over character vectors, plus the
//! conversions between `String`/`&str` and `Vec<char>`.

use vstd::prelude::*;

verus! {

/// The pattern `pat` occurs in `t` starting at index `i`.
pub open spec fn occurs_at(t: Seq<char>, pat: Seq<char>, i: int) -> bool {
    0 <= i && i + pat.len() <= t.len() && t.subrange(i, i + pat.len()) == pat
}

/// The pattern occurs somewhere in `t`.
pub open spec fn contains_sub(t: Seq<char>, pat: Seq<char>) -> bool {
    exists|i: int| occurs_at(t, pat, i)
}

/// The characters of `s`, in order.
pub fn str_to_chars(s: &str) -> (r: Vec<char>)
    ensures
        r@ == s@,
{
    let n = s.unicode_len();
    let mut r: Vec<char> = Vec::new();
    let mut i: usize = 0;
    while i < n
        invariant
            n == s@.len(),
            i <= n,
            r@ == s@.subrange(0, i as int),
        decreases n - i,
    {
        r.push(s.get_char(i));
        i += 1;
        assert(r@ =~= s@.subrange(0, i as int));
    }
    assert(r@ =~= s@);
    r
}

/// Relies on `String`'s `FromIterator<char>`: the resulting string consists of
/// exactly the given characters, in order.
#[verifier::external_body]
pub fn chars_to_string(v: &Vec<char>) -> (r: String)
    ensures
        r@ == v@,
{
    v.iter().collect()
}

/// A copy of the character vector.
pub fn copy_chars(t: &Vec<char>) -> (r: Vec<char>)
    ensures
        r@ == t@,
{
    let mut r: Vec<char> = Vec::new();
    let mut i: usize = 0;
    while i < t.len()
        invariant
            i <= t@.len(),
            r@ == t@.subrange(0, i as int),
        decreases t@.len() - i,
    {
        r.push(t[i]);
        i += 1;
        assert(r@ =~= t@.subrange(0, i as int));
    }
    assert(r@ =~= t@);
    r
}

/// The characters of `t` from `from` (inclusive) to `to` (exclusive).
pub fn sub_chars(t: &Vec<char>, from: usize, to: usize) -> (r: Vec<char>)
    requires
        from <= to <= t@.len(),
    ensures
        r@ == t@.subrange(from as int, to as int),
{
    let mut r: Vec<char> = Vec::new();
    let mut i: usize = from;
    proof {
        assert(t@.subrange(from as int, from as int) =~= Seq::<char>::empty());
    }
    while i < to
        invariant
            from <= i <= to <= t@.len(),
            r@ == t@.subrange(from as int, i as int),
        decreases to - i,
    {
        r.push(t[i]);
        i += 1;
        assert(r@ =~= t@.subrange(from as int, i as int));
    }
    r
}

/// Appends all of `other` to `out`.
pub fn append_chars(out: &mut Vec<char>, other: &Vec<char>)
    ensures
        final(out)@ == old(out)@ + other@,
{
    let mut j: usize = 0;
    while j < other.len()
        invariant
            j <= other@.len(),
            out@ == old(out)@ + other@.subrange(0, j as int),
        decreases other@.len() - j,
    {
        out.push(other[j]);
        j += 1;
        assert(out@ =~= old(out)@ + other@.subrange(0, j as int));
    }
    assert(out@ =~= old(out)@ + other@);
}

/// Whether `pat` occurs in `t` at position `i`.
pub fn matches_at(t: &Vec<char>, pat: &Vec<char>, i: usize) -> (r: bool)
    requires
        i + pat@.len() <= t@.len(),
    ensures
        r == occurs_at(t@, pat@, i as int),
{
    let tl = t.len();
    let mut j: usize = 0;
    while j < pat.len()
        invariant
            tl == t@.len(),
            j <= pat@.len(),
            i + pat@.len() <= t@.len(),
            forall|k: int| 0 <= k < j ==> t@[i + k] == pat@[k],
        decreases pat@.len() - j,
    {
        if t[i + j] != pat[j] {
            proof {
                assert(t@.subrange(i as int, i + pat@.len())[j as int] == t@[i + j]);
            }
            return false;
        }
        j += 1;
    }
    proof {
        assert(t@.subrange(i as int, i + pat@.len()) =~= pat@);
    }
    true
}

/// The position of the first occurrence of `pat` in `t`, if any.
pub fn find_sub(t: &Vec<char>, pat: &Vec<char>) -> (r: Option<usize>)
    requires
        pat@.len() > 0,
    ensures
        match r {
            Some(i) => occurs_at(t@, pat@, i as int) && (forall|j: int|
                0 <= j < i ==> !occurs_at(t@, pat@, j)),
            None => forall|j: int| !occurs_at(t@, pat@, j),
        },
{
    if t.len() < pat.len() {
        return None;
    }
    let end = t.len() - pat.len();
    let mut i: usize = 0;
    while i <= end
        invariant
            end == t@.len() - pat@.len(),
            end < usize::MAX,
            pat@.len() > 0,
            i <= end + 1,
            forall|j: int| 0 <= j < i ==> !occurs_at(t@, pat@, j),
        decreases end - i + 1,
    {
        if matches_at(t, pat, i) {
            return Some(i);
        }
        i += 1;
    }
    None
}

/// All non-overlapping occurrences of `from` in `t`, scanned left to right,
/// replaced by `to`. An empty `from` leaves `t` unchanged.
pub open spec fn replace_all_spec(t: Seq<char>, from: Seq<char>, to: Seq<char>) -> Seq<char>
    decreases t.len(),
{
    if from.len() == 0 {
        t
    } else if t.len() < from.len() {
        t
    } else if t.subrange(0, from.len() as int) == from {
        to + replace_all_spec(t.skip(from.len() as int), from, to)
    } else {
        seq![t[0]] + replace_all_spec(t.skip(1), from, to)
    }
}

/// Replaces every non-overlapping occurrence of `from` in `t` by `to`,
/// scanning left to right.
pub fn replace_all(t: &Vec<char>, from: &Vec<char>, to: &Vec<char>) -> (r: Vec<char>)
    ensures
        r@ == replace_all_spec(t@, from@, to@),
{
    if from.len() == 0 {
        return copy_chars(t);
    }
    let mut out: Vec<char> = Vec::new();
    let mut i: usize = 0;
    proof {
        assert(t@.skip(0) =~= t@);
        assert(out@ + t@ =~= t@);
    }
    while i < t.len()
        invariant
            i <= t@.len(),
            from@.len() > 0,
            replace_all_spec(t@, from@, to@) == out@ + replace_all_spec(
                t@.skip(i as int),
                from@,
                to@,
            ),
        decreases t@.len() - i,
    {
        let ghost pre = t@.skip(i as int);
        if from.len() <= t.len() - i && matches_at(t, from, i) {
            append_chars(&mut out, to);
            proof {
                assert(pre.subrange(0, from@.len() as int) =~= t@.subrange(
                    i as int,
                    i + from@.len(),
                ));
                assert(pre.skip(from@.len() as int) =~= t@.skip(i + from@.len()));
            }
            i += from.len();
        } else {
            out.push(t[i]);
            proof {
                if pre.len() >= from@.len() {
                    assert(pre.subrange(0, from@.len() as int) =~= t@.subrange(
                        i as int,
                        i + from@.len(),
                    ));
                }
                assert(pre.skip(1) =~= t@.skip(i + 1));
                assert(seq![pre[0]] + pre.skip(1) =~= pre);
            }
            i += 1;
        }
    }
    proof {
        assert(t@.skip(t@.len() as int) =~= Seq::<char>::empty());
        assert(out@ + Seq::<char>::empty() =~= out@);
    }
    out
}

/// Whitespace, as trimming understands it: the characters with the Unicode
/// `White_Space` property.
pub open spec fn is_wspace(c: char) -> bool {
    ||| c == '\t'
    ||| c == '\n'
    ||| c == '\u{b}'
    ||| c == '\u{c}'
    ||| c == '\r'
    ||| c == ' '
    ||| c == '\u{85}'
    ||| c == '\u{a0}'
    ||| c == '\u{1680}'
    ||| ('\u{2000}' <= c && c <= '\u{200a}')
    ||| c == '\u{2028}'
    ||| c == '\u{2029}'
    ||| c == '\u{202f}'
    ||| c == '\u{205f}'
    ||| c == '\u{3000}'
}

/// Whether `c` is whitespace.
pub fn wspace_char(c: char) -> (r: bool)
    ensures
        r == is_wspace(c),
{
    c == '\t' || c == '\n' || c == '\u{b}' || c == '\u{c}' || c == '\r' || c == ' ' || c == '\u{85}'
        || c == '\u{a0}' || c == '\u{1680}' || ('\u{2000}' <= c && c <= '\u{200a}') || c
        == '\u{2028}' || c == '\u{2029}' || c == '\u{202f}' || c == '\u{205f}' || c == '\u{3000}'
}

/// `t` without its leading whitespace.
pub open spec fn trim_start_spec(t: Seq<char>) -> Seq<char>
    decreases t.len(),
{
    if t.len() > 0 && is_wspace(t[0]) {
        trim_start_spec(t.skip(1))
    } else {
        t
    }
}

/// `t` without its trailing whitespace.
pub open spec fn trim_end_spec(t: Seq<char>) -> Seq<char>
    decreases t.len(),
{
    if t.len() > 0 && is_wspace(t[t.len() - 1]) {
        trim_end_spec(t.drop_last())
    } else {
        t
    }
}

/// `t` without leading and trailing whitespace.
pub open spec fn trim_spec(t: Seq<char>) -> Seq<char> {
    trim_end_spec(trim_start_spec(t))
}

/// Trims leading and trailing whitespace.
pub fn trim_chars(t: &Vec<char>) -> (r: Vec<char>)
    ensures
        r@ == trim_spec(t@),
{
    let mut lo: usize = 0;
    proof {
        assert(t@.skip(0) =~= t@);
    }
    while lo < t.len() && wspace_char(t[lo])
        invariant
            lo <= t@.len(),
            trim_start_spec(t@) == trim_start_spec(t@.skip(lo as int)),
        decreases t@.len() - lo,
    {
        proof {
            assert(t@.skip(lo as int).skip(1) =~= t@.skip(lo + 1));
        }
        lo += 1;
    }
    proof {
        if lo < t@.len() {
            assert(trim_start_spec(t@.skip(lo as int)) == t@.skip(lo as int));
        } else {
            assert(t@.skip(lo as int) =~= Seq::<char>::empty());
        }
    }
    // From here on, trim_start_spec(t@) == t@.skip(lo).
    let mut hi: usize = t.len();
    proof {
        assert(t@.skip(lo as int) =~= t@.subrange(lo as int, t@.len() as int));
    }
    while hi > lo && wspace_char(t[hi - 1])
        invariant
            lo <= hi <= t@.len(),
            trim_start_spec(t@) == t@.skip(lo as int),
            trim_end_spec(t@.skip(lo as int)) == trim_end_spec(t@.subrange(lo as int, hi as int)),
        decreases hi,
    {
        proof {
            assert(t@.subrange(lo as int, hi as int).drop_last() =~= t@.subrange(
                lo as int,
                hi - 1,
            ));
            assert(t@.subrange(lo as int, hi as int).last() == t@[hi - 1]);
        }
        hi -= 1;
    }
    proof {
        assert(trim_end_spec(t@.subrange(lo as int, hi as int)) == t@.subrange(
            lo as int,
            hi as int,
        ));
    }
    let mut r: Vec<char> = Vec::new();
    let mut i: usize = lo;
    while i < hi
        invariant
            lo <= i <= hi <= t@.len(),
            r@ == t@.subrange(lo as int, i as int),
        decreases hi - i,
    {
        r.push(t[i]);
        i += 1;
        assert(r@ =~= t@.subrange(lo as int, i as int));
    }
    assert(r@ =~= t@.subrange(lo as int, hi as int));
    r
}

/// The decimal digit character for `d`.
pub open spec fn dec_digit(d: int) -> char {
    if d == 0 {
        '0'
    } else if d == 1 {
        '1'
    } else if d == 2 {
        '2'
    } else if d == 3 {
        '3'
    } else if d == 4 {
        '4'
    } else if d == 5 {
        '5'
    } else if d == 6 {
        '6'
    } else if d == 7 {
        '7'
    } else if d == 8 {
        '8'
    } else {
        '9'
    }
}

/// The decimal notation of `n`, without sign and without leading zeros.
pub open spec fn dec_nat_spec(n: nat) -> Seq<char>
    decreases n,
{
    if n < 10 {
        seq![dec_digit(n as int)]
    } else {
        dec_nat_spec(n / 10) + seq![dec_digit((n % 10) as int)]
    }
}

/// The decimal notation of `n`, with a leading minus sign when negative.
pub open spec fn dec_int_spec(n: int) -> Seq<char> {
    if n < 0 {
        seq!['-'] + dec_nat_spec((-n) as nat)
    } else {
        dec_nat_spec(n as nat)
    }
}

/// The digit character for `d`.
pub fn dec_digit_char(d: u64) -> (r: char)
    requires
        d < 10,
    ensures
        r == dec_digit(d as int),
{
    if d == 0 {
        '0'
    } else if d == 1 {
        '1'
    } else if d == 2 {
        '2'
    } else if d == 3 {
        '3'
    } else if d == 4 {
        '4'
    } else if d == 5 {
        '5'
    } else if d == 6 {
        '6'
    } else if d == 7 {
        '7'
    } else if d == 8 {
        '8'
    } else {
        '9'
    }
}

/// The decimal notation of `n`.
pub fn u64_to_dec(n: u64) -> (r: Vec<char>)
    ensures
        r@ == dec_nat_spec(n as nat),
    decreases n,
{
    let mut r: Vec<char> = if n >= 10 {
        u64_to_dec(n / 10)
    } else {
        Vec::new()
    };
    r.push(dec_digit_char(n % 10));
    proof {
        if n < 10 {
            assert(r@ =~= seq![dec_digit(n as int)]);
        } else {
            assert(r@ =~= dec_nat_spec((n / 10) as nat) + seq![dec_digit((n % 10) as int)]);
        }
    }
    r
}

/// The decimal notation of `n`, with a minus sign when negative.
pub fn i64_to_dec(n: i64) -> (r: Vec<char>)
    ensures
        r@ == dec_int_spec(n as int),
{
    if n >= 0 {
        u64_to_dec(n as u64)
    } else {
        let mag: u64 = (-(n as i128)) as u64;
        let mut r: Vec<char> = Vec::new();
        r.push('-');
        let digits = u64_to_dec(mag);
        append_chars(&mut r, &digits);
        proof {
            assert(r@ =~= seq!['-'] + dec_nat_spec((-(n as int)) as nat));
        }
        r
    }
}

/// Whether two character vectors hold the same text.
pub fn chars_eq(a: &Vec<char>, b: &Vec<char>) -> (r: bool)
    ensures
        r == (a@ == b@),
{
    if a.len() != b.len() {
        proof {
            assert(a@.len() != b@.len());
        }
        return false;
    }
    let mut i: usize = 0;
    while i < a.len()
        invariant
            a@.len() == b@.len(),
            i <= a@.len(),
            forall|k: int| 0 <= k < i ==> a@[k] == b@[k],
        decreases a@.len() - i,
    {
        if a[i] != b[i] {
            return false;
        }
        i += 1;
    }
    proof {
        assert(a@ =~= b@);
    }
    true
}

/// Whether the characters of `v` spell exactly the string `s`.
pub fn chars_eq_str(v: &Vec<char>, s: &str) -> (r: bool)
    ensures
        r == (v@ == s@),
{
    let n = s.unicode_len();
    if v.len() != n {
        proof {
            assert(v@.len() != s@.len());
        }
        return false;
    }
    let mut i: usize = 0;
    while i < n
        invariant
            n == s@.len(),
            v@.len() == n,
            i <= n,
            forall|k: int| 0 <= k < i ==> v@[k] == s@[k],
        decreases n - i,
    {
        if v[i] != s.get_char(i) {
            return false;
        }
        i += 1;
    }
    proof {
        assert(v@ =~= s@);
    }
    true
}

} // verus!
