//! Character-level text operations the rule language needs: substring
//! search, lexicographic comparison of names, and splitting a dotted field
//! path into its segments.

use vstd::prelude::*;
use vstd::string::StrSliceExecFns;
use crate::value::path_view;

verus! {

/// Relies on String::push of std, which vstd leaves unspecified: it appends
/// the given character to the end of the string.
#[verifier::external_body]
pub(crate) fn push_char(s: &mut String, c: char)
    ensures
        final(s)@ == old(s)@.push(c),
{
    s.push(c);
}

/// The decimal digit character for `d`.
pub open spec fn dec_digit(d: int) -> char {
    ((d + 48) as u8) as char
}

/// The decimal numeral of `n`, most significant digit first.
pub open spec fn dec_u64(n: nat) -> Seq<char>
    decreases n,
{
    if n < 10 {
        seq![dec_digit(n as int)]
    } else {
        dec_u64(n / 10) + seq![dec_digit((n % 10) as int)]
    }
}

/// The decimal numeral of `n`, a minus sign first when `n` is negative.
pub open spec fn dec_i64(n: int) -> Seq<char> {
    if n < 0 {
        seq!['-'] + dec_u64((-n) as nat)
    } else {
        dec_u64(n as nat)
    }
}

/// Renders `n` in decimal.
pub fn u64_to_string(n: u64) -> (s: String)
    ensures
        s@ == dec_u64(n as nat),
    decreases n,
{
    if n < 10 {
        let mut s = String::new();
        push_char(&mut s, (48u8 + (n as u8)) as char);
        proof {
            assert(s@ =~= seq![dec_digit(n as int)]);
        }
        s
    } else {
        let mut s = u64_to_string(n / 10);
        push_char(&mut s, (48u8 + ((n % 10) as u8)) as char);
        proof {
            assert(s@ =~= dec_u64((n / 10) as nat) + seq![dec_digit((n % 10) as int)]);
            assert((n / 10) as nat == (n as nat) / 10);
            assert((n % 10) as nat == (n as nat) % 10);
        }
        s
    }
}

/// Renders `n` in decimal, sign included.
pub fn i64_to_string(n: i64) -> (s: String)
    ensures
        s@ == dec_i64(n as int),
{
    if n >= 0 {
        u64_to_string(n as u64)
    } else {
        let mag: u64 = if n == i64::MIN {
            9223372036854775808u64
        } else {
            (-n) as u64
        };
        proof {
            assert(mag as nat == (-(n as int)) as nat);
        }
        let mut s = String::new();
        push_char(&mut s, '-');
        let digits = u64_to_string(mag);
        s.append(digits.as_str());
        proof {
            assert(s@ =~= seq!['-'] + dec_u64((-(n as int)) as nat));
        }
        s
    }
}

/// `needle` occurs contiguously somewhere in `hay`.
pub open spec fn contains_seq(hay: Seq<char>, needle: Seq<char>) -> bool {
    exists|k: int|
        0 <= k <= hay.len() - needle.len() && #[trigger] hay.subrange(k, k + needle.len() as int)
            == needle
}

/// Whether `hay` contains `needle` as a contiguous substring.
pub fn str_contains(hay: &str, needle: &str) -> (r: bool)
    ensures
        r == contains_seq(hay@, needle@),
{
    let nh = hay.unicode_len();
    let nn = needle.unicode_len();
    if nn > nh {
        assert(!contains_seq(hay@, needle@));
        return false;
    }
    let mut k: usize = 0;
    while k <= nh - nn
        invariant
            nh == hay@.len(),
            nn == needle@.len(),
            nn <= nh,
            k <= nh - nn + 1,
            forall|m: int|
                0 <= m < k ==> #[trigger] hay@.subrange(m, m + needle@.len() as int) != needle@,
        decreases nh - nn - k + 1,
    {
        let mut j: usize = 0;
        let mut all_eq: bool = true;
        while j < nn
            invariant
                nh == hay@.len(),
                nn == needle@.len(),
                k + nn <= nh,
                j <= nn,
                all_eq == (forall|m: int| 0 <= m < j ==> hay@[k + m] == needle@[m]),
            decreases nn - j,
        {
            if hay.get_char(k + j) != needle.get_char(j) {
                all_eq = false;
                assert(hay@[k + j as int] != needle@[j as int]);
                j = nn;
            } else {
                assert(hay@[k + j as int] == needle@[j as int]);
                j = j + 1;
            }
        }
        if all_eq {
            assert(hay@.subrange(k as int, k + needle@.len() as int) =~= needle@);
            return true;
        }
        assert(hay@.subrange(k as int, k + needle@.len() as int) != needle@) by {
            if hay@.subrange(k as int, k + needle@.len() as int) == needle@ {
                assert(forall|m: int|
                    0 <= m < nn ==> #[trigger] hay@.subrange(k as int, k + needle@.len() as int)[m]
                        == hay@[k + m]);
            }
        }
        k = k + 1;
    }
    assert(forall|m: int|
        0 <= m <= hay@.len() - needle@.len() ==> #[trigger] hay@.subrange(
            m,
            m + needle@.len() as int,
        ) != needle@);
    false
}

/// Lexicographic order on character sequences, by code point; a prefix comes
/// before every extension of it.
pub open spec fn lex_le(a: Seq<char>, b: Seq<char>) -> bool
    decreases a.len(),
{
    if a.len() == 0 {
        true
    } else if b.len() == 0 {
        false
    } else if (a[0] as int) < (b[0] as int) {
        true
    } else if (b[0] as int) < (a[0] as int) {
        false
    } else {
        lex_le(a.drop_first(), b.drop_first())
    }
}

/// Any two sequences are ordered one way or the other.
pub proof fn lemma_lex_le_connected(a: Seq<char>, b: Seq<char>)
    ensures
        lex_le(a, b) || lex_le(b, a),
    decreases a.len(),
{
    if a.len() > 0 && b.len() > 0 && a[0] == b[0] {
        lemma_lex_le_connected(a.drop_first(), b.drop_first());
    }
}

/// Sequences ordered both ways are equal.
pub proof fn lemma_lex_le_antisymmetric(a: Seq<char>, b: Seq<char>)
    requires
        lex_le(a, b),
        lex_le(b, a),
    ensures
        a == b,
    decreases a.len(),
{
    if a.len() == 0 {
        assert(b.len() == 0);
        assert(a =~= b);
    } else {
        assert(b.len() > 0);
        assert(a[0] as int == b[0] as int);
        assert(a[0] == b[0]);
        lemma_lex_le_antisymmetric(a.drop_first(), b.drop_first());
        assert(a.len() == b.len());
        assert forall|i: int| 0 <= i < a.len() implies a[i] == b[i] by {
            if i > 0 {
                assert(a.drop_first()[i - 1] == a[i]);
                assert(b.drop_first()[i - 1] == b[i]);
            }
        }
        assert(a =~= b);
    }
}

/// The order chains: what comes before `b`, which comes before `c`, comes
/// before `c`.
pub proof fn lemma_lex_le_transitive(a: Seq<char>, b: Seq<char>, c: Seq<char>)
    requires
        lex_le(a, b),
        lex_le(b, c),
    ensures
        lex_le(a, c),
    decreases a.len(),
{
    if a.len() > 0 && b.len() > 0 && c.len() > 0 {
        if a[0] == b[0] && b[0] == c[0] {
            lemma_lex_le_transitive(a.drop_first(), b.drop_first(), c.drop_first());
        }
    }
}

/// Compares two string slices in the order of `lex_le`.
pub fn str_le(a: &str, b: &str) -> (r: bool)
    ensures
        r == lex_le(a@, b@),
{
    let na = a.unicode_len();
    let nb = b.unicode_len();
    let mut i: usize = 0;
    proof {
        assert(a@.skip(0) =~= a@);
        assert(b@.skip(0) =~= b@);
    }
    while i < na && i < nb
        invariant
            i <= na,
            i <= nb,
            na == a@.len(),
            nb == b@.len(),
            lex_le(a@, b@) == lex_le(a@.skip(i as int), b@.skip(i as int)),
        decreases na - i,
    {
        let ca = a.get_char(i) as u32;
        let cb = b.get_char(i) as u32;
        proof {
            assert(a@.skip(i as int)[0] == a@[i as int]);
            assert(b@.skip(i as int)[0] == b@[i as int]);
            assert(a@.skip(i as int).drop_first() =~= a@.skip(i + 1));
            assert(b@.skip(i as int).drop_first() =~= b@.skip(i + 1));
        }
        if ca < cb {
            return true;
        }
        if cb < ca {
            return false;
        }
        i = i + 1;
    }
    proof {
        if i >= na {
            assert(a@.skip(i as int).len() == 0);
        } else {
            assert(b@.skip(i as int).len() == 0);
            assert(a@.skip(i as int).len() > 0);
        }
    }
    na <= nb
}

/// Length of the leading path segment: the prefix before the first dot.
pub open spec fn take_seg(s: Seq<char>) -> nat
    decreases s.len(),
{
    if s.len() == 0 || s[0] == '.' {
        0
    } else {
        1 + take_seg(s.drop_first())
    }
}

proof fn lemma_take_seg_le(s: Seq<char>)
    ensures
        take_seg(s) <= s.len(),
    decreases s.len(),
{
    if s.len() == 0 || s[0] == '.' {
    } else {
        lemma_take_seg_le(s.drop_first());
    }
}

proof fn lemma_take_seg_is(s: Seq<char>, k: int)
    requires
        0 <= k <= s.len(),
        forall|m: int| 0 <= m < k ==> s[m] != '.',
        k == s.len() || s[k] == '.',
    ensures
        take_seg(s) == k,
    decreases k,
{
    if k > 0 {
        lemma_take_seg_is(s.drop_first(), k - 1);
    }
}

/// The segments of a dotted path: what stands between the dots, in order.
/// A text without dots is one segment; each dot starts a new segment, so
/// consecutive or trailing dots yield empty segments, which match no field.
pub open spec fn split_path(s: Seq<char>) -> Seq<Seq<char>>
    decreases s.len(),
    via split_path_dec
{
    if take_seg(s) == s.len() {
        seq![s]
    } else {
        seq![s.take(take_seg(s) as int)] + split_path(s.skip(take_seg(s) + 1int))
    }
}

#[via_fn]
proof fn split_path_dec(s: Seq<char>) {
    lemma_take_seg_le(s);
}

/// Splits a dotted field path into its segments.
pub fn split_path_str(s: &str) -> (segs: Vec<String>)
    ensures
        path_view(segs@) == split_path(s@),
{
    let n = s.unicode_len();
    let mut out: Vec<String> = Vec::new();
    let mut i: usize = 0;
    proof {
        assert(s@.skip(0) =~= s@);
        assert(path_view(out@) =~= Seq::<Seq<char>>::empty());
    }
    loop
        invariant
            i <= n,
            n == s@.len(),
            split_path(s@) == path_view(out@) + split_path(s@.skip(i as int)),
        ensures
            path_view(out@) == split_path(s@),
        decreases n - i,
    {
        let ghost pre = out@;
        let mut j: usize = i;
        while j < n
            invariant_except_break
                i <= j <= n,
                n == s@.len(),
                forall|m: int| i <= m < j ==> s@[m] != '.',
            ensures
                i <= j <= n,
                n == s@.len(),
                forall|m: int| i <= m < j ==> s@[m] != '.',
                j == n || s@[j as int] == '.',
            decreases n - j,
        {
            if s.get_char(j) == '.' {
                break ;
            }
            j = j + 1;
        }
        proof {
            let tail = s@.skip(i as int);
            assert forall|m: int| 0 <= m < j - i implies tail[m] != '.' by {
                assert(tail[m] == s@[i + m]);
            }
            if j < n {
                assert(tail[j - i] == s@[j as int]);
            }
            lemma_take_seg_is(tail, j - i);
            assert(tail.take((j - i) as int) =~= s@.subrange(i as int, j as int));
        }
        let w = s.substring_char(i, j);
        out.push(String::from_str(w));
        if j == n {
            proof {
                assert(s@.skip(i as int) =~= s@.subrange(i as int, n as int));
                assert(take_seg(s@.skip(i as int)) == s@.skip(i as int).len());
                assert(split_path(s@.skip(i as int)) =~= seq![s@.skip(i as int)]);
                assert(path_view(out@) =~= path_view(pre) + seq![s@.skip(i as int)]);
            }
            return out;
        }
        proof {
            let tail = s@.skip(i as int);
            assert(take_seg(tail) < tail.len());
            assert(tail.skip((j - i) + 1) =~= s@.skip(j + 1));
            assert(path_view(out@) =~= path_view(pre) + seq![tail.take((j - i) as int)]);
            assert(path_view(out@) + split_path(s@.skip(j + 1)) =~= path_view(pre) + split_path(
                s@.skip(i as int),
            ));
        }
        i = j + 1;
    }
}

} // verus!
