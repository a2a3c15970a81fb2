//! Verified string operations over the character sequence of a string.

use vstd::prelude::*;
use vstd::string::*;

verus! {

/// Whether `needle` occurs in `hay` as a contiguous run of characters.
pub open spec fn is_substring(needle: Seq<char>, hay: Seq<char>) -> bool {
    exists|i: int| 0 <= i <= hay.len() - needle.len() && #[trigger] hay.subrange(i, i + needle.len()) == needle
}

/// Whether `hay` begins with `prefix`.
pub open spec fn is_prefix(prefix: Seq<char>, hay: Seq<char>) -> bool {
    prefix.len() <= hay.len() && hay.subrange(0, prefix.len() as int) == prefix
}

/// The Unicode lowercase mapping of a text.
pub uninterp spec fn lowercase(s: Seq<char>) -> Seq<char>;

/// Calls `str::to_lowercase`, whose result is the Unicode lowercase mapping of
/// its argument, named `lowercase`.
#[verifier::external_body]
pub(crate) fn to_lowercase(s: &str) -> (r: String)
    ensures
        r@ == lowercase(s@),
{
    s.to_lowercase()
}

/// Calls `String::push`, which appends one character.
#[verifier::external_body]
pub(crate) fn push_char(s: &mut String, c: char)
    ensures
        final(s)@ == old(s)@.push(c),
{
    s.push(c)
}

/// The characters of a string, in order.
pub fn chars_of(s: &str) -> (v: Vec<char>)
    ensures
        v@ == s@,
{
    broadcast use axiom_spec_iter;
    let mut v: Vec<char> = Vec::new();
    for c in it: s.chars()
        invariant
            it.seq() == s@,
            v@ == it.seq().take(it.index() as int),
    {
        v.push(c);
    }
    v
}

/// The string made of `v[lo..hi]`.
pub fn string_from_chars(v: &Vec<char>, lo: usize, hi: usize) -> (s: String)
    requires
        lo <= hi <= v@.len(),
    ensures
        s@ == v@.subrange(lo as int, hi as int),
{
    let mut s = String::new();
    let mut i = lo;
    while i < hi
        invariant
            lo <= i <= hi <= v@.len(),
            s@ == v@.subrange(lo as int, i as int),
        decreases hi - i,
    {
        push_char(&mut s, v[i]);
        i += 1;
        assert(s@ =~= v@.subrange(lo as int, i as int));
    }
    s
}

/// Whether `needle` occurs in `hay` starting at position `i`.
fn matches_at(hay: &Vec<char>, needle: &Vec<char>, i: usize) -> (r: bool)
    requires
        i <= hay@.len(),
    ensures
        r == is_prefix(needle@, hay@.skip(i as int)),
        r == (i + needle@.len() <= hay@.len() && hay@.subrange(i as int, i + needle@.len()) == needle@),
{
    if needle.len() > hay.len() - i {
        return false;
    }
    let n = needle.len();
    let h = hay.len();
    let mut k: usize = 0;
    while k < n
        invariant
            n == needle@.len(),
            h == hay@.len(),
            i + needle@.len() <= hay@.len(),
            k <= needle@.len(),
            forall|j: int| 0 <= j < k ==> hay@[i + j] == needle@[j],
        decreases needle@.len() - k,
    {
        if hay[i + k] != needle[k] {
            assert(hay@.subrange(i as int, i + needle@.len())[k as int] != needle@[k as int]);
            assert(hay@.skip(i as int).subrange(0, needle@.len() as int)[k as int] != needle@[k as int]);
            return false;
        }
        k += 1;
    }
    assert(hay@.subrange(i as int, i + needle@.len()) =~= needle@);
    assert(hay@.skip(i as int).subrange(0, needle@.len() as int) =~= needle@);
    true
}

/// Whether two strings hold the same characters.
pub fn str_eq(a: &str, b: &str) -> (r: bool)
    ensures
        r == (a@ == b@),
{
    let av = chars_of(a);
    let bv = chars_of(b);
    if av.len() != bv.len() {
        return false;
    }
    let r = matches_at(&av, &bv, 0);
    assert(av@.subrange(0, bv@.len() as int) =~= av@);
    r
}

/// Whether `hay` begins with `prefix`.
pub fn starts_with(hay: &str, prefix: &str) -> (r: bool)
    ensures
        r == is_prefix(prefix@, hay@),
{
    let hv = chars_of(hay);
    let pv = chars_of(prefix);
    let r = matches_at(&hv, &pv, 0);
    assert(hv@.skip(0) =~= hv@);
    r
}

/// `s` without `prefix`, when `s` begins with it.
pub fn strip_prefix(s: &str, prefix: &str) -> (r: Option<String>)
    ensures
        match r {
            Some(rest) => is_prefix(prefix@, s@) && rest@ == s@.skip(prefix@.len() as int),
            None => !is_prefix(prefix@, s@),
        },
{
    let sv = chars_of(s);
    let pv = chars_of(prefix);
    assert(sv@.skip(0) =~= sv@);
    if matches_at(&sv, &pv, 0) {
        let rest = string_from_chars(&sv, pv.len(), sv.len());
        assert(rest@ =~= s@.skip(prefix@.len() as int));
        Some(rest)
    } else {
        None
    }
}

/// Whether `needle` occurs in `hay`.
pub fn contains(hay: &str, needle: &str) -> (r: bool)
    ensures
        r == is_substring(needle@, hay@),
{
    let hv = chars_of(hay);
    let nv = chars_of(needle);
    if nv.len() > hv.len() {
        return false;
    }
    let last = hv.len() - nv.len();
    let mut i: usize = 0;
    while i <= last
        invariant
            last == hv@.len() - nv@.len(),
            hv@ == hay@,
            nv@ == needle@,
            i <= last + 1,
            forall|j: int| 0 <= j < i ==> #[trigger] hv@.subrange(j, j + nv@.len()) != nv@,
        decreases last + 1 - i,
    {
        if matches_at(&hv, &nv, i) {
            assert(hv@.subrange(i as int, i + nv@.len()) == nv@);
            return true;
        }
        if i == last {
            return false;
        }
        i += 1;
    }
    false
}

/// `s` with every occurrence of `pat` replaced by `rep`, scanning from the
/// left and never overlapping two occurrences.
pub open spec fn replace_spec(s: Seq<char>, pat: Seq<char>, rep: Seq<char>) -> Seq<char>
    decreases s.len(),
{
    if s.len() == 0 {
        s
    } else if pat.len() > 0 && is_prefix(pat, s) {
        rep + replace_spec(s.skip(pat.len() as int), pat, rep)
    } else {
        seq![s[0]] + replace_spec(s.skip(1), pat, rep)
    }
}

/// Replaces every occurrence of a non-empty `pat` in `s` with `rep`.
pub fn replace_all(s: &str, pat: &str, rep: &str) -> (r: String)
    requires
        pat@.len() > 0,
    ensures
        r@ == replace_spec(s@, pat@, rep@),
{
    let sv = chars_of(s);
    let pv = chars_of(pat);
    let mut out = String::new();
    let mut i: usize = 0;
    assert(sv@.skip(0) =~= sv@);
    while i < sv.len()
        invariant
            i <= sv@.len(),
            sv@ == s@,
            pv@ == pat@,
            pv@.len() > 0,
            out@ + replace_spec(sv@.skip(i as int), pv@, rep@) == replace_spec(s@, pat@, rep@),
        decreases sv@.len() - i,
    {
        let ghost rest = sv@.skip(i as int);
        if matches_at(&sv, &pv, i) {
            assert(rest.skip(pv@.len() as int) =~= sv@.skip(i + pv@.len()));
            out.append(rep);
            i += pv.len();
            assert(out@ + replace_spec(sv@.skip(i as int), pv@, rep@) =~= replace_spec(s@, pat@, rep@));
        } else {
            assert(rest.skip(1) =~= sv@.skip(i + 1));
            assert(rest[0] == sv@[i as int]);
            push_char(&mut out, sv[i]);
            i += 1;
            assert(out@ + replace_spec(sv@.skip(i as int), pv@, rep@) =~= replace_spec(s@, pat@, rep@));
        }
    }
    assert(sv@.skip(i as int) =~= Seq::<char>::empty());
    assert(out@ + replace_spec(sv@.skip(i as int), pv@, rep@) =~= out@);
    out
}

// ─── fields, trimming, numbers ─────────────────────────────────────────────

/// The characters of `s` before its first `sep` (all of `s` when there is
/// none).
pub open spec fn first_field(s: Seq<char>, sep: char) -> Seq<char>
    decreases s.len(),
{
    if s.len() == 0 || s[0] == sep {
        Seq::empty()
    } else {
        seq![s[0]] + first_field(s.skip(1), sep)
    }
}

/// The first `sep`-separated field of `s`.
pub fn split_first(s: &str, sep: char) -> (r: String)
    ensures
        r@ == first_field(s@, sep),
{
    let v = chars_of(s);
    let n = v.len();
    let mut k: usize = 0;
    assert(v@.skip(0) =~= v@);
    assert(v@.take(0) =~= Seq::<char>::empty());
    while k < n && v[k] != sep
        invariant
            n == v@.len(),
            v@ == s@,
            k <= n,
            first_field(s@, sep) == v@.take(k as int) + first_field(v@.skip(k as int), sep),
        decreases n - k,
    {
        let ghost rest = v@.skip(k as int);
        assert(rest.skip(1) =~= v@.skip(k + 1));
        assert(v@.take(k + 1) =~= v@.take(k as int) + seq![rest[0]]);
        k += 1;
    }
    assert(first_field(v@.skip(k as int), sep) =~= Seq::<char>::empty());
    string_from_chars(&v, 0, k)
}

/// `c` is a white-space character (the Unicode `White_Space` property, as
/// `char::is_whitespace` tests it).
pub open spec fn is_white(c: char) -> bool {
    ||| '\t' <= c <= '\r'
    ||| c == ' '
    ||| c == '\u{85}'
    ||| c == '\u{a0}'
    ||| c == '\u{1680}'
    ||| '\u{2000}' <= c <= '\u{200a}'
    ||| c == '\u{2028}'
    ||| c == '\u{2029}'
    ||| c == '\u{202f}'
    ||| c == '\u{205f}'
    ||| c == '\u{3000}'
}

fn is_white_exec(c: char) -> (r: bool)
    ensures
        r == is_white(c),
{
    ('\t' <= c && c <= '\r') || c == ' ' || c == '\u{85}' || c == '\u{a0}' || c == '\u{1680}'
        || ('\u{2000}' <= c && c <= '\u{200a}') || c == '\u{2028}' || c == '\u{2029}'
        || c == '\u{202f}' || c == '\u{205f}' || c == '\u{3000}'
}

/// `s` without its leading white space.
pub open spec fn trim_start_spec(s: Seq<char>) -> Seq<char>
    decreases s.len(),
{
    if s.len() > 0 && is_white(s[0]) {
        trim_start_spec(s.skip(1))
    } else {
        s
    }
}

/// `s` without its trailing white space.
pub open spec fn trim_end_spec(s: Seq<char>) -> Seq<char>
    decreases s.len(),
{
    if s.len() > 0 && is_white(s.last()) {
        trim_end_spec(s.drop_last())
    } else {
        s
    }
}

/// `s` without leading and trailing white space.
pub open spec fn trim_spec(s: Seq<char>) -> Seq<char> {
    trim_end_spec(trim_start_spec(s))
}

/// `s` without leading and trailing white space.
pub fn trim(s: &str) -> (r: String)
    ensures
        r@ == trim_spec(s@),
{
    let v = chars_of(s);
    let n = v.len();
    let mut lo: usize = 0;
    assert(v@.skip(0) =~= v@);
    while lo < n && is_white_exec(v[lo])
        invariant
            n == v@.len(),
            v@ == s@,
            lo <= n,
            trim_start_spec(s@) == trim_start_spec(v@.skip(lo as int)),
        decreases n - lo,
    {
        assert(v@.skip(lo as int).skip(1) =~= v@.skip(lo + 1));
        lo += 1;
    }
    assert(trim_start_spec(s@) == v@.skip(lo as int));
    let mut hi: usize = n;
    assert(v@.skip(lo as int) =~= v@.subrange(lo as int, n as int));
    while hi > lo && is_white_exec(v[hi - 1])
        invariant
            n == v@.len(),
            v@ == s@,
            lo <= hi <= n,
            trim_spec(s@) == trim_end_spec(v@.subrange(lo as int, hi as int)),
        decreases hi - lo,
    {
        assert(v@.subrange(lo as int, hi as int).drop_last() =~= v@.subrange(lo as int, hi - 1));
        hi -= 1;
    }
    string_from_chars(&v, lo, hi)
}

/// The decimal digit for a value below 10.
pub open spec fn digit_char(d: int) -> char {
    (d + 48) as char
}

/// The decimal digits of a number, most significant first, without leading
/// zeros.
pub open spec fn decimal(n: nat) -> Seq<char>
    decreases n,
{
    if n < 10 {
        seq![digit_char(n as int)]
    } else {
        decimal(n / 10).push(digit_char((n % 10) as int))
    }
}

/// Whether a character is a decimal digit.
pub open spec fn is_digit(c: char) -> bool {
    '0' <= c <= '9'
}

/// The number that a text of decimal digits denotes: the sum of its digit
/// values times powers of ten.
pub open spec fn digits_value(s: Seq<char>) -> int
    decreases s.len(),
{
    if s.len() == 0 {
        0
    } else {
        digits_value(s.drop_last()) * 10 + (s.last() as int - 48)
    }
}

/// The decimal text of a number is made of digits, denotes the number, and
/// has no leading zero unless the number is 0.
pub proof fn lemma_decimal_denotes(n: nat)
    ensures
        decimal(n).len() > 0,
        forall|i: int| 0 <= i < decimal(n).len() ==> is_digit(#[trigger] decimal(n)[i]),
        digits_value(decimal(n)) == n,
        decimal(n)[0] == '0' ==> n == 0,
    decreases n,
{
    if n < 10 {
        let d = decimal(n);
        assert(d.drop_last() =~= Seq::<char>::empty());
        assert(digits_value(d.drop_last()) == 0);
        assert(d.last() as int == n + 48);
    } else {
        lemma_decimal_denotes(n / 10);
        let d = decimal(n);
        assert(d.drop_last() =~= decimal(n / 10));
        assert(d.last() as int == n % 10 + 48);
        assert(n == (n / 10) * 10 + n % 10) by (nonlinear_arith);
        assert(digits_value(d) == digits_value(decimal(n / 10)) * 10 + (n % 10));
        assert(d[0] == decimal(n / 10)[0]);
        assert forall|i: int| 0 <= i < d.len() implies is_digit(#[trigger] d[i]) by {
            if i < d.len() - 1 {
                assert(d[i] == decimal(n / 10)[i]);
            }
        }
    }
}

/// A number written in decimal, left-padded with zeros to `width` characters.
pub open spec fn zero_padded(n: nat, width: nat) -> Seq<char> {
    let d = decimal(n);
    if d.len() < width {
        Seq::new((width - d.len()) as nat, |i: int| '0') + d
    } else {
        d
    }
}

/// The decimal text of a number below 10, 100, 1000 or 10000 has at most
/// 1, 2, 3 or 4 digits.
pub proof fn lemma_decimal_len(n: nat)
    ensures
        decimal(n).len() >= 1,
        n < 10 ==> decimal(n).len() == 1,
        n < 100 ==> decimal(n).len() <= 2,
        n < 1000 ==> decimal(n).len() <= 3,
        n < 10000 ==> decimal(n).len() <= 4,
    decreases n,
{
    if n >= 10 {
        lemma_decimal_len(n / 10);
    }
}

/// Zeros denote 0.
proof fn lemma_zeros_value(k: nat)
    ensures
        digits_value(Seq::new(k, |i: int| '0')) == 0,
    decreases k,
{
    let z = Seq::new(k, |i: int| '0');
    if k > 0 {
        lemma_zeros_value((k - 1) as nat);
        assert(z.drop_last() =~= Seq::new((k - 1) as nat, |i: int| '0'));
    }
}

/// Leading zeros do not change the number a text denotes.
proof fn lemma_leading_zeros_value(k: nat, d: Seq<char>)
    ensures
        digits_value(Seq::new(k, |i: int| '0') + d) == digits_value(d),
    decreases d.len(),
{
    let z = Seq::new(k, |i: int| '0');
    if d.len() == 0 {
        assert(z + d =~= z);
        lemma_zeros_value(k);
    } else {
        lemma_leading_zeros_value(k, d.drop_last());
        assert((z + d).drop_last() =~= z + d.drop_last());
        assert((z + d).last() == d.last());
    }
}

/// A zero-padded number is made of digits, denotes the number, and is as
/// long as the width or as the number's own decimal text, whichever is
/// longer.
pub proof fn lemma_zero_padded_denotes(n: nat, width: nat)
    ensures
        zero_padded(n, width).len() == (if decimal(n).len() < width { width } else { decimal(n).len() }),
        forall|i: int| 0 <= i < zero_padded(n, width).len() ==> is_digit(#[trigger] zero_padded(n, width)[i]),
        digits_value(zero_padded(n, width)) == n,
{
    lemma_decimal_denotes(n);
    let d = decimal(n);
    if d.len() < width {
        let k = (width - d.len()) as nat;
        lemma_leading_zeros_value(k, d);
        let z = Seq::new(k, |i: int| '0');
        assert forall|i: int| 0 <= i < (z + d).len() implies is_digit(#[trigger] (z + d)[i]) by {
            if i >= k {
                assert((z + d)[i] == d[i - k]);
            }
        }
    }
}

fn decimal_chars(n: u32) -> (v: Vec<char>)
    ensures
        v@ == decimal(n as nat),
    decreases n,
{
    let d = (n % 10) as u8;
    let c = (48u8 + d) as char;
    if n < 10 {
        let mut v: Vec<char> = Vec::new();
        v.push(c);
        v
    } else {
        let mut v = decimal_chars(n / 10);
        v.push(c);
        v
    }
}

/// `n` in decimal, left-padded with zeros to `width` characters.
pub fn zero_pad(n: u32, width: usize) -> (s: String)
    ensures
        s@ == zero_padded(n as nat, width as nat),
{
    let digits = decimal_chars(n);
    let mut s = String::new();
    let mut k: usize = digits.len();
    assert(s@ =~= Seq::new((k - digits@.len()) as nat, |i: int| '0'));
    while k < width
        invariant
            digits.len() <= k,
            digits.len() >= width ==> k == digits.len(),
            digits.len() < width ==> k <= width,
            s@ == Seq::new((k - digits@.len()) as nat, |i: int| '0'),
        decreases width - k,
    {
        push_char(&mut s, '0');
        k += 1;
        assert(s@ =~= Seq::new((k - digits@.len()) as nat, |i: int| '0'));
    }
    let tail = string_from_chars(&digits, 0, digits.len());
    assert(digits@.subrange(0, digits@.len() as int) =~= digits@);
    let ghost pad = s@;
    s.append(tail.as_str());
    assert(s@ == pad + digits@);
    if digits.len() >= width {
        assert(pad =~= Seq::<char>::empty());
        assert(s@ =~= digits@);
    } else {
        assert(k == width);
    }
    s
}

/// Replacing in `x + y` is replacing in `x` and then in `y`, when no
/// occurrence of `pat` that starts in `x` runs past its end.
pub proof fn lemma_replace_concat(x: Seq<char>, y: Seq<char>, pat: Seq<char>, rep: Seq<char>)
    requires
        pat.len() > 0,
        forall|i: int| 0 <= i < x.len() && #[trigger] is_prefix(pat, (x + y).skip(i)) ==> i + pat.len() <= x.len(),
    ensures
        replace_spec(x + y, pat, rep) == replace_spec(x, pat, rep) + replace_spec(y, pat, rep),
    decreases x.len(),
{
    let s = x + y;
    if x.len() == 0 {
        assert(s =~= y);
        assert(replace_spec(x, pat, rep) =~= Seq::<char>::empty());
        assert(replace_spec(x, pat, rep) + replace_spec(y, pat, rep) =~= replace_spec(y, pat, rep));
    } else {
        assert(s.skip(0) =~= s);
        if is_prefix(pat, s) {
            let n = pat.len() as int;
            assert(x.subrange(0, n) =~= s.subrange(0, n));
            let x2 = x.skip(n);
            assert(s.skip(n) =~= x2 + y);
            assert forall|i: int| 0 <= i < x2.len() && #[trigger] is_prefix(pat, (x2 + y).skip(i))
                implies i + pat.len() <= x2.len() by {
                assert((x + y).skip(i + n) =~= (x2 + y).skip(i));
            }
            lemma_replace_concat(x2, y, pat, rep);
            assert(replace_spec(s, pat, rep) =~= rep + replace_spec(x2 + y, pat, rep));
        } else {
            if is_prefix(pat, x) {
                assert(s.subrange(0, pat.len() as int) =~= x.subrange(0, pat.len() as int));
            }
            let x2 = x.skip(1);
            assert(s.skip(1) =~= x2 + y);
            assert forall|i: int| 0 <= i < x2.len() && #[trigger] is_prefix(pat, (x2 + y).skip(i))
                implies i + pat.len() <= x2.len() by {
                assert((x + y).skip(i + 1) =~= (x2 + y).skip(i));
            }
            lemma_replace_concat(x2, y, pat, rep);
            assert(s[0] == x[0]);
        }
    }
}

/// Replacing changes nothing where `pat` does not occur.
pub proof fn lemma_replace_absent(s: Seq<char>, pat: Seq<char>, rep: Seq<char>)
    requires
        pat.len() > 0,
        forall|i: int| 0 <= i < s.len() ==> !is_prefix(pat, #[trigger] s.skip(i)),
    ensures
        replace_spec(s, pat, rep) == s,
    decreases s.len(),
{
    if s.len() > 0 {
        assert(s.skip(0) =~= s);
        let s2 = s.skip(1);
        assert forall|i: int| 0 <= i < s2.len() implies !is_prefix(pat, #[trigger] s2.skip(i)) by {
            assert(s.skip(i + 1) =~= s2.skip(i));
        }
        lemma_replace_absent(s2, pat, rep);
        assert(seq![s[0]] + s2 =~= s);
    }
}

/// Replacing a pattern in the pattern itself gives the replacement.
pub proof fn lemma_replace_whole(pat: Seq<char>, rep: Seq<char>)
    requires
        pat.len() > 0,
    ensures
        replace_spec(pat, pat, rep) == rep,
{
    assert(pat.subrange(0, pat.len() as int) =~= pat);
    assert(pat.skip(pat.len() as int) =~= Seq::<char>::empty());
    assert(replace_spec(pat.skip(pat.len() as int), pat, rep) =~= Seq::<char>::empty());
    assert(rep + Seq::<char>::empty() =~= rep);
}

} // verus!
