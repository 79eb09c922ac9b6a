use vstd::prelude::*;
use vstd::string::*;

verus! {

// ---------------------------------------------------------------------------
// Text: whitespace, trimming, finding characters, unsigned numbers.
// ---------------------------------------------------------------------------

/// Unicode White_Space, as `char::is_whitespace` and `str::trim` use it.
pub open spec fn is_ws(c: char) -> bool {
    ||| c == '\t' || c == '\n' || c == '\u{0B}' || c == '\u{0C}' || c == '\r' || c == ' '
    ||| c == '\u{85}' || c == '\u{A0}' || c == '\u{1680}'
    ||| ('\u{2000}' <= c && c <= '\u{200A}')
    ||| c == '\u{2028}' || c == '\u{2029}' || c == '\u{202F}' || c == '\u{205F}' || c == '\u{3000}'
}

pub(crate) fn char_is_ws(c: char) -> (b: bool)
    ensures
        b == is_ws(c),
{
    c == '\t' || c == '\n' || c == '\u{0B}' || c == '\u{0C}' || c == '\r' || c == ' '
        || c == '\u{85}' || c == '\u{A0}' || c == '\u{1680}' || ('\u{2000}' <= c && c <= '\u{200A}')
        || c == '\u{2028}' || c == '\u{2029}' || c == '\u{202F}' || c == '\u{205F}' || c
        == '\u{3000}'
}

/// The first index at or after `i` that holds no whitespace (or `s.len()`).
pub open spec fn skip_ws(s: Seq<char>, i: int) -> int
    decreases s.len() - i,
{
    if 0 <= i < s.len() && is_ws(s[i]) {
        skip_ws(s, i + 1)
    } else {
        i
    }
}

/// Going back from `j`, the end of the text after trailing whitespace, not
/// below `lo`.
pub open spec fn back_ws(s: Seq<char>, j: int, lo: int) -> int
    decreases j,
{
    if 0 <= lo < j <= s.len() && is_ws(s[j - 1]) {
        back_ws(s, j - 1, lo)
    } else {
        j
    }
}

/// `s` without leading and trailing whitespace, as `str::trim` gives it.
pub open spec fn trim(s: Seq<char>) -> Seq<char> {
    let i = skip_ws(s, 0);
    s.subrange(i, back_ws(s, s.len() as int, i))
}

pub(crate) fn trim_chars(s: &[char]) -> (t: Vec<char>)
    ensures
        t@ == trim(s@),
{
    let n = s.len();
    let mut i: usize = 0;
    while i < n && char_is_ws(s[i])
        invariant
            i <= n == s@.len(),
            skip_ws(s@, 0) == skip_ws(s@, i as int),
        decreases n - i,
    {
        i = i + 1;
    }
    let mut j: usize = n;
    while j > i && char_is_ws(s[j - 1])
        invariant
            i <= j <= n == s@.len(),
            skip_ws(s@, 0) == i,
            back_ws(s@, n as int, i as int) == back_ws(s@, j as int, i as int),
        decreases j,
    {
        j = j - 1;
    }
    let mut t: Vec<char> = Vec::new();
    let mut k: usize = i;
    while k < j
        invariant
            i <= k <= j <= n == s@.len(),
            t@ == s@.subrange(i as int, k as int),
        decreases j - k,
    {
        t.push(s[k]);
        k = k + 1;
        assert(t@ == s@.subrange(i as int, k as int));
    }
    t
}

/// The first index at or after `i` holding `c` (or `s.len()`).
pub open spec fn find_from(s: Seq<char>, c: char, i: int) -> int
    decreases s.len() - i,
{
    if i < 0 || i >= s.len() {
        s.len() as int
    } else if s[i] == c {
        i
    } else {
        find_from(s, c, i + 1)
    }
}

pub(crate) proof fn lemma_find_from(s: Seq<char>, c: char, i: int)
    requires
        0 <= i <= s.len(),
    ensures
        i <= find_from(s, c, i) <= s.len(),
        find_from(s, c, i) < s.len() ==> s[find_from(s, c, i)] == c,
        forall|k: int| i <= k < find_from(s, c, i) ==> s[k] != c,
    decreases s.len() - i,
{
    if i < s.len() && s[i] != c {
        lemma_find_from(s, c, i + 1);
    }
}

pub(crate) fn find_char_from(s: &[char], c: char, i: usize) -> (r: usize)
    requires
        i <= s@.len(),
    ensures
        r == find_from(s@, c, i as int),
{
    let mut k = i;
    while k < s.len() && s[k] != c
        invariant
            i <= k <= s@.len(),
            find_from(s@, c, i as int) == find_from(s@, c, k as int),
        decreases s@.len() - k,
    {
        k = k + 1;
    }
    k
}

/// The three fields of `s` split at ',', where it has exactly two commas.

pub open spec fn is_digit(c: char) -> bool {
    '0' <= c && c <= '9'
}

pub open spec fn digit_value(c: char) -> int {
    c as int - '0' as int
}

/// The number the decimal digits `s` write.
pub open spec fn digits_value(s: Seq<char>) -> int
    decreases s.len(),
{
    if s.len() == 0 {
        0
    } else {
        digits_value(s.drop_last()) * 10 + digit_value(s.last())
    }
}

pub open spec fn all_digits(s: Seq<char>) -> bool {
    forall|k: int| 0 <= k < s.len() ==> is_digit(#[trigger] s[k])
}

/// What `u32::from_str` makes of `s`: an optional '+' (not alone), then one
/// or more decimal digits whose value fits in 32 bits.
pub open spec fn parse_u32(s: Seq<char>) -> Option<u32> {
    let d = if s.len() > 1 && s[0] == '+' {
        s.drop_first()
    } else {
        s
    };
    if d.len() > 0 && all_digits(d) && digits_value(d) <= u32::MAX {
        Some(digits_value(d) as u32)
    } else {
        None
    }
}

pub(crate) proof fn lemma_digits_nonneg(d: Seq<char>)
    requires
        all_digits(d),
    ensures
        0 <= digits_value(d),
    decreases d.len(),
{
    if d.len() > 0 {
        assert(all_digits(d.drop_last()));
        lemma_digits_nonneg(d.drop_last());
        assert(is_digit(d[d.len() - 1]));
    }
}

pub(crate) proof fn lemma_digits_monotone(d: Seq<char>, i: int)
    requires
        0 <= i <= d.len(),
        all_digits(d),
    ensures
        digits_value(d.take(i)) <= digits_value(d),
        0 <= digits_value(d.take(i)),
    decreases d.len() - i,
{
    assert(all_digits(d.take(i)));
    lemma_digits_nonneg(d.take(i));
    if i < d.len() {
        lemma_digits_monotone(d, i + 1);
        assert(d.take(i + 1).drop_last() =~= d.take(i));
        assert(is_digit(d[i]));
    } else {
        assert(d.take(i) =~= d);
    }
}

pub(crate) fn parse_u32_chars(s: &[char]) -> (r: Option<u32>)
    ensures
        r == parse_u32(s@),
{
    let n = s.len();
    let start: usize = if n > 1 && s[0] == '+' { 1 } else { 0 };
    let ghost d = if s@.len() > 1 && s@[0] == '+' { s@.drop_first() } else { s@ };
    assert(d =~= s@.subrange(start as int, n as int));
    if start >= n {
        return None;
    }
    let mut acc: u32 = 0;
    let mut k: usize = start;
    while k < n
        invariant
            start <= k <= n == s@.len(),
            start < n,
            d == s@.subrange(start as int, n as int),
            d == (if s@.len() > 1 && s@[0] == '+' { s@.drop_first() } else { s@ }),
            all_digits(d.take(k - start)),
            acc == digits_value(d.take(k - start)),
        decreases n - k,
    {
        let c = s[k];
        assert(d[k - start] == c);
        if !('0' <= c && c <= '9') {
            assert(!is_digit(d[k - start]));
            assert(!all_digits(d));
            return None;
        }
        let v: u32 = (c as u32) - ('0' as u32);
        assert(d.take(k + 1 - start).drop_last() =~= d.take(k - start));
        assert(all_digits(d.take(k + 1 - start)));
        if acc > 429496729 || (acc == 429496729 && v > 5) {
            proof {
                if all_digits(d) {
                    lemma_digits_monotone(d, k + 1 - start);
                    assert(digits_value(d) > u32::MAX);
                }
            }
            return None;
        }
        acc = acc * 10 + v;
        k = k + 1;
    }
    assert(d.take(n - start) =~= d);
    Some(acc)
}

/// `s[a..b]` as a vector of its own.
pub(crate) fn sub_chars(s: &[char], a: usize, b: usize) -> (v: Vec<char>)
    requires
        a <= b <= s@.len(),
    ensures
        v@ == s@.subrange(a as int, b as int),
{
    let mut v: Vec<char> = Vec::new();
    let mut k: usize = a;
    while k < b
        invariant
            a <= k <= b <= s@.len(),
            v@ == s@.subrange(a as int, k as int),
        decreases b - k,
    {
        v.push(s[k]);
        k = k + 1;
        assert(v@ == s@.subrange(a as int, k as int));
    }
    v
}

/// The characters of `s`, in order.
pub(crate) fn chars_of(s: &str) -> (v: Vec<char>)
    ensures
        v@ == s@,
{
    let n = s.unicode_len();
    let mut v: Vec<char> = Vec::new();
    let mut i: usize = 0;
    while i < n
        invariant
            i <= n == s@.len(),
            v@ == s@.take(i as int),
        decreases n - i,
    {
        v.push(s.get_char(i));
        i = i + 1;
        assert(v@ =~= s@.take(i as int));
    }
    assert(v@ =~= s@);
    v
}

// ---------------------------------------------------------------------------
// Decimal text.
// ---------------------------------------------------------------------------

pub open spec fn digit_char(d: int) -> char {
    seq!['0', '1', '2', '3', '4', '5', '6', '7', '8', '9'][d]
}

/// `n` written in decimal, without leading zeros.
pub open spec fn decimal(n: nat) -> Seq<char>
    decreases n,
{
    if n < 10 {
        seq![digit_char(n as int)]
    } else {
        decimal(n / 10).push(digit_char((n % 10) as int))
    }
}

pub(crate) fn digit_text(d: u32) -> (t: &'static str)
    requires
        d < 10,
    ensures
        t@ == seq![digit_char(d as int)],
{
    match d {
        0 => {
            proof {
                reveal_strlit("0");
            }
            assert("0"@ =~= seq![digit_char(0)]);
            "0"
        },
        1 => {
            proof {
                reveal_strlit("1");
            }
            assert("1"@ =~= seq![digit_char(1)]);
            "1"
        },
        2 => {
            proof {
                reveal_strlit("2");
            }
            assert("2"@ =~= seq![digit_char(2)]);
            "2"
        },
        3 => {
            proof {
                reveal_strlit("3");
            }
            assert("3"@ =~= seq![digit_char(3)]);
            "3"
        },
        4 => {
            proof {
                reveal_strlit("4");
            }
            assert("4"@ =~= seq![digit_char(4)]);
            "4"
        },
        5 => {
            proof {
                reveal_strlit("5");
            }
            assert("5"@ =~= seq![digit_char(5)]);
            "5"
        },
        6 => {
            proof {
                reveal_strlit("6");
            }
            assert("6"@ =~= seq![digit_char(6)]);
            "6"
        },
        7 => {
            proof {
                reveal_strlit("7");
            }
            assert("7"@ =~= seq![digit_char(7)]);
            "7"
        },
        8 => {
            proof {
                reveal_strlit("8");
            }
            assert("8"@ =~= seq![digit_char(8)]);
            "8"
        },
        _ => {
            proof {
                reveal_strlit("9");
            }
            assert("9"@ =~= seq![digit_char(9)]);
            "9"
        },
    }
}

/// Appends `n` in decimal to `out`.
pub(crate) fn push_decimal(out: &mut String, n: u32)
    ensures
        final(out)@ == old(out)@ + decimal(n as nat),
    decreases n,
{
    if n >= 10 {
        push_decimal(out, n / 10);
    }
    out.append(digit_text(n % 10));
    assert(out@ =~= old(out)@ + decimal(n as nat));
}


pub(crate) proof fn lemma_digit_char(d: int)
    requires
        0 <= d < 10,
    ensures
        is_digit(digit_char(d)),
        digit_value(digit_char(d)) == d,
        d >= 1 ==> digit_char(d) != '0',
{
    let t = seq!['0', '1', '2', '3', '4', '5', '6', '7', '8', '9'];
    assert(t[0] == '0' && t[1] == '1' && t[2] == '2' && t[3] == '3' && t[4] == '4');
    assert(t[5] == '5' && t[6] == '6' && t[7] == '7' && t[8] == '8' && t[9] == '9');
}

/// `decimal(n)` is a run of digits worth `n`, with no leading zero, one
/// digit long below 10, two below 100, three below 1000.
pub(crate) proof fn lemma_decimal(n: nat)
    ensures
        all_digits(decimal(n)),
        digits_value(decimal(n)) == n,
        decimal(n).len() >= 1,
        n >= 1 ==> decimal(n)[0] != '0',
        n < 10 ==> decimal(n).len() == 1,
        n < 100 ==> decimal(n).len() <= 2,
        n < 1000 ==> decimal(n).len() <= 3,
    decreases n,
{
    if n < 10 {
        lemma_digit_char(n as int);
        let s = decimal(n);
        assert(s.drop_last() =~= Seq::<char>::empty());
        assert(digits_value(s.drop_last()) == 0);
        assert(s.last() == digit_char(n as int));
        assert(digits_value(s) == digits_value(s.drop_last()) * 10 + digit_value(s.last()));
    } else {
        lemma_decimal(n / 10);
        lemma_digit_char((n % 10) as int);
        let s = decimal(n);
        assert(s.drop_last() =~= decimal(n / 10));
        assert(s.last() == digit_char((n % 10) as int));
        assert(digits_value(s) == digits_value(decimal(n / 10)) * 10 + digit_value(s.last()));
        assert(n == (n / 10) * 10 + n % 10);
        assert(s[0] == decimal(n / 10)[0]);
        assert forall|k: int| 0 <= k < s.len() implies is_digit(#[trigger] s[k]) by {
            if k < s.len() - 1 {
                assert(s[k] == decimal(n / 10)[k]);
            }
        }
    }
}

/// `u32::from_str` reads back what `decimal` writes.
pub(crate) proof fn lemma_parse_decimal(n: u32)
    ensures
        parse_u32(decimal(n as nat)) == Some(n),
{
    lemma_decimal(n as nat);
    let s = decimal(n as nat);
    assert(is_digit(s[0]));
}

} // verus!
