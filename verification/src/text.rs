//! Character-level helpers on strings, each with an exact specification
//! over `Seq<char>`.

use vstd::prelude::*;
use vstd::string::*;

verus! {

// ---------------------------------------------------------------------------
// Specifications
// ---------------------------------------------------------------------------

/// `p` is a prefix of `s`.
pub open spec fn has_prefix(s: Seq<char>, p: Seq<char>) -> bool {
    p.len() <= s.len() && s.take(p.len() as int) == p
}

/// `p` occurs in `s` starting at position `i`.
pub open spec fn occurs_at(s: Seq<char>, p: Seq<char>, i: int) -> bool {
    0 <= i && i + p.len() <= s.len() && s.subrange(i, i + p.len()) == p
}

/// `p` occurs somewhere in `s`.
pub open spec fn contains_seq(s: Seq<char>, p: Seq<char>) -> bool {
    exists|i: int| occurs_at(s, p, i)
}

/// Classes of characters that the installer strips from the ends of strings.
#[derive(Clone, Copy, PartialEq, Eq, Structural)]
pub enum CharClass {
    /// Unicode `White_Space`, as `char::is_whitespace` documents it.
    Whitespace,
    /// The path separator `/`.
    Slash,
    /// Anything that is neither an ASCII letter or digit nor `/`.
    NotPathChar,
    /// Anything but the given character.
    Except(char),
}

/// The characters with the Unicode `White_Space` property.
pub open spec fn is_white_space(c: char) -> bool {
    ||| '\t' <= c <= '\r'
    ||| c == ' '
    ||| c == '\u{85}'
    ||| c == '\u{a0}'
    ||| c == '\u{1680}'
    ||| '\u{2000}' <= c <= '\u{200a}'
    ||| c == '\u{2028}'
    ||| c == '\u{2029}'
    ||| c == '\u{202f}'
    ||| c == '\u{205f}'
    ||| c == '\u{3000}'
}

/// ASCII letters and digits.
pub open spec fn is_ascii_alnum(c: char) -> bool {
    ||| '0' <= c <= '9'
    ||| 'a' <= c <= 'z'
    ||| 'A' <= c <= 'Z'
}

/// Membership of `c` in the class `k`.
pub open spec fn in_class(k: CharClass, c: char) -> bool {
    match k {
        CharClass::Whitespace => is_white_space(c),
        CharClass::Slash => c == '/',
        CharClass::NotPathChar => !is_ascii_alnum(c) && c != '/',
        CharClass::Except(x) => c != x,
    }
}

/// The length of the longest prefix of `s` made of characters of class `k`.
pub open spec fn leading_run(s: Seq<char>, k: CharClass) -> nat
    decreases s.len(),
{
    if s.len() > 0 && in_class(k, s[0]) {
        1 + leading_run(s.drop_first(), k)
    } else {
        0
    }
}

/// The length of the longest suffix of `s` made of characters of class `k`.
pub open spec fn trailing_run(s: Seq<char>, k: CharClass) -> nat
    decreases s.len(),
{
    if s.len() > 0 && in_class(k, s.last()) {
        1 + trailing_run(s.drop_last(), k)
    } else {
        0
    }
}

/// `s` without its leading characters of class `k`.
pub open spec fn trim_start_class(s: Seq<char>, k: CharClass) -> Seq<char> {
    s.skip(leading_run(s, k) as int)
}

/// `s` without its trailing characters of class `k`.
pub open spec fn trim_end_class(s: Seq<char>, k: CharClass) -> Seq<char> {
    s.take(s.len() - trailing_run(s, k))
}

/// `s` without leading and trailing white space.
pub open spec fn trimmed(s: Seq<char>) -> Seq<char> {
    trim_end_class(trim_start_class(s, CharClass::Whitespace), CharClass::Whitespace)
}

/// The part of `s` before the first occurrence of `c`, or all of `s`.
pub open spec fn before_first(s: Seq<char>, c: char) -> Seq<char> {
    s.take(leading_run(s, CharClass::Except(c)) as int)
}

/// The fields of `s` between the separators `sep`, as `str::split` yields them.
pub open spec fn fields(s: Seq<char>, sep: char) -> Seq<Seq<char>>
    decreases s.len(),
{
    let k = leading_run(s, CharClass::Except(sep)) as int;
    if 0 <= k < s.len() {
        seq![s.take(k)] + fields(s.skip(k + 1), sep)
    } else {
        seq![s]
    }
}

/// The rest of the first of `items` that starts with `p`, after `p`.
pub open spec fn first_with_prefix(items: Seq<Seq<char>>, p: Seq<char>) -> Option<Seq<char>>
    decreases items.len(),
{
    if items.len() == 0 {
        None
    } else if has_prefix(items[0], p) {
        Some(items[0].skip(p.len() as int))
    } else {
        first_with_prefix(items.drop_first(), p)
    }
}

/// The character of the decimal digit `d`.
pub open spec fn digit_char(d: nat) -> char {
    if d == 0 {
        '0'
    } else if d == 1 {
        '1'
    } else if d == 2 {
        '2'
    } else if d == 3 {
        '3'
    } else if d == 4 {
        '4'
    } else if d == 5 {
        '5'
    } else if d == 6 {
        '6'
    } else if d == 7 {
        '7'
    } else if d == 8 {
        '8'
    } else {
        '9'
    }
}

/// The decimal notation of `n`, without leading zeros.
pub open spec fn decimal(n: nat) -> Seq<char>
    decreases n,
{
    if n < 10 {
        seq![digit_char(n)]
    } else {
        decimal(n / 10).push(digit_char(n % 10))
    }
}

/// The decimal notation of `n`, with a minus sign when it is negative.
pub open spec fn signed_decimal(n: int) -> Seq<char> {
    if n < 0 {
        seq!['-'] + decimal((-n) as nat)
    } else {
        decimal(n as nat)
    }
}

/// The elements of `parts` with `sep` between each two of them.
pub open spec fn joined(parts: Seq<Seq<char>>, sep: Seq<char>) -> Seq<char>
    decreases parts.len(),
{
    if parts.len() == 0 {
        Seq::empty()
    } else if parts.len() == 1 {
        parts[0]
    } else {
        joined(parts.drop_last(), sep) + sep + parts.last()
    }
}

/// The number that a string of decimal digits denotes.
pub open spec fn digits_value(s: Seq<char>) -> int
    decreases s.len(),
{
    if s.len() == 0 {
        0
    } else {
        digits_value(s.drop_last()) * 10 + (s.last() as int - '0' as int)
    }
}

// ---------------------------------------------------------------------------
// Lemmas

/// The decimal notation of `n` is a non-empty string of the digits `0` to
/// `9` that denotes `n`, and it starts with `0` only for zero.
pub proof fn lemma_decimal_denotes(n: nat)
    ensures
        decimal(n).len() > 0,
        forall|i: int| 0 <= i < decimal(n).len() ==> '0' <= #[trigger] decimal(n)[i] <= '9',
        digits_value(decimal(n)) == n,
        decimal(n)[0] == '0' ==> n == 0,
    decreases n,
{
    let d = n % 10;
    assert(digit_char(d) as int - '0' as int == d);
    assert('0' <= digit_char(d) <= '9');
    if n >= 10 {
        lemma_decimal_denotes(n / 10);
        let s = decimal(n);
        assert(s.drop_last() =~= decimal(n / 10));
        assert(s[0] == decimal(n / 10)[0]);
        assert forall|i: int| 0 <= i < s.len() implies '0' <= #[trigger] s[i] <= '9' by {
            if i < s.len() - 1 {
                assert(s[i] == decimal(n / 10)[i]);
            }
        }
    } else {
        assert(digits_value(decimal(n).drop_last()) == 0);
    }
}
// ---------------------------------------------------------------------------

/// A run of class characters that ends at `i` is the leading run.
pub proof fn lemma_leading_run_at(s: Seq<char>, k: CharClass, i: int)
    requires
        0 <= i <= s.len(),
        forall|j: int| 0 <= j < i ==> in_class(k, #[trigger] s[j]),
        i == s.len() || !in_class(k, s[i]),
    ensures
        leading_run(s, k) == i,
    decreases i,
{
    if i > 0 {
        let t = s.drop_first();
        assert forall|j: int| 0 <= j < i - 1 implies in_class(k, #[trigger] t[j]) by {
            assert(t[j] == s[j + 1]);
        }
        if i - 1 < t.len() {
            assert(t[i - 1] == s[i]);
        }
        lemma_leading_run_at(t, k, i - 1);
    }
}

/// A run of class characters that starts after `i` is the trailing run.
pub proof fn lemma_trailing_run_at(s: Seq<char>, k: CharClass, i: int)
    requires
        0 <= i <= s.len(),
        forall|j: int| i <= j < s.len() ==> in_class(k, #[trigger] s[j]),
        i == 0 || !in_class(k, s[i - 1]),
    ensures
        trailing_run(s, k) == s.len() - i,
    decreases s.len() - i,
{
    if i < s.len() {
        let t = s.drop_last();
        assert forall|j: int| i <= j < t.len() implies in_class(k, #[trigger] t[j]) by {
            assert(t[j] == s[j]);
        }
        if i > 0 {
            assert(t[i - 1] == s[i - 1]);
        }
        lemma_trailing_run_at(t, k, i);
    }
}

/// The leading run never exceeds the length.
pub proof fn lemma_leading_run_bound(s: Seq<char>, k: CharClass)
    ensures
        leading_run(s, k) <= s.len(),
        forall|j: int| 0 <= j < leading_run(s, k) ==> in_class(k, #[trigger] s[j]),
        leading_run(s, k) < s.len() ==> !in_class(k, s[leading_run(s, k) as int]),
    decreases s.len(),
{
    if s.len() > 0 && in_class(k, s[0]) {
        let t = s.drop_first();
        lemma_leading_run_bound(t, k);
        assert forall|j: int| 0 <= j < leading_run(s, k) implies in_class(k, #[trigger] s[j]) by {
            if j > 0 {
                assert(s[j] == t[j - 1]);
            }
        }
        if leading_run(s, k) < s.len() {
            assert(s[leading_run(s, k) as int] == t[leading_run(t, k) as int]);
        }
    }
}

/// The trailing run is made of class characters and stops at one outside it.
pub proof fn lemma_trailing_run_bound(s: Seq<char>, k: CharClass)
    ensures
        trailing_run(s, k) <= s.len(),
        forall|j: int| s.len() - trailing_run(s, k) <= j < s.len() ==> in_class(k, #[trigger] s[j]),
        trailing_run(s, k) < s.len() ==> !in_class(k, s[s.len() - trailing_run(s, k) - 1]),
    decreases s.len(),
{
    if s.len() > 0 && in_class(k, s.last()) {
        let t = s.drop_last();
        lemma_trailing_run_bound(t, k);
        assert forall|j: int| s.len() - trailing_run(s, k) <= j < s.len() implies in_class(
            k,
            #[trigger] s[j],
        ) by {
            if j < s.len() - 1 {
                assert(s[j] == t[j]);
            }
        }
        if trailing_run(s, k) < s.len() {
            assert(s[s.len() - trailing_run(s, k) - 1] == t[t.len() - trailing_run(t, k) - 1]);
        }
    }
}

/// Trimming keeps a stretch of `s` and drops exactly the white space around
/// it: everything before and after the stretch is white space, and the
/// stretch neither starts nor ends with white space.
pub proof fn lemma_trimmed_is_core(s: Seq<char>)
    ensures
        exists|i: int, j: int|
            #![trigger s.subrange(i, j)]
            0 <= i <= j <= s.len() && trimmed(s) == s.subrange(i, j) && (forall|m: int|
                0 <= m < i ==> is_white_space(#[trigger] s[m])) && (forall|m: int|
                j <= m < s.len() ==> is_white_space(#[trigger] s[m])) && (i < j ==> !is_white_space(s[i])
                && !is_white_space(s[j - 1])),
{
    let w = CharClass::Whitespace;
    lemma_leading_run_bound(s, w);
    let i = leading_run(s, w) as int;
    let t = s.skip(i);
    lemma_trailing_run_bound(t, w);
    let r = trailing_run(t, w) as int;
    let j = s.len() - r;
    assert(trimmed(s) =~= s.subrange(i, j));
    assert forall|m: int| j <= m < s.len() implies is_white_space(#[trigger] s[m]) by {
        assert(s[m] == t[m - i]);
        assert(in_class(w, t[m - i]));
    }
    if i < j {
        assert(s[j - 1] == t[t.len() - r - 1]);
    }
    assert(0 <= i <= j <= s.len());
}

// ---------------------------------------------------------------------------
// Executable functions
// ---------------------------------------------------------------------------

/// Equality of two string slices, by their characters.
pub fn str_eq(a: &str, b: &str) -> (res: bool)
    ensures
        res == (a@ == b@),
{
    let x = String::from_str(a);
    let y = String::from_str(b);
    x == y
}

/// A fresh `String` holding the characters of `s`.
pub fn owned(s: &str) -> (res: String)
    ensures
        res@ == s@,
{
    String::from_str(s)
}

/// The concatenation `a ++ b` as a new `String`.
pub fn concat2(a: &str, b: &str) -> (res: String)
    ensures
        res@ == a@ + b@,
{
    let mut r = String::from_str(a);
    r.append(b);
    r
}

/// The concatenation `a ++ b ++ c` as a new `String`.
pub fn concat3(a: &str, b: &str, c: &str) -> (res: String)
    ensures
        res@ == a@ + b@ + c@,
{
    let mut r = String::from_str(a);
    r.append(b);
    r.append(c);
    r
}

/// Whether `c` is Unicode white space, as `char::is_whitespace` documents it.
pub fn is_whitespace(c: char) -> (res: bool)
    ensures
        res == is_white_space(c),
{
    ('\t' <= c && c <= '\r') || c == ' ' || c == '\u{85}' || c == '\u{a0}' || c == '\u{1680}'
        || ('\u{2000}' <= c && c <= '\u{200a}') || c == '\u{2028}' || c == '\u{2029}' || c
        == '\u{202f}' || c == '\u{205f}' || c == '\u{3000}'
}

/// Membership of `c` in the class `k`.
pub fn char_in_class(k: CharClass, c: char) -> (res: bool)
    ensures
        res == in_class(k, c),
{
    match k {
        CharClass::Whitespace => is_whitespace(c),
        CharClass::Slash => c == '/',
        CharClass::NotPathChar => {
            let alnum = ('0' <= c && c <= '9') || ('a' <= c && c <= 'z') || ('A' <= c && c
                <= 'Z');
            !alnum && c != '/'
        },
        CharClass::Except(x) => c != x,
    }
}

/// The number of leading characters of `s` in class `k`.
pub fn count_leading(s: &str, k: CharClass) -> (n: usize)
    ensures
        n == leading_run(s@, k),
        n <= s@.len(),
{
    let len = s.unicode_len();
    let mut i: usize = 0;
    while i < len && char_in_class(k, s.get_char(i))
        invariant
            len == s@.len(),
            i <= len,
            forall|j: int| 0 <= j < i ==> in_class(k, #[trigger] s@[j]),
        decreases len - i,
    {
        i = i + 1;
    }
    proof {
        lemma_leading_run_at(s@, k, i as int);
    }
    i
}

/// The number of trailing characters of `s` in class `k`.
pub fn count_trailing(s: &str, k: CharClass) -> (n: usize)
    ensures
        n == trailing_run(s@, k),
        n <= s@.len(),
{
    let len = s.unicode_len();
    let mut i: usize = len;
    while i > 0 && char_in_class(k, s.get_char(i - 1))
        invariant
            len == s@.len(),
            i <= len,
            forall|j: int| i <= j < len ==> in_class(k, #[trigger] s@[j]),
        decreases i,
    {
        i = i - 1;
    }
    proof {
        lemma_trailing_run_at(s@, k, i as int);
    }
    len - i
}

/// `s` without its leading characters of class `k`.
pub fn trim_start(s: &str, k: CharClass) -> (res: String)
    ensures
        res@ == trim_start_class(s@, k),
{
    let n = count_leading(s, k);
    let len = s.unicode_len();
    owned(s.substring_char(n, len))
}

/// `s` without its trailing characters of class `k`.
pub fn trim_end(s: &str, k: CharClass) -> (res: String)
    ensures
        res@ == trim_end_class(s@, k),
{
    let n = count_trailing(s, k);
    let len = s.unicode_len();
    owned(s.substring_char(0, len - n))
}

/// `s` without leading and trailing white space, as `str::trim` returns it.
pub fn trim(s: &str) -> (res: String)
    ensures
        res@ == trimmed(s@),
{
    let t = trim_start(s, CharClass::Whitespace);
    trim_end(t.as_str(), CharClass::Whitespace)
}

/// The part of `s` before the first occurrence of `c`, or all of `s`.
pub fn prefix_before(s: &str, c: char) -> (res: String)
    ensures
        res@ == before_first(s@, c),
{
    let n = count_leading(s, CharClass::Except(c));
    owned(s.substring_char(0, n))
}

/// Whether `s` starts with `p`.
pub fn starts_with(s: &str, p: &str) -> (res: bool)
    ensures
        res == has_prefix(s@, p@),
{
    let slen = s.unicode_len();
    let plen = p.unicode_len();
    if plen > slen {
        false
    } else {
        str_eq(s.substring_char(0, plen), p)
    }
}

/// `s` after the prefix `p`, when `s` starts with `p`.
pub fn strip_prefix(s: &str, p: &str) -> (res: Option<String>)
    ensures
        res is Some <==> has_prefix(s@, p@),
        res matches Some(r) ==> r@ == s@.skip(p@.len() as int),
{
    if starts_with(s, p) {
        let slen = s.unicode_len();
        let plen = p.unicode_len();
        Some(owned(s.substring_char(plen, slen)))
    } else {
        None
    }
}

/// Whether `p` occurs in `s`.
pub fn contains(s: &str, p: &str) -> (res: bool)
    ensures
        res == contains_seq(s@, p@),
{
    let slen = s.unicode_len();
    let plen = p.unicode_len();
    if plen > slen {
        return false;
    }
    let mut i: usize = 0;
    loop
        invariant
            slen == s@.len(),
            plen == p@.len(),
            plen <= slen,
            i <= slen - plen,
            forall|j: int| 0 <= j < i ==> !occurs_at(s@, p@, j),
        decreases slen - plen - i,
    {
        if str_eq(s.substring_char(i, i + plen), p) {
            assert(occurs_at(s@, p@, i as int));
            return true;
        }
        if i == slen - plen {
            assert forall|j: int| !occurs_at(s@, p@, j) by {
                if 0 <= j <= i {
                } else if j > i {
                    assert(j + plen > slen);
                }
            }
            return false;
        }
        i = i + 1;
    }
}

/// The first of the `sep`-separated fields of `s` that starts with `p`,
/// after `p`.
pub fn find_field_with_prefix(s: &str, sep: char, p: &str) -> (res: Option<String>)
    ensures
        res matches Some(r) ==> first_with_prefix(fields(s@, sep), p@) == Some(r@),
        res is None ==> first_with_prefix(fields(s@, sep), p@) is None,
{
    let len = s.unicode_len();
    let mut start: usize = 0;
    assert(s@.skip(0) =~= s@);
    loop
        invariant
            len == s@.len(),
            start <= len,
            first_with_prefix(fields(s@, sep), p@) == first_with_prefix(
                fields(s@.skip(start as int), sep),
                p@,
            ),
        decreases len - start,
    {
        let rest = s.substring_char(start, len);
        assert(rest@ == s@.skip(start as int));
        let k = count_leading(rest, CharClass::Except(sep));
        let field = rest.substring_char(0, k);
        proof {
            lemma_leading_run_bound(rest@, CharClass::Except(sep));
        }
        let ghost fs = fields(rest@, sep);
        if k >= rest.unicode_len() {
            assert(fs == seq![rest@]);
            assert(fs.drop_first() =~= Seq::<Seq<char>>::empty());
            assert(field@ =~= rest@);
            assert(first_with_prefix(Seq::<Seq<char>>::empty(), p@) is None);
            return match strip_prefix(field, p) {
                Some(r) => Some(r),
                None => None,
            };
        }
        assert(fs == seq![rest@.take(k as int)] + fields(rest@.skip(k + 1), sep));
        assert(fs[0] == field@);
        assert(fs.drop_first() =~= fields(rest@.skip(k + 1), sep));
        match strip_prefix(field, p) {
            Some(r) => {
                return Some(r);
            },
            None => {},
        }
        assert(rest@.skip(k + 1) =~= s@.skip(start + k + 1));
        start = start + k + 1;
    }
}

/// The string of the decimal digit `d`.
fn digit_str(d: u64) -> (res: &'static str)
    requires
        d < 10,
    ensures
        res@ == seq![digit_char(d as nat)],
{
    proof {
        reveal_strlit("0");
        reveal_strlit("1");
        reveal_strlit("2");
        reveal_strlit("3");
        reveal_strlit("4");
        reveal_strlit("5");
        reveal_strlit("6");
        reveal_strlit("7");
        reveal_strlit("8");
        reveal_strlit("9");
    }
    if d == 0 {
        "0"
    } else if d == 1 {
        "1"
    } else if d == 2 {
        "2"
    } else if d == 3 {
        "3"
    } else if d == 4 {
        "4"
    } else if d == 5 {
        "5"
    } else if d == 6 {
        "6"
    } else if d == 7 {
        "7"
    } else if d == 8 {
        "8"
    } else {
        "9"
    }
}

/// The decimal notation of `n`, as `to_string` writes it.
pub fn decimal_string(n: u64) -> (res: String)
    ensures
        res@ == decimal(n as nat),
    decreases n,
{
    if n < 10 {
        owned(digit_str(n))
    } else {
        let mut r = decimal_string(n / 10);
        r.append(digit_str(n % 10));
        r
    }
}

/// The decimal notation of `n` with its sign, as `to_string` writes it.
pub fn signed_decimal_string(n: i32) -> (res: String)
    ensures
        res@ == signed_decimal(n as int),
{
    if n < 0 {
        let m: i64 = n as i64;
        let abs: u64 = (-m) as u64;
        let digits = decimal_string(abs);
        proof {
            reveal_strlit("-");
        }
        concat2("-", digits.as_str())
    } else {
        decimal_string(n as u64)
    }
}

/// The elements of `parts` with `sep` between each two of them, as
/// `[String]::join` writes them.
pub fn join(parts: &Vec<String>, sep: &str) -> (res: String)
    ensures
        res@ == joined(parts.deep_view(), sep@),
{
    let mut r = String::new();
    let mut i: usize = 0;
    while i < parts.len()
        invariant
            i <= parts.len(),
            r@ == joined(parts.deep_view().take(i as int), sep@),
        decreases parts.len() - i,
    {
        let ghost before = parts.deep_view().take(i as int);
        if i > 0 {
            r.append(sep);
        }
        r.append(parts[i].as_str());
        proof {
            let after = parts.deep_view().take(i + 1);
            assert(after.drop_last() =~= before);
            assert(after.last() == parts[i as int]@);
            if i == 0 {
                assert(after.len() == 1);
            }
        }
        i = i + 1;
    }
    assert(parts.deep_view().take(parts.len() as int) =~= parts.deep_view());
    r
}

} // verus!
