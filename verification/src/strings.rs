//! Text primitives the rest of the crate states its contracts over: the
//! Unicode `White_Space` property, trimming, ASCII case folding, prefixes,
//! and string assembly.

use vstd::prelude::*;

verus! {

/// The Unicode `White_Space` property (PropList.txt), the set that
/// `char::is_whitespace` and `str::trim` are documented against.
pub open spec fn white_space(c: char) -> bool {
    let u = c as u32;
    ||| 0x09 <= u <= 0x0d
    ||| u == 0x20
    ||| u == 0x85
    ||| u == 0xa0
    ||| u == 0x1680
    ||| 0x2000 <= u <= 0x200a
    ||| u == 0x2028
    ||| u == 0x2029
    ||| u == 0x202f
    ||| u == 0x205f
    ||| u == 0x3000
}

/// Whether a character has the `White_Space` property.
pub fn is_white_space(c: char) -> (b: bool)
    ensures
        b == white_space(c),
{
    let u = c as u32;
    (0x09 <= u && u <= 0x0d) || u == 0x20 || u == 0x85 || u == 0xa0 || u == 0x1680 || (0x2000
        <= u && u <= 0x200a) || u == 0x2028 || u == 0x2029 || u == 0x202f || u == 0x205f || u
        == 0x3000
}

/// How many leading characters of `s` are white space.
pub open spec fn leading_ws(s: Seq<char>) -> nat
    decreases s.len(),
{
    if s.len() > 0 && white_space(s[0]) {
        1 + leading_ws(s.drop_first())
    } else {
        0
    }
}

/// How many trailing characters of `s` are white space.
pub open spec fn trailing_ws(s: Seq<char>) -> nat
    decreases s.len(),
{
    if s.len() > 0 && white_space(s.last()) {
        1 + trailing_ws(s.drop_last())
    } else {
        0
    }
}

/// `s` with its leading and trailing white space removed.
pub open spec fn trim_spec(s: Seq<char>) -> Seq<char> {
    let front = s.skip(leading_ws(s) as int);
    front.take(front.len() - trailing_ws(front))
}


/// The leading white-space count is the first index that is not white
/// space.
pub proof fn lemma_leading_ws(s: Seq<char>, n: int)
    requires
        0 <= n <= s.len(),
        forall|i: int| 0 <= i < n ==> white_space(#[trigger] s[i]),
        n == s.len() || !white_space(s[n]),
    ensures
        leading_ws(s) == n,
    decreases n,
{
    if n > 0 {
        assert(white_space(s[0]));
        let t = s.drop_first();
        assert forall|i: int| 0 <= i < n - 1 implies white_space(#[trigger] t[i]) by {
            assert(t[i] == s[i + 1]);
        }
        if n < s.len() {
            assert(t[n - 1] == s[n]);
        }
        lemma_leading_ws(t, n - 1);
    }
}

/// The trailing white-space count is the length past the last character
/// that is not white space.
pub proof fn lemma_trailing_ws(s: Seq<char>, n: int)
    requires
        0 <= n <= s.len(),
        forall|i: int| s.len() - n <= i < s.len() ==> white_space(#[trigger] s[i]),
        n == s.len() || !white_space(s[s.len() - n - 1]),
    ensures
        trailing_ws(s) == n,
    decreases n,
{
    if n > 0 {
        assert(white_space(s[s.len() - 1]));
        let t = s.drop_last();
        assert forall|i: int| t.len() - (n - 1) <= i < t.len() implies white_space(#[trigger] t[i]) by {
            assert(t[i] == s[i]);
        }
        lemma_trailing_ws(t, n - 1);
    }
}


/// `s` with its leading and trailing white space removed, as
/// `str::trim` documents it.
pub fn trim(s: &str) -> (r: &str)
    ensures
        r@ == trim_spec(s@),
{
    let n = s.unicode_len();
    let mut start: usize = 0;
    while start < n && is_white_space(s.get_char(start))
        invariant
            n == s@.len(),
            start <= n,
            forall|i: int| 0 <= i < start ==> white_space(#[trigger] s@[i]),
        decreases n - start,
    {
        start = start + 1;
    }
    proof {
        lemma_leading_ws(s@, start as int);
    }
    let ghost front = s@.skip(start as int);
    let mut end: usize = n;
    while end > start && is_white_space(s.get_char(end - 1))
        invariant
            n == s@.len(),
            start <= end <= n,
            front == s@.skip(start as int),
            forall|i: int| end <= i < n ==> white_space(#[trigger] s@[i]),
        decreases end - start,
    {
        end = end - 1;
    }
    proof {
        let k = (n - end) as int;
        assert forall|i: int| front.len() - k <= i < front.len() implies white_space(#[trigger] front[i]) by {
            assert(front[i] == s@[i + start]);
        }
        if k < front.len() {
            assert(front[front.len() - k - 1] == s@[end - 1]);
        }
        lemma_trailing_ws(front, k);
        assert(front.take(front.len() - k) =~= s@.subrange(start as int, end as int));
    }
    s.substring_char(start, end)
}


/// Whether two strings hold the same characters.
pub fn str_eq(a: &str, b: &str) -> (r: bool)
    ensures
        r == (a@ == b@),
{
    let n = a.unicode_len();
    if n != b.unicode_len() {
        return false;
    }
    let mut i: usize = 0;
    while i < n
        invariant
            n == a@.len(),
            n == b@.len(),
            i <= n,
            forall|j: int| 0 <= j < i ==> a@[j] == b@[j],
        decreases n - i,
    {
        if a.get_char(i) != b.get_char(i) {
            return false;
        }
        i = i + 1;
    }
    assert(a@ =~= b@);
    true
}


/// The ASCII lowercase code of a character: an uppercase ASCII letter maps
/// to its lowercase letter, every other character to itself.
pub open spec fn ascii_folded(c: char) -> int {
    if 'A' <= c <= 'Z' {
        (c as u32) + 32
    } else {
        c as u32 as int
    }
}

/// Whether two texts are equal with ASCII case folded, as
/// `str::eq_ignore_ascii_case` documents it.
pub open spec fn eq_ignore_ascii_case_spec(a: Seq<char>, b: Seq<char>) -> bool {
    &&& a.len() == b.len()
    &&& forall|i: int| 0 <= i < a.len() ==> ascii_folded(#[trigger] a[i]) == ascii_folded(b[i])
}

fn fold_code(c: char) -> (code: u32)
    ensures
        code == ascii_folded(c),
{
    if 'A' <= c && c <= 'Z' {
        (c as u32) + 32
    } else {
        c as u32
    }
}

/// Whether two texts are equal with ASCII case folded.
pub fn eq_ignore_ascii_case(a: &str, b: &str) -> (r: bool)
    ensures
        r == eq_ignore_ascii_case_spec(a@, b@),
{
    let n = a.unicode_len();
    if n != b.unicode_len() {
        return false;
    }
    let mut i: usize = 0;
    while i < n
        invariant
            n == a@.len(),
            n == b@.len(),
            i <= n,
            forall|j: int| 0 <= j < i ==> ascii_folded(#[trigger] a@[j]) == ascii_folded(b@[j]),
        decreases n - i,
    {
        if fold_code(a.get_char(i)) != fold_code(b.get_char(i)) {
            return false;
        }
        i = i + 1;
    }
    true
}

/// Whether `s` opens with `prefix`.
pub open spec fn has_prefix(s: Seq<char>, prefix: Seq<char>) -> bool {
    prefix.len() <= s.len() && s.take(prefix.len() as int) == prefix
}

/// Whether `s` opens with `prefix`, as `str::starts_with` documents it.
pub fn starts_with(s: &str, prefix: &str) -> (r: bool)
    ensures
        r == has_prefix(s@, prefix@),
{
    let n = prefix.unicode_len();
    if n > s.unicode_len() {
        return false;
    }
    let mut i: usize = 0;
    while i < n
        invariant
            n == prefix@.len(),
            n <= s@.len(),
            i <= n,
            forall|j: int| 0 <= j < i ==> s@[j] == prefix@[j],
        decreases n - i,
    {
        if s.get_char(i) != prefix.get_char(i) {
            assert(s@.take(n as int)[i as int] != prefix@[i as int]);
            return false;
        }
        i = i + 1;
    }
    assert(s@.take(n as int) =~= prefix@);
    true
}

/// `s` without `prefix` when it opens with it, `s` whole otherwise, as
/// `strip_prefix(..).unwrap_or(s)` reads.
pub open spec fn without_prefix(s: Seq<char>, prefix: Seq<char>) -> Seq<char> {
    if has_prefix(s, prefix) {
        s.skip(prefix.len() as int)
    } else {
        s
    }
}

/// `s` without `prefix` when it opens with it, `s` whole otherwise.
pub fn strip_prefix_or_whole<'a>(s: &'a str, prefix: &str) -> (r: &'a str)
    ensures
        r@ == without_prefix(s@, prefix@),
{
    if starts_with(s, prefix) {
        let n = s.unicode_len();
        let r = s.substring_char(prefix.unicode_len(), n);
        assert(r@ =~= s@.skip(prefix@.len() as int));
        r
    } else {
        s
    }
}

/// Whether `c` occurs in `s`.
pub fn contains_char(s: &str, c: char) -> (r: bool)
    ensures
        r == s@.contains(c),
{
    let n = s.unicode_len();
    let mut i: usize = 0;
    while i < n
        invariant
            n == s@.len(),
            i <= n,
            forall|j: int| 0 <= j < i ==> s@[j] != c,
        decreases n - i,
    {
        if s.get_char(i) == c {
            assert(s@[i as int] == c);
            return true;
        }
        i = i + 1;
    }
    false
}

/// Whether some character of `s` is white space.
pub fn contains_white_space(s: &str) -> (r: bool)
    ensures
        r == exists|i: int| 0 <= i < s@.len() && white_space(#[trigger] s@[i]),
{
    let n = s.unicode_len();
    let mut i: usize = 0;
    while i < n
        invariant
            n == s@.len(),
            i <= n,
            forall|j: int| 0 <= j < i ==> !white_space(#[trigger] s@[j]),
        decreases n - i,
    {
        if is_white_space(s.get_char(i)) {
            return true;
        }
        i = i + 1;
    }
    false
}

/// `a` followed by `b`, as a new string.
pub fn concat2(a: &str, b: &str) -> (r: String)
    ensures
        r@ == a@ + b@,
{
    let mut r = a.to_owned();
    r.append(b);
    r
}

/// Three texts in a row, as a new string.
pub fn concat3(a: &str, b: &str, c: &str) -> (r: String)
    ensures
        r@ == a@ + b@ + c@,
{
    let mut r = a.to_owned();
    r.append(b);
    r.append(c);
    r
}

/// The character of one decimal digit.
pub open spec fn digit_char(d: nat) -> char {
    if d == 0 {
        '0'
    } else if d == 1 {
        '1'
    } else if d == 2 {
        '2'
    } else if d == 3 {
        '3'
    } else if d == 4 {
        '4'
    } else if d == 5 {
        '5'
    } else if d == 6 {
        '6'
    } else if d == 7 {
        '7'
    } else if d == 8 {
        '8'
    } else {
        '9'
    }
}

/// A natural number written in decimal, most significant digit first, with
/// no leading zero.
pub open spec fn decimal_spec(n: nat) -> Seq<char>
    decreases n,
{
    if n < 10 {
        seq![digit_char(n)]
    } else {
        decimal_spec(n / 10) + seq![digit_char(n % 10)]
    }
}

/// One decimal digit as a one-character string.
fn digit_str(d: u64) -> (s: &'static str)
    requires
        d < 10,
    ensures
        s@ == seq![digit_char(d as nat)],
{
    proof {
        reveal_strlit("0");
        reveal_strlit("1");
        reveal_strlit("2");
        reveal_strlit("3");
        reveal_strlit("4");
        reveal_strlit("5");
        reveal_strlit("6");
        reveal_strlit("7");
        reveal_strlit("8");
        reveal_strlit("9");
    }
    if d == 0 {
        "0"
    } else if d == 1 {
        "1"
    } else if d == 2 {
        "2"
    } else if d == 3 {
        "3"
    } else if d == 4 {
        "4"
    } else if d == 5 {
        "5"
    } else if d == 6 {
        "6"
    } else if d == 7 {
        "7"
    } else if d == 8 {
        "8"
    } else {
        "9"
    }
}

/// A number written in decimal.
pub fn decimal(n: u64) -> (s: String)
    ensures
        s@ == decimal_spec(n as nat),
    decreases n,
{
    if n < 10 {
        digit_str(n).to_owned()
    } else {
        let mut s = decimal(n / 10);
        s.append(digit_str(n % 10));
        s
    }
}

} // verus!
