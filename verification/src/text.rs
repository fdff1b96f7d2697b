//! Decimal rendering of counts, the one number format the harness writes into
//! the words it hands to people and models.

use vstd::prelude::*;
use vstd::string::*;

verus! {

/// The ASCII digit for a value below ten.
pub open spec fn digit_char(d: nat) -> char {
    if d == 0 { '0' }
    else if d == 1 { '1' }
    else if d == 2 { '2' }
    else if d == 3 { '3' }
    else if d == 4 { '4' }
    else if d == 5 { '5' }
    else if d == 6 { '6' }
    else if d == 7 { '7' }
    else if d == 8 { '8' }
    else { '9' }
}

/// The decimal spelling of a natural number, most significant digit first,
/// with no leading zeros (zero itself is `"0"`).
pub open spec fn decimal(n: nat) -> Seq<char>
    decreases n,
{
    if n < 10 {
        seq![digit_char(n)]
    } else {
        decimal(n / 10).push(digit_char(n % 10))
    }
}

/// `String::push` appends one character at the end, as std documents it.
pub assume_specification[ String::push ](s: &mut String, ch: char)
    ensures
        final(s)@ == old(s)@.push(ch),
;

fn digit(d: u64) -> (c: char)
    requires
        d < 10,
    ensures
        c == digit_char(d as nat),
{
    if d == 0 { '0' }
    else if d == 1 { '1' }
    else if d == 2 { '2' }
    else if d == 3 { '3' }
    else if d == 4 { '4' }
    else if d == 5 { '5' }
    else if d == 6 { '6' }
    else if d == 7 { '7' }
    else if d == 8 { '8' }
    else { '9' }
}

/// Renders `n` in decimal.
pub fn decimal_string(n: u64) -> (s: String)
    ensures
        s@ == decimal(n as nat),
    decreases n,
{
    if n < 10 {
        let mut s = String::new();
        s.push(digit(n));
        s
    } else {
        let mut s = decimal_string(n / 10);
        s.push(digit(n % 10));
        s
    }
}

} // verus!

verus! {

/// Whether two strings hold the same characters, as `str`'s `==` judges.
pub(crate) fn same_text(a: &str, b: &str) -> (same: bool)
    ensures
        same == (a@ == b@),
{
    let n = a.unicode_len();
    if n != b.unicode_len() {
        return false;
    }
    let mut i: usize = 0;
    while i < n
        invariant
            n == a@.len(),
            n == b@.len(),
            i <= n,
            a@.take(i as int) == b@.take(i as int),
        decreases n - i,
    {
        if a.get_char(i) != b.get_char(i) {
            return false;
        }
        proof {
            assert(a@.take(i + 1) =~= a@.take(i as int).push(a@[i as int]));
            assert(b@.take(i + 1) =~= b@.take(i as int).push(b@[i as int]));
        }
        i = i + 1;
    }
    proof {
        assert(a@.take(n as int) =~= a@);
        assert(b@.take(n as int) =~= b@);
    }
    true
}

/// `a` orders strictly before `b`, character by character by code point, a
/// proper prefix ordering first: the order `String`'s `Ord` gives, UTF-8
/// preserving code point order.
pub open spec fn text_less(a: Seq<char>, b: Seq<char>) -> bool
    decreases a.len(),
{
    if b.len() == 0 {
        false
    } else if a.len() == 0 {
        true
    } else if (a[0] as u32) < (b[0] as u32) {
        true
    } else if (a[0] as u32) > (b[0] as u32) {
        false
    } else {
        text_less(a.drop_first(), b.drop_first())
    }
}

/// Whether `a` orders strictly before `b`.
pub fn less_text(a: &str, b: &str) -> (less: bool)
    ensures
        less == text_less(a@, b@),
{
    let la = a.unicode_len();
    let lb = b.unicode_len();
    let mut i: usize = 0;
    proof {
        assert(a@.skip(0) =~= a@);
        assert(b@.skip(0) =~= b@);
        assert(a@.subrange(0, 0) =~= b@.subrange(0, 0));
    }
    while i < la && i < lb
        invariant
            la == a@.len(),
            lb == b@.len(),
            i <= la,
            i <= lb,
            a@.subrange(0, i as int) == b@.subrange(0, i as int),
            text_less(a@, b@) == text_less(a@.skip(i as int), b@.skip(i as int)),
        decreases la - i,
    {
        let ca = a.get_char(i);
        let cb = b.get_char(i);
        proof {
            let sa = a@.skip(i as int);
            let sb = b@.skip(i as int);
            assert(sa[0] == ca);
            assert(sb[0] == cb);
            assert(sa.drop_first() =~= a@.skip(i + 1));
            assert(sb.drop_first() =~= b@.skip(i + 1));
        }
        if (ca as u32) < (cb as u32) {
            return true;
        }
        if (ca as u32) > (cb as u32) {
            return false;
        }
        proof {
            assert(a@.subrange(0, i + 1) =~= a@.subrange(0, i as int).push(ca));
            assert(b@.subrange(0, i + 1) =~= b@.subrange(0, i as int).push(cb));
        }
        i = i + 1;
    }
    proof {
        assert(a@.skip(i as int).len() == la - i);
        assert(b@.skip(i as int).len() == lb - i);
    }
    i == la && i < lb
}

} // verus!

verus! {

/// `a` then `b`.
pub fn cat2(a: &str, b: &str) -> (m: String)
    ensures
        m@ == a@ + b@,
{
    let mut m = String::from_str(a);
    m.append(b);
    m
}

/// `a`, `b`, `c` in order.
pub fn cat3(a: &str, b: &str, c: &str) -> (m: String)
    ensures
        m@ == a@ + b@ + c@,
{
    let mut m = String::from_str(a);
    m.append(b);
    m.append(c);
    m
}

/// `a` through `d` in order.
pub fn cat4(a: &str, b: &str, c: &str, d: &str) -> (m: String)
    ensures
        m@ == a@ + b@ + c@ + d@,
{
    let mut m = String::from_str(a);
    m.append(b);
    m.append(c);
    m.append(d);
    m
}

/// `a` through `e` in order.
pub fn cat5(a: &str, b: &str, c: &str, d: &str, e: &str) -> (m: String)
    ensures
        m@ == a@ + b@ + c@ + d@ + e@,
{
    let mut m = String::from_str(a);
    m.append(b);
    m.append(c);
    m.append(d);
    m.append(e);
    m
}

} // verus!

verus! {

/// The value of a run of decimal digits, most significant first.
pub open spec fn digits_value(s: Seq<char>) -> int
    decreases s.len(),
{
    if s.len() == 0 {
        0
    } else {
        digits_value(s.drop_last()) * 10 + (s.last() as int - '0' as int)
    }
}

/// Every character is an ASCII decimal digit.
pub open spec fn all_digits(s: Seq<char>) -> bool {
    forall|i: int| 0 <= i < s.len() ==> '0' <= #[trigger] s[i] <= '9'
}

/// What `u64`'s `FromStr` makes of `raw`, as std documents it: an optional
/// leading `+`, then one or more decimal digits whose value fits the type.
pub open spec fn parsed_count(raw: Seq<char>) -> Option<u64> {
    let body = if raw.len() > 0 && raw[0] == '+' { raw.drop_first() } else { raw };
    if body.len() > 0 && all_digits(body) && digits_value(body) <= u64::MAX {
        Some(digits_value(body) as u64)
    } else {
        None
    }
}

proof fn lemma_digits_value_nonnegative(s: Seq<char>)
    requires
        all_digits(s),
    ensures
        digits_value(s) >= 0,
    decreases s.len(),
{
    if s.len() > 0 {
        lemma_digits_value_nonnegative(s.drop_last());
    }
}

proof fn lemma_digits_value_grows(s: Seq<char>, c: char)
    requires
        all_digits(s),
        '0' <= c <= '9',
    ensures
        digits_value(s.push(c)) >= digits_value(s),
        digits_value(s.push(c)) == digits_value(s) * 10 + (c as int - '0' as int),
{
    assert(s.push(c).drop_last() =~= s);
    lemma_digits_value_nonnegative(s);
}

/// Parses a count the way `u64`'s `FromStr` does.
pub fn parse_count(raw: &str) -> (count: Option<u64>)
    ensures
        count == parsed_count(raw@),
{
    let len = raw.unicode_len();
    let mut i: usize = 0;
    if len > 0 && raw.get_char(0) == '+' {
        i = 1;
    }
    let start = i;
    let ghost body = raw@.skip(start as int);
    proof {
        if start == 1 {
            assert(body =~= raw@.drop_first());
        } else {
            assert(body =~= raw@);
        }
        assert(body == (if raw@.len() > 0 && raw@[0] == '+' { raw@.drop_first() } else { raw@ }));
    }
    if i >= len {
        return None;
    }
    let mut value: u64 = 0;
    while i < len
        invariant
            len == raw@.len(),
            start <= i <= len,
            start < len,
            body == raw@.skip(start as int),
            body == (if raw@.len() > 0 && raw@[0] == '+' { raw@.drop_first() } else { raw@ }),
            all_digits(raw@.subrange(start as int, i as int)),
            value as int == digits_value(raw@.subrange(start as int, i as int)),
        decreases len - i,
    {
        let c = raw.get_char(i);
        let ghost before = raw@.subrange(start as int, i as int);
        proof {
            assert(raw@.subrange(start as int, i + 1) =~= before.push(c));
        }
        if !('0' <= c && c <= '9') {
            proof {
                assert(body[i - start] == raw@[i as int]);
                assert(!('0' <= body[i - start] <= '9'));
                assert(!all_digits(body));
                assert(parsed_count(raw@) is None);
            }
            return None;
        }
        proof {
            lemma_digits_value_grows(before, c);
        }
        let d = (c as u32 - '0' as u32) as u64;
        if value > (u64::MAX - d) / 10 {
            proof {
                // Every longer run of digits only grows.
                assert(value * 10 + d > u64::MAX) by (nonlinear_arith)
                    requires
                        value > (u64::MAX - d) / 10,
                        d <= 9,
                ;
                assert(body.subrange(0, (i - start) + 1) =~= before.push(c));
                lemma_digits_prefix_bounds(body, (i - start) as int + 1);
                if all_digits(body) {
                    assert(digits_value(body) > u64::MAX);
                }
                assert(parsed_count(raw@) is None);
            }
            return None;
        }
        value = value * 10 + d;
        i = i + 1;
    }
    proof {
        assert(raw@.subrange(start as int, len as int) =~= body);
    }
    Some(value)
}

proof fn lemma_digits_prefix_bounds(s: Seq<char>, n: int)
    requires
        0 <= n <= s.len(),
    ensures
        all_digits(s) ==> digits_value(s) >= digits_value(s.subrange(0, n)),
    decreases s.len() - n,
{
    if n < s.len() && all_digits(s) {
        lemma_digits_prefix_bounds(s, n + 1);
        let p = s.subrange(0, n);
        assert(s.subrange(0, n + 1) =~= p.push(s[n]));
        assert(all_digits(p));
        lemma_digits_value_grows(p, s[n]);
    } else if n == s.len() {
        assert(s.subrange(0, n) =~= s);
    }
}

} // verus!

verus! {

/// The bytes UTF-8 spends on `c`.
pub open spec fn utf8_width(c: char) -> nat {
    if (c as u32) < 0x80 {
        1
    } else if (c as u32) < 0x800 {
        2
    } else if (c as u32) < 0x10000 {
        3
    } else {
        4
    }
}

/// The bytes UTF-8 spends on `s`.
pub open spec fn utf8_len(s: Seq<char>) -> nat
    decreases s.len(),
{
    if s.len() == 0 {
        0
    } else {
        utf8_width(s[0]) + utf8_len(s.drop_first())
    }
}

/// How many of the leading characters of `s` fit in `budget` bytes of
/// UTF-8: the last character boundary at or below the budget.
pub open spec fn fitting_prefix(s: Seq<char>, budget: nat) -> nat
    decreases s.len(),
{
    if s.len() == 0 {
        0
    } else if utf8_width(s[0]) > budget {
        0
    } else {
        1 + fitting_prefix(s.drop_first(), (budget - utf8_width(s[0])) as nat)
    }
}

/// The whole of `s` fits exactly when its encoding is within the budget.
pub proof fn lemma_fits_whole(s: Seq<char>, budget: nat)
    ensures
        fitting_prefix(s, budget) <= s.len(),
        (fitting_prefix(s, budget) == s.len()) == (utf8_len(s) <= budget),
    decreases s.len(),
{
    if s.len() > 0 {
        if utf8_width(s[0]) <= budget {
            lemma_fits_whole(s.drop_first(), (budget - utf8_width(s[0])) as nat);
        } else {
            lemma_utf8_len_at_least_first(s);
        }
    }
}

/// The encoding of two texts joined is the two encodings joined.
pub proof fn lemma_utf8_len_concat(a: Seq<char>, b: Seq<char>)
    ensures
        utf8_len(a + b) == utf8_len(a) + utf8_len(b),
    decreases a.len(),
{
    if a.len() > 0 {
        assert((a + b).drop_first() =~= a.drop_first() + b);
        assert((a + b)[0] == a[0]);
        lemma_utf8_len_concat(a.drop_first(), b);
    } else {
        assert(a + b =~= b);
    }
}

/// The characters that fit the budget are encoded within it.
pub proof fn lemma_fitting_prefix_fits(s: Seq<char>, budget: nat)
    ensures
        fitting_prefix(s, budget) <= s.len(),
        utf8_len(s.take(fitting_prefix(s, budget) as int)) <= budget,
    decreases s.len(),
{
    lemma_fits_whole(s, budget);
    let k = fitting_prefix(s, budget);
    if s.len() == 0 || utf8_width(s[0]) > budget {
        assert(s.take(k as int) =~= Seq::<char>::empty());
    } else {
        let w = utf8_width(s[0]);
        let rest = s.drop_first();
        lemma_fitting_prefix_fits(rest, (budget - w) as nat);
        assert(s.take(k as int).drop_first() =~= rest.take(fitting_prefix(rest, (budget - w) as nat) as int));
        assert(s.take(k as int)[0] == s[0]);
    }
}

proof fn lemma_utf8_len_at_least_first(s: Seq<char>)
    requires
        s.len() > 0,
    ensures
        utf8_len(s) >= utf8_width(s[0]),
{
}

fn char_width(c: char) -> (w: usize)
    ensures
        w == utf8_width(c),
{
    if (c as u32) < 0x80 {
        1
    } else if (c as u32) < 0x800 {
        2
    } else if (c as u32) < 0x10000 {
        3
    } else {
        4
    }
}

/// How many leading characters of `s` fit in `budget` bytes of UTF-8.
pub fn fitting_chars(s: &str, budget: usize) -> (k: usize)
    ensures
        k == fitting_prefix(s@, budget as nat),
{
    let len = s.unicode_len();
    let mut i: usize = 0;
    let mut left: usize = budget;
    proof {
        assert(s@.skip(0) =~= s@);
    }
    while i < len
        invariant
            len == s@.len(),
            i <= len,
            left <= budget,
            fitting_prefix(s@, budget as nat) == i + fitting_prefix(s@.skip(i as int), left as nat),
        decreases len - i,
    {
        let c = s.get_char(i);
        let w = char_width(c);
        proof {
            assert(s@.skip(i as int)[0] == c);
            assert(s@.skip(i as int).drop_first() =~= s@.skip(i + 1));
        }
        if w > left {
            return i;
        }
        left = left - w;
        i = i + 1;
    }
    proof {
        assert(s@.skip(i as int).len() == 0);
    }
    i
}

/// The first `k` characters of `s`.
pub fn char_prefix(s: &str, k: usize) -> (p: String)
    requires
        k <= s@.len(),
    ensures
        p@ == s@.take(k as int),
{
    let mut p = String::new();
    let mut i: usize = 0;
    while i < k
        invariant
            k <= s@.len(),
            i <= k,
            p@ == s@.take(i as int),
        decreases k - i,
    {
        let c = s.get_char(i);
        p.push(c);
        proof {
            assert(s@.take(i + 1) =~= s@.take(i as int).push(c));
        }
        i = i + 1;
    }
    p
}

/// What `String::from_utf8_lossy` makes of `bytes`: each maximal invalid
/// sequence replaced by U+FFFD.
pub uninterp spec fn utf8_lossy_of(bytes: Seq<u8>) -> Seq<char>;

/// `String::from_utf8_lossy`, owned.
#[verifier::external_body]
pub(crate) fn utf8_lossy(bytes: &[u8]) -> (text: String)
    ensures
        text@ == utf8_lossy_of(bytes@),
{
    String::from_utf8_lossy(bytes).into_owned()
}

/// The signed decimal spelling of `n`.
pub open spec fn signed_decimal(n: int) -> Seq<char> {
    if n < 0 {
        seq!['-'] + decimal((-n) as nat)
    } else {
        decimal(n as nat)
    }
}

/// Renders `n` in decimal with its sign.
pub fn signed_decimal_string(n: i32) -> (s: String)
    ensures
        s@ == signed_decimal(n as int),
{
    if n < 0 {
        let magnitude: u64 = (0i64 - (n as i64)) as u64;
        let mut s = String::new();
        s.push('-');
        let digits = decimal_string(magnitude);
        s.append(digits.as_str());
        proof {
            assert(s@ =~= seq!['-'] + decimal((-(n as int)) as nat));
        }
        s
    } else {
        decimal_string(n as u64)
    }
}

} // verus!


verus! {

/// Unicode's White_Space property, which `char::is_whitespace` reads.
pub open spec fn is_white(c: char) -> bool {
    let u = c as u32;
    (0x9 <= u && u <= 0xd) || u == 0x20 || u == 0x85 || u == 0xa0 || u == 0x1680 || (0x2000 <= u
        && u <= 0x200a) || u == 0x2028 || u == 0x2029 || u == 0x202f || u == 0x205f || u == 0x3000
}

/// The white space `s` leads with.
pub open spec fn leading_white(s: Seq<char>) -> nat
    decreases s.len(),
{
    if s.len() == 0 || !is_white(s[0]) {
        0
    } else {
        1 + leading_white(s.drop_first())
    }
}

/// The white space `s` trails with.
pub open spec fn trailing_white(s: Seq<char>) -> nat
    decreases s.len(),
{
    if s.len() == 0 || !is_white(s.last()) {
        0
    } else {
        1 + trailing_white(s.drop_last())
    }
}

/// `s` with its leading and trailing white space removed, as `str::trim`
/// removes it.
pub open spec fn trimmed(s: Seq<char>) -> Seq<char> {
    let rest = s.skip(leading_white(s) as int);
    rest.take(rest.len() - trailing_white(rest))
}

proof fn lemma_leading_white_bounded(s: Seq<char>)
    ensures
        leading_white(s) <= s.len(),
    decreases s.len(),
{
    if s.len() > 0 && is_white(s[0]) {
        lemma_leading_white_bounded(s.drop_first());
    }
}

proof fn lemma_trailing_white_bounded(s: Seq<char>)
    ensures
        trailing_white(s) <= s.len(),
    decreases s.len(),
{
    if s.len() > 0 && is_white(s.last()) {
        lemma_trailing_white_bounded(s.drop_last());
    }
}

fn white(c: char) -> (w: bool)
    ensures
        w == is_white(c),
{
    let u = c as u32;
    (0x9 <= u && u <= 0xd) || u == 0x20 || u == 0x85 || u == 0xa0 || u == 0x1680 || (0x2000 <= u
        && u <= 0x200a) || u == 0x2028 || u == 0x2029 || u == 0x202f || u == 0x205f || u == 0x3000
}

/// `s` trimmed of white space at both ends.
pub fn trim(s: &str) -> (t: String)
    ensures
        t@ == trimmed(s@),
{
    let len = s.unicode_len();
    let mut start: usize = 0;
    proof {
        assert(s@.skip(0) =~= s@);
    }
    while start < len && white(s.get_char(start))
        invariant
            len == s@.len(),
            start <= len,
            leading_white(s@) == start + leading_white(s@.skip(start as int)),
        decreases len - start,
    {
        proof {
            assert(s@.skip(start as int)[0] == s@[start as int]);
            assert(s@.skip(start as int).drop_first() =~= s@.skip(start + 1));
        }
        start = start + 1;
    }
    proof {
        if start < len {
            assert(s@.skip(start as int)[0] == s@[start as int]);
        }
        assert(leading_white(s@.skip(start as int)) == 0);
    }
    let ghost rest = s@.skip(start as int);
    let mut end: usize = len;
    proof {
        assert(rest.take(rest.len() as int) =~= rest);
    }
    while end > start && white(s.get_char(end - 1))
        invariant
            len == s@.len(),
            start <= end <= len,
            rest == s@.skip(start as int),
            trailing_white(rest) == (len - end) + trailing_white(rest.take(end - start)),
        decreases end - start,
    {
        proof {
            let t = rest.take(end - start);
            assert(t.last() == s@[end - 1]);
            assert(t.drop_last() =~= rest.take(end - 1 - start));
        }
        end = end - 1;
    }
    proof {
        let t = rest.take(end - start);
        if end > start {
            assert(t.last() == s@[end - 1]);
        }
        assert(trailing_white(t) == 0);
        lemma_trailing_white_bounded(rest);
    }
    let mut out = String::new();
    let mut i: usize = start;
    while i < end
        invariant
            len == s@.len(),
            start <= i <= end,
            end <= len,
            out@ == s@.subrange(start as int, i as int),
        decreases end - i,
    {
        let c = s.get_char(i);
        out.push(c);
        proof {
            assert(s@.subrange(start as int, i + 1) =~= s@.subrange(start as int, i as int).push(c));
        }
        i = i + 1;
    }
    proof {
        assert(out@ =~= trimmed(s@));
    }
    out
}

} // verus!

verus! {

/// The `Debug` rendering std gives an optional text: `None`, or `Some(..)`
/// around the text quoted with its special characters escaped.
pub uninterp spec fn text_debug_of(text: Option<Seq<char>>) -> Seq<char>;

/// `format!("{:?}")` of an optional text.
#[verifier::external_body]
pub(crate) fn text_debug(text: Option<&str>) -> (rendered: String)
    ensures
        rendered@ == text_debug_of(
            match text {
                Some(t) => Some(t@),
                None => None,
            },
        ),
{
    format!("{:?}", text)
}

} // verus!

