//! Text primitives shared by the compilers and the emitters: ASCII string
//! conversion, decimal rendering of integers, and decimal parsing.
use vstd::prelude::*;

verus! {

/// An ASCII byte string read as characters, one character per byte.
pub open spec fn chars_of_ascii(bytes: Seq<u8>) -> Seq<char> {
    bytes.map(|_i: int, b: u8| b as char)
}

/// Relies on `String::from_utf8`: ASCII bytes are valid UTF-8 and decode to
/// one character per byte.
#[verifier::external_body]
pub fn ascii_to_string(bytes: Vec<u8>) -> (r: String)
    requires
        forall|i: int| 0 <= i < bytes@.len() ==> bytes@[i] < 128,
    ensures
        r@ == chars_of_ascii(bytes@),
{
    String::from_utf8(bytes).unwrap_or_default()
}

/// Decimal digits (as ASCII bytes) of a non-negative integer, no sign, no
/// leading zeros except for zero itself.
pub open spec fn dec_digits(n: int) -> Seq<u8>
    recommends
        n >= 0,
    decreases n,
{
    if n < 10 {
        seq![(48 + if n >= 0 { n } else { 0 }) as u8]
    } else {
        dec_digits(n / 10) + seq![(48 + n % 10) as u8]
    }
}

/// Decimal rendering of a signed integer: a minus sign for negatives, then
/// the digits of the magnitude.
pub open spec fn dec_int(n: int) -> Seq<u8> {
    if n >= 0 {
        dec_digits(n)
    } else {
        seq![45u8] + dec_digits(-n)
    }
}

/// Every byte of `dec_digits` is an ASCII digit.
pub proof fn lemma_dec_digits_ascii(n: int)
    requires
        n >= 0,
    ensures
        dec_digits(n).len() >= 1,
        forall|i: int| 0 <= i < dec_digits(n).len() ==> 48 <= #[trigger] dec_digits(n)[i] <= 57,
    decreases n,
{
    if n >= 10 {
        lemma_dec_digits_ascii(n / 10);
    }
}

/// Renders a `u64` in decimal.
pub fn u64_dec(n: u64) -> (r: Vec<u8>)
    ensures
        r@ == dec_digits(n as int),
    decreases n,
{
    if n < 10 {
        let mut v: Vec<u8> = Vec::new();
        v.push(48 + (n as u8));
        proof {
            assert(v@ =~= dec_digits(n as int));
        }
        v
    } else {
        let mut v = u64_dec(n / 10);
        v.push(48 + ((n % 10) as u8));
        proof {
            assert(v@ =~= dec_digits(n as int));
        }
        v
    }
}

/// Renders a `u128` in decimal.
pub fn u128_dec(n: u128) -> (r: Vec<u8>)
    ensures
        r@ == dec_digits(n as int),
    decreases n,
{
    if n < 10 {
        let mut v: Vec<u8> = Vec::new();
        v.push(48 + (n as u8));
        proof {
            assert(v@ =~= dec_digits(n as int));
        }
        v
    } else {
        let mut v = u128_dec(n / 10);
        v.push(48 + ((n % 10) as u8));
        proof {
            assert(v@ =~= dec_digits(n as int));
        }
        v
    }
}

/// Renders an `i64` in decimal, minus sign included.
pub fn i64_dec(n: i64) -> (r: Vec<u8>)
    ensures
        r@ == dec_int(n as int),
{
    if n >= 0 {
        u64_dec(n as u64)
    } else {
        let mag: u64 = ((-(n + 1)) as u64) + 1;
        assert(mag == -(n as int));
        let mut v: Vec<u8> = Vec::new();
        v.push(45);
        let mut ds = u64_dec(mag);
        v.append(&mut ds);
        proof {
            assert(v@ =~= dec_int(n as int));
        }
        v
    }
}

/// Horizontal whitespace: what separates tokens within a line.
pub open spec fn is_space(c: char) -> bool {
    c == ' ' || c == '\t' || c == '\r'
}

/// The index of the first newline at or after `i`, or the length if none.
pub open spec fn next_newline(s: Seq<char>, i: int) -> int
    decreases s.len() - i,
{
    if i < 0 || i >= s.len() {
        s.len() as int
    } else if s[i] == '\n' {
        i
    } else {
        next_newline(s, i + 1)
    }
}

/// `next_newline` stays within `[i, s.len()]`.
pub proof fn lemma_next_newline_bounds(s: Seq<char>, i: int)
    requires
        0 <= i <= s.len(),
    ensures
        i <= next_newline(s, i) <= s.len(),
    decreases s.len() - i,
{
    if i < s.len() && s[i] != '\n' {
        lemma_next_newline_bounds(s, i + 1);
    }
}

/// The lines of `s` from position `i` on: segments split on `'\n'`, the
/// separators themselves excluded.
pub open spec fn lines_from(s: Seq<char>, i: int) -> Seq<Seq<char>>
    recommends
        0 <= i,
    decreases s.len() + 1 - i,
    via lines_from_dec
{
    if i >= s.len() || i < 0 {
        seq![]
    } else {
        seq![s.subrange(i, next_newline(s, i))] + lines_from(s, next_newline(s, i) + 1)
    }
}

#[via_fn]
proof fn lines_from_dec(s: Seq<char>, i: int) {
    if 0 <= i <= s.len() {
        lemma_next_newline_bounds(s, i);
    }
}

/// The lines of a document.
pub open spec fn spec_lines(s: Seq<char>) -> Seq<Seq<char>> {
    lines_from(s, 0)
}

/// The index of the first non-space character in `[i, end)`, or `end`.
pub open spec fn skip_spaces(s: Seq<char>, i: int, end: int) -> int
    decreases end - i,
{
    if i < 0 || i >= end || i >= s.len() {
        end
    } else if is_space(s[i]) {
        skip_spaces(s, i + 1, end)
    } else {
        i
    }
}

/// `skip_spaces` stays within `[i, end]` and lands on a non-space when it
/// stops short of `end`.
pub proof fn lemma_skip_spaces_bounds(s: Seq<char>, i: int, end: int)
    requires
        0 <= i <= end <= s.len(),
    ensures
        i <= skip_spaces(s, i, end) <= end,
        skip_spaces(s, i, end) < end ==> !is_space(s[skip_spaces(s, i, end)]),
    decreases end - i,
{
    if i < end && is_space(s[i]) {
        lemma_skip_spaces_bounds(s, i + 1, end);
    }
}

/// The index of the first space in `[i, end)`, or `end`: where a token that
/// starts at `i` ends.
pub open spec fn token_end(s: Seq<char>, i: int, end: int) -> int
    decreases end - i,
{
    if i < 0 || i >= end || i >= s.len() {
        end
    } else if is_space(s[i]) {
        i
    } else {
        token_end(s, i + 1, end)
    }
}

/// `token_end` stays within `[i, end]` and lands on a space when it stops
/// short of `end`.
pub proof fn lemma_token_end_bounds(s: Seq<char>, i: int, end: int)
    requires
        0 <= i <= end <= s.len(),
    ensures
        i <= token_end(s, i, end) <= end,
        token_end(s, i, end) < end ==> is_space(s[token_end(s, i, end)]),
    decreases end - i,
{
    if i < end && !is_space(s[i]) {
        lemma_token_end_bounds(s, i + 1, end);
    }
}

/// The whitespace-separated tokens of `s[i..end]`, in order.
pub open spec fn tokens_in(s: Seq<char>, i: int, end: int) -> Seq<Seq<char>>
    decreases end - i,
    via tokens_in_dec
{
    if i < 0 || end > s.len() || i >= end {
        seq![]
    } else {
        let a = skip_spaces(s, i, end);
        if a >= end {
            seq![]
        } else {
            let b = token_end(s, a, end);
            seq![s.subrange(a, b)] + tokens_in(s, b, end)
        }
    }
}

#[via_fn]
proof fn tokens_in_dec(s: Seq<char>, i: int, end: int) {
    if 0 <= i < end <= s.len() {
        lemma_skip_spaces_bounds(s, i, end);
        let a = skip_spaces(s, i, end);
        if a < end {
            assert(!is_space(s[a]));
            lemma_token_end_bounds(s, a, end);
            assert(token_end(s, a, end) == token_end(s, a + 1, end));
            lemma_token_end_bounds(s, a + 1, end);
        }
    }
}

/// The tokens of a whole line.
pub open spec fn spec_tokens(s: Seq<char>) -> Seq<Seq<char>> {
    tokens_in(s, 0, s.len() as int)
}

/// `s` with leading and trailing whitespace removed.
pub open spec fn spec_trim(s: Seq<char>) -> Seq<char> {
    let a = skip_spaces(s, 0, s.len() as int);
    let b = token_back(s, s.len() as int);
    if a <= b {
        s.subrange(a, b)
    } else {
        seq![]
    }
}

/// One past the last non-space character of `s[..j]`, or `0` if all spaces.
pub open spec fn token_back(s: Seq<char>, j: int) -> int
    decreases j,
{
    if j <= 0 || j > s.len() {
        0
    } else if is_space(s[j - 1]) {
        token_back(s, j - 1)
    } else {
        j
    }
}

/// Whether `c` separates tokens.
pub fn space_char(c: char) -> (r: bool)
    ensures
        r == is_space(c),
{
    c == ' ' || c == '\t' || c == '\r'
}

/// Finds the first newline at or after `from`, or `n` if none.
pub fn find_newline(s: &str, from: usize, n: usize) -> (r: usize)
    requires
        n == s@.len(),
        from <= n,
    ensures
        r == next_newline(s@, from as int),
        from <= r <= n,
{
    let mut i: usize = from;
    while i < n
        invariant
            from <= i <= n,
            n == s@.len(),
            next_newline(s@, from as int) == next_newline(s@, i as int),
        decreases n - i,
    {
        if s.get_char(i) == '\n' {
            return i;
        }
        i = i + 1;
    }
    n
}

/// Finds the first non-space character in `[from, end)`, or `end`.
pub fn find_nonspace(s: &str, from: usize, end: usize) -> (r: usize)
    requires
        end <= s@.len(),
        from <= end,
    ensures
        r == skip_spaces(s@, from as int, end as int),
        from <= r <= end,
{
    let mut i: usize = from;
    while i < end
        invariant
            from <= i <= end,
            end <= s@.len(),
            skip_spaces(s@, from as int, end as int) == skip_spaces(s@, i as int, end as int),
        decreases end - i,
    {
        if !space_char(s.get_char(i)) {
            return i;
        }
        i = i + 1;
    }
    end
}

/// Finds the first space in `[from, end)`, or `end`.
pub fn find_token_end(s: &str, from: usize, end: usize) -> (r: usize)
    requires
        end <= s@.len(),
        from <= end,
    ensures
        r == token_end(s@, from as int, end as int),
        from <= r <= end,
{
    let mut i: usize = from;
    while i < end
        invariant
            from <= i <= end,
            end <= s@.len(),
            token_end(s@, from as int, end as int) == token_end(s@, i as int, end as int),
        decreases end - i,
    {
        if space_char(s.get_char(i)) {
            return i;
        }
        i = i + 1;
    }
    end
}

/// Finds one past the last non-space character of `s[..j]`, or `0`.
pub fn find_trim_back(s: &str, j: usize) -> (r: usize)
    requires
        j <= s@.len(),
    ensures
        r == token_back(s@, j as int),
        r <= j,
{
    let mut i: usize = j;
    while i > 0
        invariant
            i <= j <= s@.len(),
            token_back(s@, j as int) == token_back(s@, i as int),
        decreases i,
    {
        if !space_char(s.get_char(i - 1)) {
            return i;
        }
        i = i - 1;
    }
    0
}

/// Whether `c` folds to the (already upper-case) character `u` under ASCII
/// case folding.
pub open spec fn char_folds_to(c: char, u: char) -> bool {
    c == u || (97 <= c as u32 <= 122 && c as u32 - 32 == u as u32)
}

/// Whether `tok` equals the upper-case keyword `kw` after ASCII upper-casing.
pub open spec fn matches_keyword(tok: Seq<char>, kw: Seq<char>) -> bool {
    tok.len() == kw.len() && (forall|k: int|
        0 <= k < tok.len() ==> char_folds_to(#[trigger] tok[k], kw[k]))
}

/// Compares `s[from..to]` with the upper-case keyword `kw`, folding ASCII
/// lower-case letters up.
pub fn range_matches_keyword(s: &str, from: usize, to: usize, kw: &str) -> (r: bool)
    requires
        from <= to <= s@.len(),
    ensures
        r == matches_keyword(s@.subrange(from as int, to as int), kw@),
{
    let ghost tok = s@.subrange(from as int, to as int);
    let m: usize = kw.unicode_len();
    if to - from != m {
        return false;
    }
    let mut k: usize = 0;
    while k < m
        invariant
            k <= m,
            from <= to <= s@.len(),
            m == kw@.len(),
            to - from == m,
            tok == s@.subrange(from as int, to as int),
            forall|j: int| 0 <= j < k ==> char_folds_to(#[trigger] tok[j], kw@[j]),
        decreases m - k,
    {
        let c = s.get_char(from + k);
        let u = kw.get_char(k);
        proof {
            assert(tok[k as int] == s@[from + k]);
        }
        let cv: u32 = c as u32;
        let uv: u32 = u as u32;
        let folded: bool = cv == uv || (97 <= cv && cv <= 122 && cv - 32 == uv);
        if !folded {
            proof {
                assert(!char_folds_to(tok[k as int], kw@[k as int]));
            }
            return false;
        }
        k = k + 1;
    }
    true
}

/// Compares `s[from..to]` with `t` character by character.
pub fn range_eq_str(s: &str, from: usize, to: usize, t: &str) -> (r: bool)
    requires
        from <= to <= s@.len(),
    ensures
        r == (s@.subrange(from as int, to as int) == t@),
{
    let ghost tok = s@.subrange(from as int, to as int);
    let m: usize = t.unicode_len();
    if to - from != m {
        return false;
    }
    let mut k: usize = 0;
    while k < m
        invariant
            k <= m,
            from <= to <= s@.len(),
            m == t@.len(),
            to - from == m,
            tok == s@.subrange(from as int, to as int),
            forall|j: int| 0 <= j < k ==> #[trigger] tok[j] == t@[j],
        decreases m - k,
    {
        let c = s.get_char(from + k);
        let u = t.get_char(k);
        proof {
            assert(tok[k as int] == s@[from + k]);
        }
        if c != u {
            return false;
        }
        k = k + 1;
    }
    proof {
        assert(tok =~= t@);
    }
    true
}

/// An ASCII character string as bytes, one byte per character.
pub open spec fn lit_bytes(s: Seq<char>) -> Seq<u8> {
    s.map(|_i: int, c: char| c as u8)
}

/// Appends the bytes of an ASCII string to `out`.
pub fn push_ascii(out: &mut Vec<u8>, s: &str)
    requires
        s.is_ascii(),
    ensures
        final(out)@ == old(out)@ + lit_bytes(s@),
{
    broadcast use vstd::string::is_ascii_spec_bytes;

    let bs = s.as_bytes();
    let mut v = vstd::slice::slice_to_vec(bs);
    out.append(&mut v);
    proof {
        assert(out@ =~= old(out)@ + lit_bytes(s@));
    }
}

/// Ten to the `k`.
pub open spec fn pow10(k: nat) -> int
    decreases k,
{
    if k == 0 {
        1
    } else {
        10 * pow10((k - 1) as nat)
    }
}

/// A number below ten to the `k` has at most `k` decimal digits.
pub proof fn lemma_dec_digits_len_k(n: int, k: nat)
    requires
        0 <= n < pow10(k),
        k >= 1,
    ensures
        dec_digits(n).len() <= k,
    decreases k,
{
    if n >= 10 {
        assert(pow10(k) == 10 * pow10((k - 1) as nat));
        lemma_dec_digits_len_k(n / 10, (k - 1) as nat);
    }
}

/// The decimal rendering of a 64-bit signed value is at most 40 bytes.
pub proof fn lemma_dec_digits_len(n: int)
    requires
        i64::MIN <= n <= i64::MAX,
    ensures
        dec_int(n).len() <= 40,
{
    reveal_with_fuel(pow10, 21);
    assert(pow10(19) == 10_000_000_000_000_000_000);
    if n >= 0 {
        lemma_dec_digits_len_k(n, 19);
    } else {
        lemma_dec_digits_len_k(-n, 19);
    }
}

/// Compares two strings character by character.
pub fn str_eq_str(a: &str, b: &str) -> (r: bool)
    ensures
        r == (a@ == b@),
{
    let n: usize = a.unicode_len();
    let m: usize = b.unicode_len();
    if n != m {
        return false;
    }
    let r = range_eq_str(a, 0, n, b);
    proof {
        assert(a@.subrange(0, n as int) =~= a@);
    }
    r
}

/// A decimal digit character.
pub open spec fn is_digit_char(c: char) -> bool {
    48 <= c as u32 <= 57
}

/// The numeric value of a digit character.
pub open spec fn digit_val(c: char) -> int {
    c as u32 - 48
}

/// All characters of `s` are decimal digits.
pub open spec fn all_digits(s: Seq<char>) -> bool {
    forall|i: int| 0 <= i < s.len() ==> is_digit_char(#[trigger] s[i])
}

/// The value of a string of digit characters, most significant first.
pub open spec fn digits_val(s: Seq<char>) -> int
    decreases s.len(),
{
    if s.len() == 0 {
        0
    } else {
        digits_val(s.drop_last()) * 10 + digit_val(s.last())
    }
}

/// A digit string has a non-negative value.
pub proof fn lemma_digits_val_nonneg(s: Seq<char>)
    requires
        all_digits(s),
    ensures
        digits_val(s) >= 0,
    decreases s.len(),
{
    if s.len() > 0 {
        lemma_digits_val_nonneg(s.drop_last());
    }
}

/// What an unsigned decimal parse accepts: an optional plus sign, then one
/// or more decimal digits, with the value at most `max`.
pub open spec fn spec_parse_uint(s: Seq<char>, max: int) -> Option<u128> {
    let body = if s.len() > 0 && s[0] == '+' {
        s.drop_first()
    } else {
        s
    };
    if body.len() == 0 || !all_digits(body) || s.len() > 0 && s[0] == '-' {
        None
    } else if digits_val(body) <= max {
        Some(digits_val(body) as u128)
    } else {
        None
    }
}

/// Parses the characters `s[from..to]` as an unsigned integer of at most
/// `max`, exactly as `str::parse` for the matching width would.
pub fn parse_uint_range(s: &str, from: usize, to: usize, max: u128) -> (r: Option<u128>)
    requires
        from <= to <= s@.len(),
    ensures
        r == spec_parse_uint(s@.subrange(from as int, to as int), max as int),
{
    let ghost tok = s@.subrange(from as int, to as int);
    if from == to {
        return None;
    }
    let c0 = s.get_char(from);
    if c0 == '-' {
        proof {
            assert(tok[0] == c0);
        }
        return None;
    }
    let start: usize = if c0 == '+' {
        from + 1
    } else {
        from
    };
    let ghost body = s@.subrange(start as int, to as int);
    proof {
        assert(tok[0] == c0);
        if c0 == '+' {
            assert(tok.drop_first() =~= body);
        } else {
            assert(tok =~= body);
        }
    }
    if start == to {
        return None;
    }
    let mut mag: u128 = 0;
    let mut over: bool = false;
    let mut i: usize = start;
    while i < to
        invariant
            start <= i <= to <= s@.len(),
            tok == s@.subrange(from as int, to as int),
            body == s@.subrange(start as int, to as int),
            tok.len() > 0 && tok[0] != '-',
            body == (if tok[0] == '+' {
                tok.drop_first()
            } else {
                tok
            }),
            to - start >= 1,
            max <= u128::MAX,
            all_digits(body.take(i - start)),
            !over ==> mag == digits_val(body.take(i - start)) && mag <= max,
            over ==> digits_val(body.take(i - start)) > max,
        decreases to - i,
    {
        let c = s.get_char(i);
        let cv: u32 = c as u32;
        proof {
            assert(body[i - start] == s@[i as int]);
            assert(body.take(i - start + 1).drop_last() =~= body.take(i - start));
            assert(body.take(i - start + 1).last() == c);
        }
        if cv < 48 || cv > 57 {
            proof {
                assert(!is_digit_char(body[i - start]));
                assert(!all_digits(body));
            }
            return None;
        }
        let d: u128 = (cv - 48) as u128;
        if over {
            proof {
                lemma_digits_val_nonneg(body.take(i - start));
            }
        } else {
            if mag > (u128::MAX - d) / 10 {
                proof {
                    vstd::arithmetic::div_mod::lemma_fundamental_div_mod(
                        (u128::MAX - d) as int,
                        10,
                    );
                }
                over = true;
                mag = 0;
            } else {
                let next: u128 = mag * 10 + d;
                if next > max {
                    over = true;
                    mag = 0;
                } else {
                    mag = next;
                }
            }
        }
        i = i + 1;
    }
    proof {
        assert(body.take(to - start) =~= body);
    }
    if over {
        None
    } else {
        Some(mag)
    }
}

/// Whether a numeral begins with a minus sign.
pub open spec fn numeral_neg(s: Seq<char>) -> bool {
    s.len() > 0 && s[0] == '-'
}

/// A numeral without its optional leading sign.
pub open spec fn numeral_body(s: Seq<char>) -> Seq<char> {
    if s.len() > 0 && (s[0] == '-' || s[0] == '+') {
        s.drop_first()
    } else {
        s
    }
}

/// What `str::parse::<i64>` accepts: an optional sign, then one or more
/// decimal digits, with the value in range for `i64`.
pub open spec fn spec_parse_i64(s: Seq<char>) -> Option<i64> {
    let body = numeral_body(s);
    if body.len() == 0 || !all_digits(body) {
        None
    } else {
        let v = if numeral_neg(s) {
            -digits_val(body)
        } else {
            digits_val(body)
        };
        if i64::MIN <= v <= i64::MAX {
            Some(v as i64)
        } else {
            None
        }
    }
}

/// Parses the characters `s[from..to]` as an `i64`, exactly as
/// `str::parse::<i64>` would.
pub fn parse_i64_range(s: &str, from: usize, to: usize) -> (r: Option<i64>)
    requires
        from <= to <= s@.len(),
    ensures
        r == spec_parse_i64(s@.subrange(from as int, to as int)),
{
    let ghost tok = s@.subrange(from as int, to as int);
    if from == to {
        return None;
    }
    let c0 = s.get_char(from);
    let neg = c0 == '-';
    let start: usize = if c0 == '-' || c0 == '+' {
        from + 1
    } else {
        from
    };
    let ghost body = s@.subrange(start as int, to as int);
    proof {
        assert(tok[0] == c0);
        if c0 == '-' || c0 == '+' {
            assert(tok.drop_first() =~= body);
        } else {
            assert(tok =~= body);
        }
        assert(body == numeral_body(tok));
        assert(neg == numeral_neg(tok));
    }
    if start == to {
        return None;
    }
    let mut mag: u128 = 0;
    let mut over: bool = false;
    let mut i: usize = start;
    while i < to
        invariant
            start <= i <= to <= s@.len(),
            tok == s@.subrange(from as int, to as int),
            body == s@.subrange(start as int, to as int),
            body == numeral_body(tok),
            neg == numeral_neg(tok),
            to - start >= 1,
            all_digits(body.take(i - start)),
            !over ==> mag == digits_val(body.take(i - start)) && mag <= 0x8000_0000_0000_0000,
            over ==> digits_val(body.take(i - start)) > 0x8000_0000_0000_0000,
        decreases to - i,
    {
        let c = s.get_char(i);
        let cv: u32 = c as u32;
        proof {
            assert(body[i - start] == s@[i as int]);
            assert(body.take(i - start + 1).drop_last() =~= body.take(i - start));
            assert(body.take(i - start + 1).last() == c);
        }
        if cv < 48 || cv > 57 {
            proof {
                assert(!is_digit_char(body[i - start]));
                assert(!all_digits(body));
            }
            return None;
        }
        let d: u128 = (cv - 48) as u128;
        if over {
            proof {
                lemma_digits_val_nonneg(body.take(i - start));
            }
        } else {
            let next: u128 = mag * 10 + d;
            if next > 0x8000_0000_0000_0000 {
                over = true;
                mag = 0;
            } else {
                mag = next;
            }
        }
        i = i + 1;
    }
    proof {
        assert(body.take(to - start) =~= body);
    }
    if over {
        return None;
    }
    if neg {
        if mag > 0x8000_0000_0000_0000 {
            None
        } else if mag == 0x8000_0000_0000_0000 {
            Some(i64::MIN)
        } else {
            Some(-((mag as u64) as i64))
        }
    } else {
        if mag > 0x7FFF_FFFF_FFFF_FFFF {
            None
        } else {
            Some((mag as u64) as i64)
        }
    }
}

} // verus!
