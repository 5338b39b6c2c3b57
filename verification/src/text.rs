//! Verified text scanning: lines, whitespace-separated tokens, and numbers.
//!
//! The operating system hands this library plain text — pseudo-file contents
//! and command output.  Everything here works on sequences of characters,
//! with each operation specified against a small set of recursive spec
//! functions: `spec_lines` splits on newlines the way `str::lines` does,
//! `spec_tokens` splits on ASCII whitespace, and the number parsers give the
//! exact value of a digit string or a plain decimal literal.

use vstd::prelude::*;

verus! {

/// ASCII whitespace, the separators these formats use.
pub open spec fn is_ws(c: char) -> bool {
    c == ' ' || c == '\t' || c == '\n' || c == '\r'
}

/// Index of the first whitespace character, or the length when none occurs.
pub open spec fn spec_find_ws(s: Seq<char>) -> int
    decreases s.len(),
{
    if s.len() == 0 {
        0
    } else if is_ws(s[0]) {
        0
    } else {
        1 + spec_find_ws(s.skip(1))
    }
}

/// Index of the first occurrence of `c`, or the length when none occurs.
pub open spec fn spec_find_char(s: Seq<char>, c: char) -> int
    decreases s.len(),
{
    if s.len() == 0 {
        0
    } else if s[0] == c {
        0
    } else {
        1 + spec_find_char(s.skip(1), c)
    }
}

/// `spec_find_ws` points at the first whitespace character.
pub proof fn lemma_find_ws_character(s: Seq<char>)
    ensures
        0 <= spec_find_ws(s) <= s.len(),
        spec_find_ws(s) < s.len() ==> is_ws(s[spec_find_ws(s)]),
        forall|i: int| 0 <= i < spec_find_ws(s) ==> !is_ws(s[i]),
    decreases s.len(),
{
    if s.len() != 0 && !is_ws(s[0]) {
        lemma_find_ws_character(s.skip(1));
        let f = spec_find_ws(s);
        assert forall|i: int| 0 <= i < f implies !is_ws(s[i]) by {
            if i > 0 {
                assert(s.skip(1)[i - 1] == s[i]);
            }
        }
        if f < s.len() {
            assert(s.skip(1)[f - 1] == s[f]);
        }
    }
}

/// `spec_find_char` points at the first occurrence.
pub proof fn lemma_find_char_character(s: Seq<char>, c: char)
    ensures
        0 <= spec_find_char(s, c) <= s.len(),
        spec_find_char(s, c) < s.len() ==> s[spec_find_char(s, c)] == c,
        forall|i: int| 0 <= i < spec_find_char(s, c) ==> s[i] != c,
    decreases s.len(),
{
    if s.len() != 0 && s[0] != c {
        lemma_find_char_character(s.skip(1), c);
        let f = spec_find_char(s, c);
        assert forall|i: int| 0 <= i < f implies s[i] != c by {
            if i > 0 {
                assert(s.skip(1)[i - 1] == s[i]);
            }
        }
        if f < s.len() {
            assert(s.skip(1)[f - 1] == s[f]);
        }
    }
}

/// The whitespace-separated tokens of `s`, in order.
pub open spec fn spec_tokens(s: Seq<char>) -> Seq<Seq<char>>
    decreases s.len(),
    via spec_tokens_decreases
{
    if s.len() == 0 {
        Seq::empty()
    } else if is_ws(s[0]) {
        spec_tokens(s.skip(1))
    } else {
        seq![s.take(spec_find_ws(s))] + spec_tokens(s.skip(spec_find_ws(s)))
    }
}

#[via_fn]
proof fn spec_tokens_decreases(s: Seq<char>) {
    if s.len() != 0 && !is_ws(s[0]) {
        lemma_find_ws_character(s);
        assert(spec_find_ws(s) >= 1);
    }
}

/// Drop one trailing carriage return, as `str::lines` does.
pub open spec fn spec_strip_cr(s: Seq<char>) -> Seq<char> {
    if s.len() > 0 && s.last() == '\r' {
        s.drop_last()
    } else {
        s
    }
}

/// The lines of `s`: split on `'\n'`, one trailing `'\r'` removed from each
/// line, no empty final line after a terminating newline — the behaviour of
/// `str::lines`.
pub open spec fn spec_lines(s: Seq<char>) -> Seq<Seq<char>>
    decreases s.len(),
    via spec_lines_decreases
{
    if s.len() == 0 {
        Seq::empty()
    } else {
        let k = spec_find_char(s, '\n');
        if k == s.len() {
            seq![s]
        } else {
            seq![spec_strip_cr(s.take(k))] + spec_lines(s.skip(k + 1))
        }
    }
}

#[via_fn]
proof fn spec_lines_decreases(s: Seq<char>) {
    if s.len() != 0 {
        lemma_find_char_character(s, '\n');
    }
}

/// `s` split on `c`: every piece between separators, empty pieces and a
/// trailing empty piece included — the behaviour of `str::split`.
pub open spec fn spec_split_char(s: Seq<char>, c: char) -> Seq<Seq<char>>
    decreases s.len(),
    via spec_split_char_decreases
{
    let k = spec_find_char(s, c);
    if k == s.len() {
        seq![s]
    } else {
        seq![s.take(k)] + spec_split_char(s.skip(k + 1), c)
    }
}

#[via_fn]
proof fn spec_split_char_decreases(s: Seq<char>, c: char) {
    lemma_find_char_character(s, c);
}

/// Split the text on a separator, matching `spec_split_char`.
#[verifier::loop_isolation(false)]
pub fn split_char(v: &Vec<char>, c: char) -> (r: Vec<Vec<char>>)
    ensures
        r.deep_view() == spec_split_char(v@, c),
{
    let n = v.len();
    let mut r: Vec<Vec<char>> = Vec::new();
    let mut start: usize = 0;
    let mut fin = false;
    proof {
        assert(v@.skip(0) =~= v@);
        assert(r.deep_view() + spec_split_char(v@, c) =~~= spec_split_char(v@, c));
    }
    while !fin
        invariant
            start <= n,
            n == v@.len(),
            !fin ==> r.deep_view() + spec_split_char(v@.skip(start as int), c) == spec_split_char(
                v@,
                c,
            ),
            fin ==> r.deep_view() == spec_split_char(v@, c),
        decreases n - start, (if fin { 0int } else { 1int }),
    {
        let j = find_char_from(v, c, start);
        let piece = subvec(v, start, j);
        let ghost prev = r.deep_view();
        r.push(piece);
        proof {
            assert(r.deep_view() =~~= prev.push(piece@));
            let s = v@.skip(start as int);
            let k = spec_find_char(s, c);
            assert(k == j - start);
            assert(s.take(k) =~= v@.subrange(start as int, j as int));
            if j < n {
                assert(s.skip(k + 1) =~= v@.skip(j + 1));
                assert(r.deep_view() + spec_split_char(v@.skip(j + 1), c) =~~= prev
                    + spec_split_char(s, c));
            } else {
                assert(s =~= v@.subrange(start as int, j as int));
                assert(spec_split_char(s, c) == seq![s]);
                assert(r.deep_view() =~~= prev + spec_split_char(s, c));
            }
        }
        if j < n {
            start = j + 1;
        } else {
            fin = true;
        }
    }
    r
}

/// Decimal digit.
pub open spec fn spec_digit(c: char) -> bool {
    c == '0' || c == '1' || c == '2' || c == '3' || c == '4' || c == '5' || c == '6' || c == '7'
        || c == '8' || c == '9'
}

/// Value of one decimal digit.
pub open spec fn spec_digit_val(c: char) -> int {
    if c == '0' {
        0
    } else if c == '1' {
        1
    } else if c == '2' {
        2
    } else if c == '3' {
        3
    } else if c == '4' {
        4
    } else if c == '5' {
        5
    } else if c == '6' {
        6
    } else if c == '7' {
        7
    } else if c == '8' {
        8
    } else {
        9
    }
}

/// Every character is a decimal digit.
pub open spec fn spec_all_digits(s: Seq<char>) -> bool {
    forall|i: int| 0 <= i < s.len() ==> spec_digit(s[i])
}

/// The number a digit string denotes, most significant digit first.
pub open spec fn spec_digits_val(s: Seq<char>) -> int
    decreases s.len(),
{
    if s.len() == 0 {
        0
    } else {
        spec_digits_val(s.drop_last()) * 10 + spec_digit_val(s.last())
    }
}

/// A digit string's value is non-negative.
pub proof fn lemma_digits_val_nonneg(s: Seq<char>)
    ensures
        0 <= spec_digits_val(s),
    decreases s.len(),
{
    if s.len() > 0 {
        lemma_digits_val_nonneg(s.drop_last());
        if spec_digit(s.last()) {
        }
    }
}

/// Extending a digit string on the right cannot shrink its value.
pub proof fn lemma_digits_val_prefix_le(s: Seq<char>, i: int)
    requires
        0 <= i <= s.len(),
    ensures
        spec_digits_val(s.take(i)) <= spec_digits_val(s),
    decreases s.len() - i,
{
    if i == s.len() {
        assert(s.take(i) =~= s);
    } else {
        lemma_digits_val_prefix_le(s, i + 1);
        let t = s.take(i + 1);
        assert(t.drop_last() =~= s.take(i));
        lemma_digits_val_nonneg(s.take(i));
        assert(spec_digit_val(t.last()) >= 0 || true);
        assert(spec_digits_val(s.take(i)) * 10 >= spec_digits_val(s.take(i))) by {
            lemma_digits_val_nonneg(s.take(i));
        };
    }
}

/// The parsed value of an unsigned decimal field: `Some` exactly when the
/// string is one or more digits after an optional leading `'+'` and its
/// value fits in a `u64`.
pub open spec fn spec_parse_u64(s: Seq<char>) -> Option<u64> {
    let d = if s.len() > 0 && s[0] == '+' {
        s.skip(1)
    } else {
        s
    };
    if d.len() > 0 && spec_all_digits(d) && spec_digits_val(d) <= u64::MAX {
        Some(spec_digits_val(d) as u64)
    } else {
        None
    }
}

/// Powers of ten up to a millionth's place.
pub open spec fn spec_pow10(k: int) -> int {
    if k <= 0 {
        1
    } else if k == 1 {
        10
    } else if k == 2 {
        100
    } else if k == 3 {
        1_000
    } else if k == 4 {
        10_000
    } else if k == 5 {
        100_000
    } else {
        1_000_000
    }
}

/// Complementary powers of ten multiply out to one millionth.
pub proof fn lemma_pow10_product(k: int)
    requires
        0 <= k <= 6,
    ensures
        spec_pow10(k) * spec_pow10(6 - k) == 1_000_000,
{
}

/// Fixed-point value of a fraction-digit string: the first six digits,
/// right-padded with zeros; deeper digits are truncated away.
pub open spec fn spec_frac_micro(s: Seq<char>) -> int {
    let k = if s.len() < 6 {
        s.len() as int
    } else {
        6
    };
    spec_digits_val(s.take(k)) * spec_pow10(6 - k)
}

/// Cap on the whole part of a decimal literal, keeping every parsed value
/// well inside `i64` once scaled to fixed point.
pub open spec fn spec_int_part_cap() -> int {
    9_000_000_000_000
}

/// The parsed fixed-point value of a plain decimal literal
/// (`[+|-] digits [ . digits ]`, at least one digit in all): `Some` exactly
/// when the string has that shape and its whole part stays under the cap.
/// Exponents and named values are not accepted.
pub open spec fn spec_parse_micro(s: Seq<char>) -> Option<i64> {
    if s.len() == 0 {
        None
    } else {
        let neg = s[0] == '-';
        let b = if s[0] == '-' || s[0] == '+' {
            s.skip(1)
        } else {
            s
        };
        let dot = spec_find_char(b, '.');
        let ip = b.take(dot);
        let fp = if dot < b.len() {
            b.skip(dot + 1)
        } else {
            Seq::empty()
        };
        if ip.len() + fp.len() == 0 {
            None
        } else if !spec_all_digits(ip) || !spec_all_digits(fp) {
            None
        } else if spec_digits_val(ip) > spec_int_part_cap() {
            None
        } else {
            let mag = spec_digits_val(ip) * 1_000_000 + spec_frac_micro(fp);
            if neg {
                Some((-mag) as i64)
            } else {
                Some(mag as i64)
            }
        }
    }
}

/// `p` occurs in `s` as a contiguous run.
pub open spec fn spec_contains(s: Seq<char>, p: Seq<char>) -> bool {
    exists|off: int|
        0 <= off && off + p.len() <= s.len() && #[trigger] s.subrange(off, off + p.len()) == p
}

/// `s` begins with `p`.
pub open spec fn spec_starts_with(s: Seq<char>, p: Seq<char>) -> bool {
    p.len() <= s.len() && s.take(p.len() as int) == p
}

/// `s` with its leading whitespace removed.
pub open spec fn spec_trim_start(s: Seq<char>) -> Seq<char>
    decreases s.len(),
{
    if s.len() > 0 && is_ws(s[0]) {
        spec_trim_start(s.skip(1))
    } else {
        s
    }
}

/// `s` with its trailing whitespace removed.
pub open spec fn spec_trim_end(s: Seq<char>) -> Seq<char>
    decreases s.len(),
{
    if s.len() > 0 && is_ws(s.last()) {
        spec_trim_end(s.drop_last())
    } else {
        s
    }
}

/// `s` with whitespace removed from both ends.
pub open spec fn spec_trim(s: Seq<char>) -> Seq<char> {
    spec_trim_end(spec_trim_start(s))
}

/// Whitespace test, matching `is_ws`.
pub fn is_ws_char(c: char) -> (r: bool)
    ensures
        r == is_ws(c),
{
    c == ' ' || c == '\t' || c == '\n' || c == '\r'
}

/// Digit value, matching `spec_digit` and `spec_digit_val`.
pub fn digit_of(c: char) -> (r: Option<u64>)
    ensures
        r is Some <==> spec_digit(c),
        r is Some ==> r->0 as int == spec_digit_val(c),
{
    if c == '0' {
        Some(0)
    } else if c == '1' {
        Some(1)
    } else if c == '2' {
        Some(2)
    } else if c == '3' {
        Some(3)
    } else if c == '4' {
        Some(4)
    } else if c == '5' {
        Some(5)
    } else if c == '6' {
        Some(6)
    } else if c == '7' {
        Some(7)
    } else if c == '8' {
        Some(8)
    } else if c == '9' {
        Some(9)
    } else {
        None
    }
}

/// The characters of a string slice, in order.
pub fn chars_of(s: &str) -> (r: Vec<char>)
    ensures
        r@ == s@,
{
    let n = s.unicode_len();
    let mut r: Vec<char> = Vec::new();
    let mut i: usize = 0;
    while i < n
        invariant
            i <= n,
            n == s@.len(),
            r@ == s@.take(i as int),
        decreases n - i,
    {
        let c = s.get_char(i);
        r.push(c);
        proof {
            assert(r@ =~= s@.take(i + 1));
        }
        i = i + 1;
    }
    proof {
        assert(s@.take(n as int) =~= s@);
    }
    r
}

/// Copy of the characters between two positions.
pub fn subvec(v: &Vec<char>, a: usize, b: usize) -> (r: Vec<char>)
    requires
        a <= b <= v@.len(),
    ensures
        r@ == v@.subrange(a as int, b as int),
{
    let mut r: Vec<char> = Vec::new();
    let mut i: usize = a;
    while i < b
        invariant
            a <= i <= b <= v@.len(),
            r@ == v@.subrange(a as int, i as int),
        decreases b - i,
    {
        let c = v[i];
        r.push(c);
        proof {
            assert(r@ =~= v@.subrange(a as int, i + 1));
        }
        i = i + 1;
    }
    r
}

/// First position of `c` at or after `from`, or the length when absent;
/// the result names `spec_find_char` on the suffix.
pub fn find_char_from(v: &Vec<char>, c: char, from: usize) -> (r: usize)
    requires
        from <= v@.len(),
    ensures
        r as int == from + spec_find_char(v@.skip(from as int), c),
        from <= r <= v@.len(),
        r < v@.len() ==> v@[r as int] == c,
        forall|i: int| from <= i < r ==> v@[i] != c,
{
    let n = v.len();
    let mut i: usize = from;
    while i < n
        invariant
            from <= i <= n,
            n == v@.len(),
            forall|m: int| from <= m < i ==> v@[m] != c,
        decreases n - i,
    {
        if v[i] == c {
            proof {
                lemma_find_char_at(v@.skip(from as int), c, i - from);
            }
            return i;
        }
        i = i + 1;
    }
    proof {
        lemma_find_char_at(v@.skip(from as int), c, n - from);
    }
    n
}

/// Pin `spec_find_char` to a witnessed first occurrence.
proof fn lemma_find_char_at(s: Seq<char>, c: char, k: int)
    requires
        0 <= k <= s.len(),
        forall|i: int| 0 <= i < k ==> s[i] != c,
        k < s.len() ==> s[k] == c,
    ensures
        spec_find_char(s, c) == k,
{
    lemma_find_char_character(s, c);
    let f = spec_find_char(s, c);
    if f < k {
        assert(s[f] != c);
    }
    if k < f {
        assert(s[k] != c);
    }
}

/// Pin `spec_find_ws` to a witnessed first whitespace position.
proof fn lemma_find_ws_at(s: Seq<char>, k: int)
    requires
        0 <= k <= s.len(),
        forall|i: int| 0 <= i < k ==> !is_ws(s[i]),
        k < s.len() ==> is_ws(s[k]),
    ensures
        spec_find_ws(s) == k,
{
    lemma_find_ws_character(s);
    let f = spec_find_ws(s);
    if f < k {
        assert(!is_ws(s[f]));
    }
    if k < f {
        assert(!is_ws(s[k]));
    }
}

/// The lines of the text, matching `spec_lines`.
pub fn lines_of(v: &Vec<char>) -> (r: Vec<Vec<char>>)
    ensures
        r.deep_view() == spec_lines(v@),
{
    let n = v.len();
    let mut r: Vec<Vec<char>> = Vec::new();
    let mut i: usize = 0;
    proof {
        assert(v@.skip(0) =~= v@);
        assert(r.deep_view() + spec_lines(v@) =~~= spec_lines(v@));
    }
    while i < n
        invariant
            i <= n,
            n == v@.len(),
            r.deep_view() + spec_lines(v@.skip(i as int)) == spec_lines(v@),
        decreases n - i,
    {
        let j = find_char_from(v, '\n', i);
        let mut end = j;
        if j < n && j > i && v[j - 1] == '\r' {
            end = j - 1;
        }
        let line = subvec(v, i, end);
        let ghost prev = r.deep_view();
        r.push(line);
        proof {
            assert(r.deep_view() =~~= prev.push(line@));
            let s = v@.skip(i as int);
            let k = spec_find_char(s, '\n');
            assert(k == j - i);
            assert(s.take(k) =~= v@.subrange(i as int, j as int));
            if k == s.len() {
                assert(s =~= v@.subrange(i as int, n as int));
            } else if j > i && v@[j - 1] == '\r' {
                assert(spec_strip_cr(s.take(k)) =~= v@.subrange(i as int, j - 1));
            } else {
                assert(spec_strip_cr(s.take(k)) =~= v@.subrange(i as int, j as int));
            }
            if k < s.len() {
                assert(s.skip(k + 1) =~= v@.skip(j + 1));
                assert(spec_lines(s) == seq![spec_strip_cr(s.take(k))] + spec_lines(s.skip(k + 1)));
                assert(r.deep_view() + spec_lines(v@.skip(j + 1)) =~~= prev + spec_lines(s));
            } else {
                assert(spec_lines(s) == seq![s]);
                assert(v@.skip(n as int).len() == 0);
                assert(r.deep_view() + spec_lines(v@.skip(n as int)) =~~= prev + spec_lines(s));
            }
        }
        if j < n {
            i = j + 1;
        } else {
            i = n;
        }
    }
    proof {
        assert(v@.skip(n as int).len() == 0);
        assert(r.deep_view() =~~= r.deep_view() + spec_lines(v@.skip(n as int)));
    }
    r
}

/// Parse an unsigned decimal field, matching `spec_parse_u64`.
pub fn parse_u64_chars(v: &Vec<char>) -> (r: Option<u64>)
    ensures
        r == spec_parse_u64(v@),
{
    let n = v.len();
    let start: usize = if n > 0 && v[0] == '+' {
        1
    } else {
        0
    };
    let ghost d = if v@.len() > 0 && v@[0] == '+' {
        v@.skip(1)
    } else {
        v@
    };
    proof {
        assert(d.len() == n - start);
        assert(forall|m: int| 0 <= m < d.len() ==> d[m] == v@[m + start]);
    }
    if n == start {
        return None;
    }
    let mut acc: u64 = 0;
    let mut i: usize = start;
    while i < n
        invariant
            start <= i <= n,
            n == v@.len(),
            start as int == if n > 0 && v@[0] == '+' { 1int } else { 0int },
            d == if v@.len() > 0 && v@[0] == '+' { v@.skip(1) } else { v@ },
            d.len() == n - start,
            forall|m: int| 0 <= m < d.len() ==> d[m] == v@[m + start],
            forall|m: int| 0 <= m < i - start ==> spec_digit(d[m]),
            acc as int == spec_digits_val(d.take(i - start)),
        decreases n - i,
    {
        let c = v[i];
        match digit_of(c) {
            None => {
                proof {
                    assert(d[i - start] == v@[i as int]);
                    assert(!spec_all_digits(d));
                }
                return None;
            },
            Some(dv) => {
                proof {
                    lemma_take_step(d, i - start);
                    lemma_digits_val_nonneg(d.take(i - start));
                }
                if acc > (u64::MAX - dv) / 10 {
                    proof {
                        vstd::arithmetic::div_mod::lemma_fundamental_div_mod(
                            (u64::MAX - dv) as int,
                            10,
                        );
                        vstd::arithmetic::div_mod::lemma_mod_division_less_than_divisor(
                            (u64::MAX - dv) as int,
                            10,
                        );
                        assert(acc as int * 10 + dv as int > u64::MAX as int);
                        assert(spec_digits_val(d.take(i - start + 1)) > u64::MAX as int);
                        lemma_digits_val_prefix_le(d, i - start + 1);
                    }
                    return None;
                }
                proof {
                    vstd::arithmetic::div_mod::lemma_fundamental_div_mod(
                        (u64::MAX - dv) as int,
                        10,
                    );
                    vstd::arithmetic::div_mod::lemma_mod_division_less_than_divisor(
                        (u64::MAX - dv) as int,
                        10,
                    );
                }
                acc = acc * 10 + dv;
                i = i + 1;
            },
        }
    }
    proof {
        assert(d.take(n - start) =~= d);
        assert(spec_all_digits(d));
    }
    Some(acc)
}

/// One more character on the right multiplies the value by ten and adds the
/// digit.
proof fn lemma_take_step(s: Seq<char>, j: int)
    requires
        0 <= j < s.len(),
    ensures
        spec_digits_val(s.take(j + 1)) == spec_digits_val(s.take(j)) * 10 + spec_digit_val(s[j]),
{
    let t = s.take(j + 1);
    assert(t.drop_last() =~= s.take(j));
    assert(t.last() == s[j]);
}

/// Exact powers of ten, matching `spec_pow10`.
fn pow10_at(k: u64) -> (r: u64)
    requires
        k <= 6,
    ensures
        r as int == spec_pow10(k as int),
{
    if k == 0 {
        1
    } else if k == 1 {
        10
    } else if k == 2 {
        100
    } else if k == 3 {
        1_000
    } else if k == 4 {
        10_000
    } else if k == 5 {
        100_000
    } else {
        1_000_000
    }
}

/// Parse a plain decimal literal into fixed point, matching
/// `spec_parse_micro`.
#[verifier::rlimit(100)]
#[verifier::spinoff_prover]
#[verifier::loop_isolation(false)]
pub fn parse_micro_chars(v: &Vec<char>) -> (r: Option<i64>)
    ensures
        r == spec_parse_micro(v@),
{
    let n = v.len();
    if n == 0 {
        return None;
    }
    let neg = v[0] == '-';
    let start: usize = if v[0] == '-' || v[0] == '+' {
        1
    } else {
        0
    };
    let ghost b = if v@[0] == '-' || v@[0] == '+' {
        v@.skip(1)
    } else {
        v@
    };
    proof {
        assert(b.len() == n - start);
        assert(forall|m: int| 0 <= m < b.len() ==> b[m] == v@[m + start]);
    }
    let dot = find_char_from(v, '.', start);
    let ghost bdot = spec_find_char(b, '.');
    proof {
        lemma_find_char_character(b, '.');
        lemma_find_char_at(b, '.', dot - start);
        assert(bdot == dot - start);
    }
    let ghost ip = b.take(bdot);
    let ghost fp = if bdot < b.len() {
        b.skip(bdot + 1)
    } else {
        Seq::<char>::empty()
    };
    let frac_len: usize = if dot < n {
        n - dot - 1
    } else {
        0
    };
    if dot == start && frac_len == 0 {
        return None;
    }
    // whole part
    let mut acc: u64 = 0;
    let mut i: usize = start;
    proof {
        assert(ip.len() == dot - start);
        assert(forall|m: int| 0 <= m < ip.len() ==> ip[m] == v@[m + start]);
    }
    while i < dot
        invariant
            start <= i <= dot <= n,
            n == v@.len(),
            ip.len() == dot - start,
            forall|m: int| 0 <= m < ip.len() ==> ip[m] == v@[m + start],
            forall|m: int| 0 <= m < i - start ==> spec_digit(ip[m]),
            acc as int == spec_digits_val(ip.take(i - start)),
            acc <= 9_000_000_000_000,
        decreases dot - i,
    {
        let c = v[i];
        match digit_of(c) {
            None => {
                proof {
                    assert(ip[i - start] == v@[i as int]);
                    assert(!spec_all_digits(ip));
                }
                return None;
            },
            Some(dv) => {
                proof {
                    lemma_take_step(ip, i - start);
                    lemma_digits_val_nonneg(ip.take(i - start));
                }
                if acc > 900_000_000_000 || acc * 10 + dv > 9_000_000_000_000 {
                    proof {
                        assert(spec_digits_val(ip.take(i - start + 1)) > spec_int_part_cap());
                        lemma_digits_val_prefix_le(ip, i - start + 1);
                    }
                    return None;
                }
                acc = acc * 10 + dv;
                i = i + 1;
            },
        }
    }
    proof {
        assert(ip.take(dot - start) =~= ip);
        assert(spec_all_digits(ip));
    }
    // fraction part: value of the first six digits, every digit checked
    let mut facc: u64 = 0;
    let mut taken: usize = 0;
    let mut j: usize = if dot < n {
        dot + 1
    } else {
        n
    };
    let fbase: usize = j;
    proof {
        assert(fp.len() == n - fbase);
        assert(forall|m: int| 0 <= m < fp.len() ==> fp[m] == v@[m + fbase]);
    }
    while j < n
        invariant
            fbase <= j <= n,
            n == v@.len(),
            fp.len() == n - fbase,
            forall|m: int| 0 <= m < fp.len() ==> fp[m] == v@[m + fbase],
            forall|m: int| 0 <= m < j - fbase ==> spec_digit(fp[m]),
            taken == if j - fbase < 6 { j - fbase } else { 6 },
            facc as int == spec_digits_val(fp.take(taken as int)),
            facc < 1_000_000,
        decreases n - j,
    {
        let c = v[j];
        match digit_of(c) {
            None => {
                proof {
                    assert(fp[j - fbase] == v@[j as int]);
                    assert(!spec_all_digits(fp));
                }
                return None;
            },
            Some(dv) => {
                if taken < 6 {
                    proof {
                        lemma_take_step(fp, taken as int);
                        assert(spec_all_digits(fp.take(taken as int))) by {
                            assert(forall|m: int|
                                0 <= m < taken as int ==> fp.take(taken as int)[m] == fp[m]);
                        };
                        lemma_digits_val_upper(fp.take(taken as int));
                    }
                    facc = facc * 10 + dv;
                    taken = taken + 1;
                }
                j = j + 1;
            },
        }
    }
    proof {
        assert(spec_all_digits(fp));
        if fp.len() >= 6 {
            assert(taken == 6);
        } else {
            assert(taken as int == fp.len());
            assert(fp.take(taken as int) =~= fp);
        }
    }
    let scale_digits: u64 = 6 - (taken as u64);
    let fmicro: u64 = facc * pow10_at(scale_digits);
    proof {
        let k = if fp.len() < 6 { fp.len() as int } else { 6 };
        assert(taken as int == k);
        assert(fmicro as int == spec_frac_micro(fp));
        assert(fmicro < 1_000_000) by {
            assert(spec_all_digits(fp.take(k))) by {
                assert(forall|m: int| 0 <= m < k ==> fp.take(k)[m] == fp[m]);
            };
            lemma_digits_val_upper(fp.take(k));
            let pk = spec_pow10(k);
            let pk6 = spec_pow10(6 - k);
            lemma_pow10_product(k);
            let fv = facc as int;
            assert(fv * pk6 < 1_000_000) by (nonlinear_arith)
                requires
                    0 <= fv,
                    fv < pk,
                    pk * pk6 == 1_000_000,
                    pk6 > 0,
            ;
        };
    }
    let mag: u64 = acc * 1_000_000 + fmicro;
    if neg {
        let out: i64 = -(mag as i64);
        Some(out)
    } else {
        Some(mag as i64)
    }
}

/// A string of `k` digits denotes less than `10^k` (stated for the sizes the
/// fraction scanner uses).
proof fn lemma_digits_val_upper(s: Seq<char>)
    requires
        s.len() <= 6,
        spec_all_digits(s),
    ensures
        spec_digits_val(s) < spec_pow10(s.len() as int),
    decreases s.len(),
{
    if s.len() > 0 {
        let p = s.drop_last();
        assert(spec_all_digits(p)) by {
            assert(forall|i: int| 0 <= i < p.len() ==> p[i] == s[i]);
        };
        lemma_digits_val_upper(p);
        lemma_digits_val_nonneg(p);
        assert(spec_digit(s.last()));
        assert(spec_pow10(p.len() as int) * 10 == spec_pow10(s.len() as int));
    }
}

/// Each entry of a vector of character vectors is, deeply viewed, its own
/// character sequence.
pub proof fn lemma_deep_view_chars(v: &Vec<Vec<char>>)
    ensures
        v.deep_view().len() == v@.len(),
        forall|i: int| 0 <= i < v@.len() ==> #[trigger] v.deep_view()[i] == v@[i]@,
{
    assert forall|i: int| 0 <= i < v@.len() implies #[trigger] v.deep_view()[i] == v@[i]@ by {
        assert(v@[i].deep_view() =~= v@[i]@);
    }
}

/// `s` with every trailing occurrence of `c` removed.
pub open spec fn spec_strip_trailing(s: Seq<char>, c: char) -> Seq<char>
    decreases s.len(),
{
    if s.len() > 0 && s.last() == c {
        spec_strip_trailing(s.drop_last(), c)
    } else {
        s
    }
}

/// Copy of the text with every trailing occurrence of `c` removed, matching
/// `spec_strip_trailing`.
pub fn strip_trailing(v: &Vec<char>, c: char) -> (r: Vec<char>)
    ensures
        r@ == spec_strip_trailing(v@, c),
{
    let n = v.len();
    let mut b: usize = n;
    proof {
        assert(v@.take(n as int) =~= v@);
    }
    while b > 0 && v[b - 1] == c
        invariant
            b <= n,
            n == v@.len(),
            spec_strip_trailing(v@, c) == spec_strip_trailing(v@.take(b as int), c),
        decreases b,
    {
        proof {
            assert(v@.take(b as int).last() == v@[b - 1]);
            assert(v@.take(b as int).drop_last() =~= v@.take(b - 1));
        }
        b = b - 1;
    }
    proof {
        let t = v@.take(b as int);
        if b > 0 {
            assert(t.last() == v@[b - 1]);
        }
        assert(spec_strip_trailing(t, c) == t);
    }
    subvec(v, 0, b)
}

/// Addition that sticks at the largest machine word, the way the counter
/// sums in this library avoid wrapping.
pub open spec fn spec_sat_add_u64(a: int, b: int) -> int {
    if a + b > u64::MAX {
        u64::MAX as int
    } else {
        a + b
    }
}

/// Saturating add on machine words, matching `spec_sat_add_u64`.
pub fn sat_add_u64(a: u64, b: u64) -> (r: u64)
    ensures
        r as int == spec_sat_add_u64(a as int, b as int),
{
    if a > u64::MAX - b {
        u64::MAX
    } else {
        a + b
    }
}

/// Whether the text begins with the given literal.
pub fn starts_with_lit(v: &Vec<char>, p: &str) -> (r: bool)
    ensures
        r == spec_starts_with(v@, p@),
{
    let m = p.unicode_len();
    let n = v.len();
    if m > n {
        return false;
    }
    let mut t: usize = 0;
    while t < m
        invariant
            t <= m <= n,
            m == p@.len(),
            n == v@.len(),
            forall|i: int| 0 <= i < t ==> v@[i] == p@[i],
        decreases m - t,
    {
        if v[t] != p.get_char(t) {
            proof {
                assert(v@.take(m as int)[t as int] != p@[t as int]);
            }
            return false;
        }
        t = t + 1;
    }
    proof {
        assert(v@.take(m as int) =~= p@);
    }
    true
}

/// Whether the text and the literal are the same characters.
pub fn eq_lit(v: &Vec<char>, p: &str) -> (r: bool)
    ensures
        r == (v@ == p@),
{
    let m = p.unicode_len();
    let n = v.len();
    if m != n {
        return false;
    }
    let mut t: usize = 0;
    while t < m
        invariant
            t <= m == n,
            m == p@.len(),
            n == v@.len(),
            forall|i: int| 0 <= i < t ==> v@[i] == p@[i],
        decreases m - t,
    {
        if v[t] != p.get_char(t) {
            return false;
        }
        t = t + 1;
    }
    proof {
        assert(v@ =~= p@);
    }
    true
}

/// Whether the literal occurs anywhere in the text.
pub fn contains_lit(v: &Vec<char>, p: &str) -> (r: bool)
    ensures
        r == spec_contains(v@, p@),
{
    let m = p.unicode_len();
    let n = v.len();
    if m > n {
        return false;
    }
    if m == 0 {
        proof {
            assert(v@.subrange(0, 0 + p@.len() as int) =~= p@);
        }
        return true;
    }
    let mut off: usize = 0;
    while off <= n - m
        invariant
            off <= n - m + 1,
            m <= n,
            m == p@.len(),
            n == v@.len(),
            forall|o: int|
                0 <= o < off ==> #[trigger] v@.subrange(o, o + p@.len()) != p@,
        decreases n - off,
    {
        let mut t: usize = 0;
        let mut hit = true;
        let ghost mut wit: int = 0;
        while t < m
            invariant
                t <= m,
                off <= n - m,
                m <= n,
                m == p@.len(),
                n == v@.len(),
                hit ==> forall|i: int| 0 <= i < t ==> v@[off + i] == p@[i],
                !hit ==> 0 <= wit < m && v@[off + wit] != p@[wit],
            decreases m - t,
        {
            if v[off + t] != p.get_char(t) {
                hit = false;
                proof {
                    wit = t as int;
                }
                t = m;
            } else {
                t = t + 1;
            }
        }
        if hit {
            proof {
                assert(v@.subrange(off as int, off + p@.len()) =~= p@);
            }
            return true;
        }
        proof {
            assert(v@.subrange(off as int, off + p@.len())[wit] != p@[wit]);
            assert(v@.subrange(off as int, off + p@.len()) != p@);
        }
        off = off + 1;
    }
    proof {
        assert forall|o: int| 0 <= o && o + p@.len() <= v@.len() implies #[trigger] v@.subrange(
            o,
            o + p@.len(),
        ) != p@ by {
            assert(o < off);
        }
    }
    false
}

/// `spec_trim_start` removes exactly the leading whitespace run.
proof fn lemma_trim_start_at(s: Seq<char>, k: int)
    requires
        0 <= k <= s.len(),
        forall|i: int| 0 <= i < k ==> is_ws(s[i]),
        k < s.len() ==> !is_ws(s[k]),
    ensures
        spec_trim_start(s) == s.skip(k),
    decreases k,
{
    if k == 0 {
        assert(s.skip(0) =~= s);
    } else {
        assert(is_ws(s[0]));
        lemma_trim_start_at(s.skip(1), k - 1);
        assert(s.skip(1).skip(k - 1) =~= s.skip(k));
    }
}

/// `spec_trim_end` removes exactly the trailing whitespace run.
proof fn lemma_trim_end_at(s: Seq<char>, k: int)
    requires
        0 <= k <= s.len(),
        forall|i: int| k <= i < s.len() ==> is_ws(s[i]),
        k > 0 ==> !is_ws(s[k - 1]),
    ensures
        spec_trim_end(s) == s.take(k),
    decreases s.len(),
{
    if k == s.len() {
        assert(s.take(k) =~= s);
    } else {
        assert(is_ws(s.last()));
        let p = s.drop_last();
        lemma_trim_end_at(p, k);
        assert(p.take(k) =~= s.take(k));
    }
}

/// Copy of the text with whitespace removed from both ends, matching
/// `spec_trim`.
pub fn trim_of(v: &Vec<char>) -> (r: Vec<char>)
    ensures
        r@ == spec_trim(v@),
{
    let n = v.len();
    let mut a: usize = 0;
    while a < n && is_ws_char(v[a])
        invariant
            a <= n,
            n == v@.len(),
            forall|i: int| 0 <= i < a ==> is_ws(v@[i]),
        decreases n - a,
    {
        a = a + 1;
    }
    proof {
        lemma_trim_start_at(v@, a as int);
    }
    if a == n {
        let r: Vec<char> = Vec::new();
        proof {
            assert(v@.skip(a as int).len() == 0);
            assert(spec_trim_end(v@.skip(a as int)) == v@.skip(a as int));
            assert(r@ =~= spec_trim(v@));
        }
        return r;
    }
    let mut b: usize = n;
    while b > a + 1 && is_ws_char(v[b - 1])
        invariant
            a < b <= n,
            n == v@.len(),
            forall|i: int| b <= i < n ==> is_ws(v@[i]),
        decreases b,
    {
        b = b - 1;
    }
    proof {
        let s = v@.skip(a as int);
        assert(!is_ws(s[0]));
        assert(forall|i: int| b - a <= i < s.len() ==> is_ws(s[i]));
        assert(!is_ws(s[b - a - 1]));
        lemma_trim_end_at(s, b - a);
        assert(s.take(b - a) =~= v@.subrange(a as int, b as int));
    }
    subvec(v, a, b)
}

/// The whitespace-separated tokens of the text, matching `spec_tokens`.
pub fn tokens_of(v: &Vec<char>) -> (r: Vec<Vec<char>>)
    ensures
        r.deep_view() == spec_tokens(v@),
{
    let n = v.len();
    let mut r: Vec<Vec<char>> = Vec::new();
    let mut i: usize = 0;
    proof {
        assert(v@.skip(0) =~= v@);
        assert(r.deep_view() + spec_tokens(v@) =~~= spec_tokens(v@));
    }
    while i < n
        invariant
            i <= n,
            n == v@.len(),
            r.deep_view() + spec_tokens(v@.skip(i as int)) == spec_tokens(v@),
        decreases n - i,
    {
        if is_ws_char(v[i]) {
            proof {
                let s = v@.skip(i as int);
                assert(s[0] == v@[i as int]);
                assert(s.skip(1) =~= v@.skip(i + 1));
            }
            i = i + 1;
        } else {
            let start = i;
            let mut j = i;
            while j < n && !is_ws_char(v[j])
                invariant
                    start <= j <= n,
                    n == v@.len(),
                    forall|m: int| start <= m < j ==> !is_ws(v@[m]),
                decreases n - j,
            {
                j = j + 1;
            }
            let tok = subvec(v, start, j);
            let ghost prev = r.deep_view();
            r.push(tok);
            proof {
                assert(r.deep_view() =~~= prev.push(tok@));
                let s = v@.skip(start as int);
                assert forall|m: int| 0 <= m < j - start implies !is_ws(s[m]) by {
                    assert(s[m] == v@[start + m]);
                }
                if j < n {
                    assert(s[j - start] == v@[j as int]);
                }
                lemma_find_ws_at(s, j - start);
                assert(!is_ws(s[0]));
                assert(s.take(j - start) =~= v@.subrange(start as int, j as int));
                assert(s.skip(j - start) =~= v@.skip(j as int));
                assert(spec_tokens(s) == seq![s.take(j - start)] + spec_tokens(s.skip(j - start)));
                assert(r.deep_view() + spec_tokens(v@.skip(j as int)) =~~= prev + spec_tokens(s));
            }
            i = j;
        }
    }
    proof {
        assert(v@.skip(n as int).len() == 0);
        assert(r.deep_view() =~~= r.deep_view() + spec_tokens(v@.skip(n as int)));
    }
    r
}

} // verus!
