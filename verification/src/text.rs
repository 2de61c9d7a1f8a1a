//! String routines: building strings, decimal integers in and out,
//! whitespace trimming, and the hex text of object handles.

use vstd::prelude::*;

verus! {

/// `String::push`: appends one character.
#[verifier::external_body]
pub(crate) fn push_char(s: &mut String, c: char)
    ensures
        final(s)@ == old(s)@.push(c),
{
    s.push(c);
}

/// `str == str`: the same characters in the same order.
pub(crate) fn str_eq(a: &str, b: &str) -> (r: bool)
    ensures
        r == (a@ == b@),
{
    let n = a.unicode_len();
    if n != b.unicode_len() {
        return false;
    }
    let mut i: usize = 0;
    while i < n
        invariant
            n == a@.len(),
            n == b@.len(),
            i <= n,
            forall|k: int| 0 <= k < i ==> a@[k] == b@[k],
        decreases n - i,
    {
        if a.get_char(i) != b.get_char(i) {
            return false;
        }
        i = i + 1;
    }
    assert(a@ =~= b@);
    true
}

/// The characters of a string, one by one.
pub fn chars_of(s: &str) -> (r: Vec<char>)
    ensures
        r@ == s@,
{
    let n = s.unicode_len();
    let mut out: Vec<char> = Vec::new();
    let mut i: usize = 0;
    while i < n
        invariant
            n == s@.len(),
            i <= n,
            out@ == s@.subrange(0, i as int),
        decreases n - i,
    {
        out.push(s.get_char(i));
        i = i + 1;
        assert(out@ =~= s@.subrange(0, i as int));
    }
    assert(out@ =~= s@);
    out
}

/// A string holding the characters `cs[from..to]`.
pub fn string_of(cs: &Vec<char>, from: usize, to: usize) -> (r: String)
    requires
        from <= to <= cs@.len(),
    ensures
        r@ == cs@.subrange(from as int, to as int),
{
    let mut out = String::new();
    let mut i = from;
    while i < to
        invariant
            from <= i <= to <= cs@.len(),
            out@ == cs@.subrange(from as int, i as int),
        decreases to - i,
    {
        push_char(&mut out, cs[i]);
        i = i + 1;
        assert(out@ =~= cs@.subrange(from as int, i as int));
    }
    out
}

// ---------------------------------------------------------------------
// Decimal integers
// ---------------------------------------------------------------------

/// The decimal digit characters.
pub open spec fn digit_chars() -> Seq<char> {
    seq!['0', '1', '2', '3', '4', '5', '6', '7', '8', '9']
}

/// Decimal text of a natural number, without leading zeros.
pub open spec fn decimal(n: nat) -> Seq<char>
    decreases n,
{
    if n < 10 {
        seq![digit_chars()[n as int]]
    } else {
        decimal(n / 10).push(digit_chars()[(n % 10) as int])
    }
}

/// Decimal text of an integer, with a leading `-` when negative.
pub open spec fn int_decimal(v: int) -> Seq<char> {
    if v < 0 {
        seq!['-'] + decimal((-v) as nat)
    } else {
        decimal(v as nat)
    }
}

/// `s` left-padded with `'0'` to at least `w` characters.
pub open spec fn zero_pad(s: Seq<char>, w: int) -> Seq<char> {
    if s.len() >= w {
        s
    } else {
        Seq::new((w - s.len()) as nat, |i: int| '0') + s
    }
}

/// Decimal text of `v` zero-padded to width `w`, the sign counting in the
/// width (the `{:0w}` format of Rust).
pub open spec fn int_decimal_padded(v: int, w: int) -> Seq<char> {
    if v < 0 {
        seq!['-'] + zero_pad(decimal((-v) as nat), w - 1)
    } else {
        zero_pad(decimal(v as nat), w)
    }
}

fn digit_char(d: u64) -> (c: char)
    requires
        d < 10,
    ensures
        c == digit_chars()[d as int],
{
    match d {
        0 => '0',
        1 => '1',
        2 => '2',
        3 => '3',
        4 => '4',
        5 => '5',
        6 => '6',
        7 => '7',
        8 => '8',
        _ => '9',
    }
}

/// Appends the decimal text of `n`.
pub fn push_decimal(out: &mut String, n: u64)
    ensures
        final(out)@ == old(out)@ + decimal(n as nat),
    decreases n,
{
    if n >= 10 {
        push_decimal(out, n / 10);
    }
    push_char(out, digit_char(n % 10));
    assert(final(out)@ =~= old(out)@ + decimal(n as nat));
}

/// Appends `count` zero characters.
fn push_zeros(out: &mut String, count: usize)
    ensures
        final(out)@ == old(out)@ + Seq::new(count as nat, |i: int| '0'),
{
    let mut i: usize = 0;
    while i < count
        invariant
            i <= count,
            out@ == old(out)@ + Seq::new(i as nat, |k: int| '0'),
        decreases count - i,
    {
        push_char(out, '0');
        i = i + 1;
        assert(out@ =~= old(out)@ + Seq::new(i as nat, |k: int| '0'));
    }
}

/// Ten to the power `k`.
pub open spec fn pow10(k: nat) -> nat
    decreases k,
{
    if k == 0 {
        1
    } else {
        10 * pow10((k - 1) as nat)
    }
}

proof fn lemma_decimal_len(n: nat, k: nat)
    requires
        k >= 1,
        n < pow10(k),
    ensures
        decimal(n).len() <= k,
    decreases k,
{
    if n >= 10 {
        assert(k >= 2) by {
            if k == 1 {
                reveal_with_fuel(pow10, 2);
            }
        }
        assert(n / 10 < pow10((k - 1) as nat)) by (nonlinear_arith)
            requires
                n < 10 * pow10((k - 1) as nat),
        ;
        lemma_decimal_len(n / 10, (k - 1) as nat);
    }
}

/// Number of decimal digits of `n`.
fn decimal_len(n: u64) -> (r: usize)
    ensures
        r == decimal(n as nat).len(),
    decreases n,
{
    proof {
        assert(pow10(20) == 100000000000000000000) by {
            reveal_with_fuel(pow10, 21);
        }
        lemma_decimal_len(n as nat, 20);
    }
    if n < 10 {
        1
    } else {
        let k = decimal_len(n / 10);
        k + 1
    }
}

/// Decimal text of `v` zero-padded to width `w`, as Rust's `{:0w}` writes it.
pub fn format_int_padded(v: i64, w: usize) -> (r: String)
    ensures
        r@ == int_decimal_padded(v as int, w as int),
{
    let mut out = String::new();
    let (mag, width): (u64, usize) = if v < 0 {
        push_char(&mut out, '-');
        ((-(v as i128)) as u64, if w >= 1 { w - 1 } else { 0 })
    } else {
        (v as u64, w)
    };
    let len = decimal_len(mag);
    if len < width {
        push_zeros(&mut out, width - len);
    }
    push_decimal(&mut out, mag);
    proof {
        if v < 0 {
            assert(out@ =~= int_decimal_padded(v as int, w as int));
        } else {
            assert(out@ =~= int_decimal_padded(v as int, w as int));
        }
    }
    out
}

/// Decimal text of `v`, as `v.to_string()` writes it.
pub fn format_int(v: i64) -> (r: String)
    ensures
        r@ == int_decimal(v as int),
{
    let r = format_int_padded(v, 0);
    proof {
        if v < 0 {
            assert(r@ =~= int_decimal(v as int));
        }
    }
    r
}

// ---------------------------------------------------------------------
// Parsing decimal integers
// ---------------------------------------------------------------------

/// Every character is an ASCII digit.
pub open spec fn all_digits(s: Seq<char>) -> bool {
    forall|i: int| 0 <= i < s.len() ==> '0' <= #[trigger] s[i] <= '9'
}

/// Value of a run of ASCII digits.
pub open spec fn digits_value(s: Seq<char>) -> int
    decreases s.len(),
{
    if s.len() == 0 {
        0
    } else {
        digits_value(s.drop_last()) * 10 + (s.last() as int - '0' as int)
    }
}

/// The decimal text of a number is a run of digits worth that number.
pub proof fn lemma_decimal_digits(n: nat)
    ensures
        decimal(n).len() >= 1,
        all_digits(decimal(n)),
        digits_value(decimal(n)) == n,
    decreases n,
{
    let d = decimal(n);
    let k = (n % 10) as int;
    assert(digit_chars()[k] as int == '0' as int + k && '0' <= digit_chars()[k] <= '9') by {
        assert(0 <= k < 10);
        if k == 0 {} else if k == 1 {} else if k == 2 {} else if k == 3 {} else if k == 4 {}
        else if k == 5 {} else if k == 6 {} else if k == 7 {} else if k == 8 {} else {}
    }
    assert(n == (n / 10) * 10 + n % 10);
    if n < 10 {
        assert(d.drop_last() =~= Seq::<char>::empty());
        assert(d.last() == digit_chars()[k]);
        assert(digits_value(d) == digits_value(d.drop_last()) * 10 + (d.last() as int - '0' as int));
    } else {
        lemma_decimal_digits(n / 10);
        assert(d.drop_last() =~= decimal(n / 10));
        assert(d.last() == digit_chars()[k]);
        assert(digits_value(d) == digits_value(d.drop_last()) * 10 + (d.last() as int - '0' as int));
        assert(all_digits(d)) by {
            assert forall|i: int| 0 <= i < d.len() implies '0' <= #[trigger] d[i] <= '9' by {
                if i < d.len() - 1 {
                    assert(d[i] == decimal(n / 10)[i]);
                }
            }
        }
    }
}

/// Leading zeros change neither the value of a digit run nor that it is
/// one.
pub proof fn lemma_zero_prefix_value(k: nat, s: Seq<char>)
    ensures
        digits_value(Seq::new(k, |i: int| '0') + s) == digits_value(s),
        all_digits(s) ==> all_digits(Seq::new(k, |i: int| '0') + s),
    decreases s.len(), k,
{
    let z = Seq::new(k, |i: int| '0');
    if s.len() == 0 {
        assert(z + s =~= z);
        if k > 0 {
            let z1 = Seq::new((k - 1) as nat, |i: int| '0');
            assert(z.drop_last() =~= z1 + s);
            lemma_zero_prefix_value((k - 1) as nat, s);
        }
    } else {
        assert((z + s).drop_last() =~= z + s.drop_last());
        lemma_zero_prefix_value(k, s.drop_last());
    }
}

/// The zero-padded decimal text of a natural number is a run of digits
/// worth that number.
pub proof fn lemma_padded_digits(v: int, w: int)
    requires
        v >= 0,
    ensures
        int_decimal_padded(v, w).len() >= 1,
        all_digits(int_decimal_padded(v, w)),
        digits_value(int_decimal_padded(v, w)) == v,
{
    let d = decimal(v as nat);
    lemma_decimal_digits(v as nat);
    if d.len() < w {
        lemma_zero_prefix_value((w - d.len()) as nat, d);
    }
}

/// A run of digits whose value fits in an `i32` parses as that value.
pub proof fn lemma_parse_digit_run(s: Seq<char>)
    requires
        s.len() >= 1,
        all_digits(s),
        digits_value(s) <= i32::MAX,
    ensures
        parse_i32_spec(s) == Some(digits_value(s) as i32),
{
    lemma_digits_value_nonneg(s);
    assert('0' <= s[0] <= '9');
}

/// A digit is neither whitespace nor a dash.
pub proof fn lemma_digit_not_white(c: char)
    requires
        '0' <= c <= '9',
    ensures
        !is_white_space(c),
        c != '-',
{
}

/// What `str::parse` accepts as an integer: an optional `+` or `-` sign
/// followed by at least one ASCII digit, and nothing else.
pub open spec fn parse_int_spec(s: Seq<char>) -> Option<int> {
    if s.len() >= 2 && s[0] == '-' && all_digits(s.drop_first()) {
        Some(-digits_value(s.drop_first()))
    } else if s.len() >= 2 && s[0] == '+' && all_digits(s.drop_first()) {
        Some(digits_value(s.drop_first()))
    } else if s.len() >= 1 && all_digits(s) {
        Some(digits_value(s))
    } else {
        None
    }
}

/// The value `parse::<T>()` gives back for a type whose range is
/// `lo..=hi`: the integer when it is in range, else nothing.
pub open spec fn parse_in_range(s: Seq<char>, lo: int, hi: int) -> Option<int> {
    match parse_int_spec(s) {
        Some(v) => if lo <= v <= hi {
            Some(v)
        } else {
            None
        },
        None => None,
    }
}

proof fn lemma_digits_value_nonneg(s: Seq<char>)
    requires
        all_digits(s),
    ensures
        digits_value(s) >= 0,
    decreases s.len(),
{
    if s.len() > 0 {
        assert(all_digits(s.drop_last()));
        lemma_digits_value_nonneg(s.drop_last());
    }
}

/// The cap above which the running value of a digit run is no longer tracked.
pub open spec fn digits_cap() -> int {
    0x1_0000_0000_0000_0000
}

/// Value of the digit run `cs[from..to]`, capped at 2^64.
fn digits_capped(cs: &Vec<char>, from: usize, to: usize) -> (r: (bool, u128))
    requires
        from <= to <= cs@.len(),
    ensures
        r.0 == all_digits(cs@.subrange(from as int, to as int)),
        r.0 ==> r.1 == (if digits_value(cs@.subrange(from as int, to as int)) < digits_cap() {
            digits_value(cs@.subrange(from as int, to as int))
        } else {
            digits_cap()
        }),
{
    let cap: u128 = 0x1_0000_0000_0000_0000;
    let mut acc: u128 = 0;
    let mut i = from;
    while i < to
        invariant
            from <= i <= to <= cs@.len(),
            cap == digits_cap(),
            all_digits(cs@.subrange(from as int, i as int)),
            acc == (if digits_value(cs@.subrange(from as int, i as int)) < digits_cap() {
                digits_value(cs@.subrange(from as int, i as int))
            } else {
                digits_cap()
            }),
        decreases to - i,
    {
        let c = cs[i];
        if !('0' <= c && c <= '9') {
            assert(!all_digits(cs@.subrange(from as int, to as int))) by {
                assert(cs@.subrange(from as int, to as int)[i - from] == c);
            }
            return (false, 0);
        }
        let d: u128 = (c as u32 - '0' as u32) as u128;
        let ghost prev = cs@.subrange(from as int, i as int);
        let ghost next = cs@.subrange(from as int, i + 1);
        assert(next.drop_last() =~= prev);
        assert(next.last() == c);
        assert(all_digits(next)) by {
            assert forall|k: int| 0 <= k < next.len() implies '0' <= #[trigger] next[k] <= '9' by {
                if k < prev.len() {
                    assert(next[k] == prev[k]);
                }
            }
        }
        proof {
            lemma_digits_value_nonneg(prev);
        }
        if acc >= cap {
            assert(digits_value(next) >= digits_cap()) by (nonlinear_arith)
                requires
                    digits_value(next) == digits_value(prev) * 10 + d,
                    digits_value(prev) >= digits_cap(),
                    d >= 0,
            ;
        } else {
            let v = acc * 10 + d;
            if v >= cap {
                acc = cap;
            } else {
                acc = v;
            }
        }
        i = i + 1;
    }
    (true, acc)
}

/// `str::parse::<i64>`: the integer the text spells, when it is in range.
pub fn parse_i64(s: &str) -> (r: Option<i64>)
    ensures
        r == (match parse_in_range(s@, i64::MIN as int, i64::MAX as int) {
            Some(v) => Some(v as i64),
            None => None::<i64>,
        }),
{
    let cs = chars_of(s);
    let n = cs.len();
    assert(cs@.subrange(0, n as int) =~= s@);
    if n >= 2 && (cs[0] == '-' || cs[0] == '+') {
        let (ok, v) = digits_capped(&cs, 1, n);
        assert(cs@.subrange(1, n as int) =~= s@.drop_first());
        if !ok {
            assert(!all_digits(s@)) by {
                assert(!('0' <= s@[0] <= '9'));
            }
            return None;
        }
        proof {
            lemma_digits_value_nonneg(s@.drop_first());
        }
        if cs[0] == '-' {
            if v <= 0x8000_0000_0000_0000 {
                Some((-(v as i128)) as i64)
            } else {
                None
            }
        } else {
            if v <= 0x7fff_ffff_ffff_ffff {
                Some(v as i64)
            } else {
                None
            }
        }
    } else if n >= 1 {
        let (ok, v) = digits_capped(&cs, 0, n);
        if !ok {
            proof {
                if n >= 2 {
                    assert(s@[0] != '-' && s@[0] != '+');
                }
            }
            return None;
        }
        proof {
            lemma_digits_value_nonneg(s@);
            if n >= 2 {
                assert(s@[0] != '-' && s@[0] != '+');
            }
        }
        if v <= 0x7fff_ffff_ffff_ffff {
            Some(v as i64)
        } else {
            None
        }
    } else {
        None
    }
}

/// `str::parse::<i32>`: the integer the text spells, when it is in range.
pub fn parse_i32(s: &str) -> (r: Option<i32>)
    ensures
        r == (match parse_in_range(s@, i32::MIN as int, i32::MAX as int) {
            Some(v) => Some(v as i32),
            None => None::<i32>,
        }),
{
    match parse_i64(s) {
        Some(v) => if -0x8000_0000 <= v && v <= 0x7fff_ffff {
            Some(v as i32)
        } else {
            None
        },
        None => None,
    }
}

// ---------------------------------------------------------------------
// Whitespace
// ---------------------------------------------------------------------

/// The Unicode `White_Space` property, which `char::is_whitespace` and
/// `str::trim` go by.
pub open spec fn is_white_space(c: char) -> bool {
    let u = c as u32;
    ||| 0x9 <= u <= 0xd
    ||| u == 0x20
    ||| u == 0x85
    ||| u == 0xa0
    ||| u == 0x1680
    ||| 0x2000 <= u <= 0x200a
    ||| u == 0x2028
    ||| u == 0x2029
    ||| u == 0x202f
    ||| u == 0x205f
    ||| u == 0x3000
}

/// `char::is_whitespace`.
pub fn is_whitespace(c: char) -> (r: bool)
    ensures
        r == is_white_space(c),
{
    let u = c as u32;
    (0x9 <= u && u <= 0xd) || u == 0x20 || u == 0x85 || u == 0xa0 || u == 0x1680
        || (0x2000 <= u && u <= 0x200a) || u == 0x2028 || u == 0x2029 || u == 0x202f
        || u == 0x205f || u == 0x3000
}

/// First position at or after `i` that is not whitespace, else the length.
pub open spec fn skip_white(s: Seq<char>, i: int) -> int
    decreases s.len() - i,
{
    if i < 0 || i >= s.len() {
        s.len() as int
    } else if !is_white_space(s[i]) {
        i
    } else {
        skip_white(s, i + 1)
    }
}

/// End of `s[..j]` once trailing whitespace down to `lo` is cut.
pub open spec fn cut_white(s: Seq<char>, lo: int, j: int) -> int
    decreases j - lo,
{
    if j <= lo || j > s.len() {
        j
    } else if !is_white_space(s[j - 1]) {
        j
    } else {
        cut_white(s, lo, j - 1)
    }
}

/// `str::trim`: the text without leading and trailing whitespace.
pub open spec fn trimmed(s: Seq<char>) -> Seq<char> {
    let lo = skip_white(s, 0);
    s.subrange(lo, cut_white(s, lo, s.len() as int))
}

/// A text that neither starts nor ends with whitespace trims to itself.
pub proof fn lemma_trim_unchanged(s: Seq<char>)
    requires
        s.len() >= 1,
        !is_white_space(s[0]),
        !is_white_space(s.last()),
    ensures
        trimmed(s) == s,
{
    assert(skip_white(s, 0) == 0);
    assert(cut_white(s, 0, s.len() as int) == s.len());
    assert(s.subrange(0, s.len() as int) =~= s);
}

proof fn lemma_skip_white_bounds(s: Seq<char>, i: int)
    requires
        0 <= i <= s.len(),
    ensures
        i <= skip_white(s, i) <= s.len(),
    decreases s.len() - i,
{
    if i < s.len() && is_white_space(s[i]) {
        lemma_skip_white_bounds(s, i + 1);
    }
}

proof fn lemma_cut_white_bounds(s: Seq<char>, lo: int, j: int)
    requires
        0 <= lo <= j <= s.len(),
    ensures
        lo <= cut_white(s, lo, j) <= j,
    decreases j - lo,
{
    if j > lo && is_white_space(s[j - 1]) {
        lemma_cut_white_bounds(s, lo, j - 1);
    }
}

/// `str::trim`, as a new string.
pub fn trim(s: &str) -> (r: String)
    ensures
        r@ == trimmed(s@),
{
    let cs = chars_of(s);
    let n = cs.len();
    let mut lo: usize = 0;
    while lo < n && is_whitespace(cs[lo])
        invariant
            n == cs@.len(),
            cs@ == s@,
            lo <= n,
            skip_white(s@, 0) == skip_white(s@, lo as int),
        decreases n - lo,
    {
        lo = lo + 1;
    }
    let mut hi: usize = n;
    while hi > lo && is_whitespace(cs[hi - 1])
        invariant
            n == cs@.len(),
            cs@ == s@,
            lo <= hi <= n,
            lo == skip_white(s@, 0),
            cut_white(s@, lo as int, n as int) == cut_white(s@, lo as int, hi as int),
        decreases hi - lo,
    {
        hi = hi - 1;
    }
    string_of(&cs, lo, hi)
}

/// `s.trim().parse::<i32>()`, the way the editing forms read a number.
pub fn parse_trimmed_i32(s: &str) -> (r: Option<i32>)
    ensures
        r == (match parse_in_range(trimmed(s@), i32::MIN as int, i32::MAX as int) {
            Some(v) => Some(v as i32),
            None => None::<i32>,
        }),
{
    let t = trim(s);
    parse_i32(t.as_str())
}

// ---------------------------------------------------------------------
// Object handles
// ---------------------------------------------------------------------

/// The lower-case hexadecimal digit characters.
pub open spec fn hex_chars() -> Seq<char> {
    seq!['0', '1', '2', '3', '4', '5', '6', '7', '8', '9', 'a', 'b', 'c', 'd', 'e', 'f']
}

/// Two lower-case hex digits of a byte (`{:02x}`).
pub open spec fn hex2(b: u8) -> Seq<char> {
    seq![hex_chars()[(b / 16) as int], hex_chars()[(b % 16) as int]]
}

/// The hyphen that precedes byte `k` in the 8-4-4-4-12 grouping.
pub open spec fn uuid_sep(k: int) -> Seq<char> {
    if k == 4 || k == 6 || k == 8 || k == 10 {
        seq!['-']
    } else {
        Seq::empty()
    }
}

/// Hyphenated hex text of the bytes `b[..n]`.
pub open spec fn uuid_prefix(b: Seq<u8>, n: int) -> Seq<char>
    decreases n,
{
    if n <= 0 {
        Seq::empty()
    } else {
        uuid_prefix(b, n - 1) + uuid_sep(n - 1) + hex2(b[n - 1])
    }
}

/// The 16 bytes with the RFC 4122 version (4) and variant bits set.
pub open spec fn uuid_v4_bytes(b: Seq<u8>) -> Seq<u8> {
    b.update(6, (b[6] & 0x0f) | 0x40).update(8, (b[8] & 0x3f) | 0x80)
}

/// The handle made from 16 random bytes: an RFC 4122 version 4 UUID in
/// hyphenated lower-case hex.
pub open spec fn uuid_text(b: Seq<u8>) -> Seq<char> {
    uuid_prefix(uuid_v4_bytes(b), 16)
}

fn hex_char(d: u8) -> (c: char)
    requires
        d < 16,
    ensures
        c == hex_chars()[d as int],
{
    match d {
        0 => '0',
        1 => '1',
        2 => '2',
        3 => '3',
        4 => '4',
        5 => '5',
        6 => '6',
        7 => '7',
        8 => '8',
        9 => '9',
        10 => 'a',
        11 => 'b',
        12 => 'c',
        13 => 'd',
        14 => 'e',
        _ => 'f',
    }
}

/// A fresh object handle from 16 random bytes: sets the version and
/// variant bits and writes the bytes as `xxxxxxxx-xxxx-4xxx-yxxx-xxxxxxxxxxxx`.
pub fn handle_from_bytes(bytes: [u8; 16]) -> (r: String)
    ensures
        r@ == uuid_text(bytes@),
{
    let mut b = bytes;
    b[6] = (b[6] & 0x0f) | 0x40;
    b[8] = (b[8] & 0x3f) | 0x80;
    assert(b@ =~= uuid_v4_bytes(bytes@));
    let mut out = String::new();
    let mut i: usize = 0;
    while i < 16
        invariant
            i <= 16,
            b@ == uuid_v4_bytes(bytes@),
            b@.len() == 16,
            out@ == uuid_prefix(b@, i as int),
        decreases 16 - i,
    {
        if i == 4 || i == 6 || i == 8 || i == 10 {
            push_char(&mut out, '-');
        }
        let x = b[i];
        push_char(&mut out, hex_char(x / 16));
        push_char(&mut out, hex_char(x % 16));
        i = i + 1;
        assert(out@ =~= uuid_prefix(b@, i as int));
    }
    out
}

proof fn lemma_uuid_prefix_len(b: Seq<u8>, n: int)
    requires
        0 <= n <= 16,
    ensures
        uuid_prefix(b, n).len() == 2 * n + (if n > 10 {
            4int
        } else if n > 8 {
            3int
        } else if n > 6 {
            2int
        } else if n > 4 {
            1int
        } else {
            0int
        }),
    decreases n,
{
    if n > 0 {
        lemma_uuid_prefix_len(b, n - 1);
    }
}

/// Every handle made by [`handle_from_bytes`] is 36 characters long, with
/// hyphens at positions 8, 13, 18 and 23 and the version digit `4` at
/// position 14.
pub proof fn lemma_handle_shape(bytes: Seq<u8>)
    requires
        bytes.len() == 16,
    ensures
        uuid_text(bytes).len() == 36,
        uuid_text(bytes)[8] == '-',
        uuid_text(bytes)[13] == '-',
        uuid_text(bytes)[18] == '-',
        uuid_text(bytes)[23] == '-',
        uuid_text(bytes)[14] == '4',
{
    let b = uuid_v4_bytes(bytes);
    let x = bytes[6];
    assert(((x & 0x0f) | 0x40) / 16 == 4) by (bit_vector);
    reveal_with_fuel(uuid_prefix, 17);
    lemma_uuid_prefix_len(b, 4);
    lemma_uuid_prefix_len(b, 6);
    lemma_uuid_prefix_len(b, 8);
    lemma_uuid_prefix_len(b, 10);
    lemma_uuid_prefix_len(b, 16);
    assert(uuid_prefix(b, 7) == uuid_prefix(b, 6) + uuid_sep(6) + hex2(b[6]));
    assert(uuid_prefix(b, 5) == uuid_prefix(b, 4) + uuid_sep(4) + hex2(b[4]));
    assert(uuid_prefix(b, 9) == uuid_prefix(b, 8) + uuid_sep(8) + hex2(b[8]));
    assert(uuid_prefix(b, 11) == uuid_prefix(b, 10) + uuid_sep(10) + hex2(b[10]));
    lemma_uuid_prefix_extends(b, 5, 16);
    lemma_uuid_prefix_extends(b, 7, 16);
    lemma_uuid_prefix_extends(b, 9, 16);
    lemma_uuid_prefix_extends(b, 11, 16);
}

proof fn lemma_uuid_prefix_extends(b: Seq<u8>, m: int, n: int)
    requires
        0 <= m <= n <= 16,
    ensures
        uuid_prefix(b, n).subrange(0, uuid_prefix(b, m).len() as int) == uuid_prefix(b, m),
    decreases n - m,
{
    if m < n {
        lemma_uuid_prefix_extends(b, m, n - 1);
        let p = uuid_prefix(b, n - 1);
        assert(uuid_prefix(b, n).subrange(0, p.len() as int) =~= p);
        lemma_uuid_prefix_len(b, m);
        lemma_uuid_prefix_len(b, n - 1);
        assert(uuid_prefix(b, n).subrange(0, uuid_prefix(b, m).len() as int) =~= p.subrange(
            0,
            uuid_prefix(b, m).len() as int,
        ));
    } else {
        assert(uuid_prefix(b, n).subrange(0, uuid_prefix(b, m).len() as int) =~= uuid_prefix(b, m));
    }
}


/// What `str::parse::<i32>` gives: the number, or `None` when `s` is not an
/// optionally signed run of decimal digits within the `i32` range.
pub open spec fn parse_i32_spec(s: Seq<char>) -> Option<i32> {
    match parse_in_range(s, i32::MIN as int, i32::MAX as int) {
        Some(v) => Some(v as i32),
        None => None,
    }
}

/// A number typed into a form: the parsed value, or `default` when the
/// text does not parse.
pub open spec fn parse_or(s: Seq<char>, default: i32) -> i32 {
    match parse_i32_spec(s) {
        Some(v) => v,
        None => default,
    }
}


/// The Unicode lowercase mapping of a text, as `str::to_lowercase` gives
/// it.
pub uninterp spec fn lowercase(s: Seq<char>) -> Seq<char>;

/// Every character is ASCII.
pub open spec fn is_ascii_text(s: Seq<char>) -> bool {
    forall|i: int| 0 <= i < s.len() ==> (#[trigger] s[i] as int) < 128
}

/// ASCII lowercasing: `A`–`Z` become `a`–`z`, every other character stays.
pub open spec fn ascii_lower(s: Seq<char>) -> Seq<char> {
    s.map_values(
        |c: char|
            if 'A' <= c <= 'Z' {
                ((c as int) + 32) as char
            } else {
                c
            },
    )
}

/// The lowercase of a text as [`to_lowercase`] gives it: on ASCII text
/// the ASCII mapping, else the Unicode mapping.
pub open spec fn lower_text(s: Seq<char>) -> Seq<char> {
    if is_ascii_text(s) {
        ascii_lower(s)
    } else {
        lowercase(s)
    }
}

/// The characters of `s` from position `i` on are ASCII.
pub open spec fn ascii_from(s: Seq<char>, i: int) -> bool
    decreases s.len() - i,
{
    if i < 0 || i >= s.len() {
        true
    } else {
        (s[i] as int) < 128 && ascii_from(s, i + 1)
    }
}

/// Characters that [`ascii_from`] finds ASCII are ASCII.
pub proof fn lemma_ascii_from(s: Seq<char>, i: int)
    requires
        0 <= i <= s.len(),
        ascii_from(s, i),
    ensures
        forall|k: int| i <= k < s.len() ==> (#[trigger] s[k] as int) < 128,
        i == 0 ==> is_ascii_text(s),
    decreases s.len() - i,
{
    if i < s.len() {
        lemma_ascii_from(s, i + 1);
    }
}

/// `str::to_lowercase`: the text under the Unicode lowercase mapping; on
/// ASCII text that maps `A`–`Z` to `a`–`z` and keeps every other
/// character. The full Unicode mapping is not spelled out here.
#[verifier::external_body]
pub(crate) fn to_lowercase(s: &str) -> (r: String)
    ensures
        r@ == lowercase(s@),
        is_ascii_text(s@) ==> r@ == ascii_lower(s@),
{
    s.to_lowercase()
}

/// `needle` occurs in `hay` at position `i`.
pub open spec fn occurs_at(hay: Seq<char>, needle: Seq<char>, i: int) -> bool {
    0 <= i && i + needle.len() <= hay.len() && hay.subrange(i, i + needle.len()) == needle
}

/// `needle` occurs somewhere in `hay`.
pub open spec fn has_substring(hay: Seq<char>, needle: Seq<char>) -> bool {
    exists|i: int| occurs_at(hay, needle, i)
}

/// Whether `needle` occurs in `hay` (`str::contains` with a string
/// pattern).
pub fn contains_str(hay: &str, needle: &str) -> (r: bool)
    ensures
        r == has_substring(hay@, needle@),
{
    let h = chars_of(hay);
    let n = chars_of(needle);
    if n.len() > h.len() {
        assert forall|i: int| !occurs_at(hay@, needle@, i) by {}
        return false;
    }
    let m = h.len() - n.len();
    let mut i: usize = 0;
    loop
        invariant
            h@ == hay@,
            n@ == needle@,
            h@.len() <= usize::MAX,
            m + n@.len() == h@.len(),
            i <= m,
            forall|k: int| 0 <= k < i ==> !occurs_at(hay@, needle@, k),
        ensures
            forall|k: int| 0 <= k <= m ==> !occurs_at(hay@, needle@, k),
        decreases m - i,
    {
        let mut j: usize = 0;
        while j < n.len() && h[i + j] == n[j]
            invariant
                h@ == hay@,
                n@ == needle@,
                h@.len() <= usize::MAX,
                m + n@.len() == h@.len(),
                i <= m,
                j <= n@.len(),
                forall|k: int| 0 <= k < j ==> h@[i + k] == n@[k],
            decreases n.len() - j,
        {
            j = j + 1;
        }
        if j == n.len() {
            assert(hay@.subrange(i as int, i + needle@.len()) =~= needle@);
            assert(occurs_at(hay@, needle@, i as int));
            return true;
        }
        assert(!occurs_at(hay@, needle@, i as int)) by {
            if occurs_at(hay@, needle@, i as int) {
                assert(hay@.subrange(i as int, i + needle@.len())[j as int] == hay@[i + j]);
                assert(needle@[j as int] == hay@[i + j]);
            }
        }
        if i == m {
            break;
        }
        i = i + 1;
    }
    assert forall|k: int| !occurs_at(hay@, needle@, k) by {
        if 0 <= k && k + needle@.len() <= hay@.len() {
            assert(k <= m);
        }
    }
    false
}

/// The pieces of `s` between the separators `sep`, as `str::split` with a
/// character gives them (an empty text is one empty piece).
pub open spec fn split_on(s: Seq<char>, sep: char) -> Seq<Seq<char>>
    decreases s.len(),
{
    if s.len() == 0 {
        seq![Seq::empty()]
    } else {
        let rest = split_on(s.drop_last(), sep);
        if s.last() == sep {
            rest.push(Seq::empty())
        } else {
            rest.update(rest.len() - 1, rest.last().push(s.last()))
        }
    }
}

pub proof fn lemma_split_nonempty(s: Seq<char>, sep: char)
    ensures
        split_on(s, sep).len() >= 1,
    decreases s.len(),
{
    if s.len() > 0 {
        lemma_split_nonempty(s.drop_last(), sep);
    }
}

/// A text without the separator is a single piece.
pub proof fn lemma_split_single(a: Seq<char>, sep: char)
    requires
        forall|i: int| 0 <= i < a.len() ==> a[i] != sep,
    ensures
        split_on(a, sep) == seq![a],
    decreases a.len(),
{
    if a.len() > 0 {
        lemma_split_single(a.drop_last(), sep);
        assert(a.drop_last().push(a.last()) =~= a);
        assert(seq![a.drop_last()].update(0, a) =~= seq![a]);
    } else {
        assert(a =~= Seq::<char>::empty());
    }
}

/// A separator and a piece without one, appended to a text, add that
/// piece to its pieces.
pub proof fn lemma_split_append(a: Seq<char>, b: Seq<char>, sep: char)
    requires
        forall|i: int| 0 <= i < b.len() ==> b[i] != sep,
    ensures
        split_on(a + seq![sep] + b, sep) == split_on(a, sep).push(b),
    decreases b.len(),
{
    let s = a + seq![sep] + b;
    lemma_split_nonempty(a, sep);
    if b.len() == 0 {
        assert(s.drop_last() =~= a);
        assert(s.last() == sep);
        assert(b =~= Seq::<char>::empty());
    } else {
        assert(s.drop_last() =~= a + seq![sep] + b.drop_last());
        lemma_split_append(a, b.drop_last(), sep);
        let rest = split_on(a, sep).push(b.drop_last());
        assert(b.drop_last().push(b.last()) =~= b);
        assert(rest.update(rest.len() - 1, b) =~= split_on(a, sep).push(b));
    }
}

/// The pieces of `s` between the separators `sep`.
pub fn split_char(s: &str, sep: char) -> (r: Vec<String>)
    ensures
        r@.len() == split_on(s@, sep).len(),
        forall|k: int| 0 <= k < r@.len() ==> #[trigger] r@[k]@ == split_on(s@, sep)[k],
{
    let cs = chars_of(s);
    let mut pieces: Vec<String> = Vec::new();
    let mut start: usize = 0;
    let mut i: usize = 0;
    while i < cs.len()
        invariant
            cs@ == s@,
            start <= i <= cs@.len(),
            pieces@.len() + 1 == split_on(cs@.subrange(0, i as int), sep).len(),
            forall|k: int| 0 <= k < pieces@.len() ==> #[trigger] pieces@[k]@ == split_on(cs@.subrange(0, i as int), sep)[k],
            split_on(cs@.subrange(0, i as int), sep).last() == cs@.subrange(start as int, i as int),
        decreases cs.len() - i,
    {
        let ghost pre = cs@.subrange(0, i as int);
        let ghost next = cs@.subrange(0, i + 1);
        assert(next.drop_last() =~= pre);
        proof {
            lemma_split_nonempty(pre, sep);
        }
        if cs[i] == sep {
            let piece = string_of(&cs, start, i);
            pieces.push(piece);
            start = i + 1;
            assert(cs@.subrange(start as int, i + 1) =~= Seq::<char>::empty());
        } else {
            assert(cs@.subrange(start as int, i + 1) =~= cs@.subrange(start as int, i as int).push(cs@[i as int]));
        }
        i = i + 1;
    }
    let last = string_of(&cs, start, cs.len());
    pieces.push(last);
    assert(cs@.subrange(0, cs@.len() as int) =~= cs@);
    proof {
        lemma_split_nonempty(cs@, sep);
    }
    pieces
}


/// The value of an unsigned integer text: digits, optionally after a `+`.
pub open spec fn parse_unsigned_spec(s: Seq<char>) -> Option<int> {
    if s.len() >= 2 && s[0] == '+' && all_digits(s.drop_first()) {
        Some(digits_value(s.drop_first()))
    } else if s.len() >= 1 && all_digits(s) {
        Some(digits_value(s))
    } else {
        None
    }
}

/// `str::parse::<u64>`: the integer the text spells, when it is in range.
pub fn parse_u64(s: &str) -> (r: Option<u64>)
    ensures
        r == (match parse_unsigned_spec(s@) {
            Some(v) => if v <= u64::MAX {
                Some(v as u64)
            } else {
                None::<u64>
            },
            None => None::<u64>,
        }),
{
    let cs = chars_of(s);
    let n = cs.len();
    assert(cs@.subrange(0, n as int) =~= s@);
    if n >= 2 && cs[0] == '+' {
        let (ok, v) = digits_capped(&cs, 1, n);
        assert(cs@.subrange(1, n as int) =~= s@.drop_first());
        if !ok {
            assert(!all_digits(s@)) by {
                assert(!('0' <= s@[0] <= '9'));
            }
            return None;
        }
        proof {
            lemma_digits_value_nonneg(s@.drop_first());
        }
        if v <= 0xffff_ffff_ffff_ffff {
            Some(v as u64)
        } else {
            None
        }
    } else if n >= 1 {
        let (ok, v) = digits_capped(&cs, 0, n);
        if !ok {
            proof {
                if n >= 2 {
                    assert(s@[0] != '+');
                }
            }
            return None;
        }
        proof {
            lemma_digits_value_nonneg(s@);
        }
        if v <= 0xffff_ffff_ffff_ffff {
            Some(v as u64)
        } else {
            None
        }
    } else {
        None
    }
}

} // verus!
