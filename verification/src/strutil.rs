use vstd::prelude::*;
use vstd::string::*;

verus! {

// ---------------------------------------------------------------------------
// ASCII case folding
// ---------------------------------------------------------------------------

/// The ASCII-lowercased code point of a character: 'A'..'Z' map to 'a'..'z',
/// every other character is unchanged.
pub open spec fn lc(c: char) -> u32 {
    if 65 <= c as u32 && c as u32 <= 90 {
        (c as u32 + 32) as u32
    } else {
        c as u32
    }
}

/// Equality of two strings up to ASCII case.
pub open spec fn eq_nocase(a: Seq<char>, b: Seq<char>) -> bool {
    a.len() == b.len() && (forall|i: int| 0 <= i < a.len() ==> lc(a[i]) == lc(b[i]))
}

/// `a` is, letter for letter, the ASCII-lowercase form of `b`.
pub open spec fn is_lowered(a: Seq<char>, b: Seq<char>) -> bool {
    a.len() == b.len() && (forall|i: int| 0 <= i < a.len() ==> a[i] as u32 == lc(b[i]))
}

fn lc_exec(c: char) -> (r: u32)
    ensures
        r == lc(c),
{
    let u = c as u32;
    if 65 <= u && u <= 90 {
        u + 32
    } else {
        u
    }
}

/// Equality of two string slices.
pub fn str_eq(a: &str, b: &str) -> (r: bool)
    ensures
        r == (a@ == b@),
{
    let n = a.unicode_len();
    if n != b.unicode_len() {
        return false;
    }
    let mut i: usize = 0;
    while i < n
        invariant
            n == a@.len(),
            n == b@.len(),
            i <= n,
            forall|j: int| 0 <= j < i ==> a@[j] == b@[j],
        decreases n - i,
    {
        if a.get_char(i) != b.get_char(i) {
            return false;
        }
        i += 1;
    }
    proof {
        assert(a@ =~= b@);
    }
    true
}

/// Case-insensitive (ASCII) equality of two string slices.
pub fn str_eq_nocase(a: &str, b: &str) -> (r: bool)
    ensures
        r == eq_nocase(a@, b@),
{
    let n = a.unicode_len();
    if n != b.unicode_len() {
        return false;
    }
    let mut i: usize = 0;
    while i < n
        invariant
            n == a@.len(),
            n == b@.len(),
            i <= n,
            forall|j: int| 0 <= j < i ==> lc(a@[j]) == lc(b@[j]),
        decreases n - i,
    {
        let ca = a.get_char(i);
        let cb = b.get_char(i);
        if lc_exec(ca) != lc_exec(cb) {
            return false;
        }
        i += 1;
    }
    true
}

/// Does `a` equal the ASCII-lowercase form of `b`?
pub fn str_is_lowered(a: &str, b: &str) -> (r: bool)
    ensures
        r == is_lowered(a@, b@),
{
    let n = a.unicode_len();
    if n != b.unicode_len() {
        return false;
    }
    let mut i: usize = 0;
    while i < n
        invariant
            n == a@.len(),
            n == b@.len(),
            i <= n,
            forall|j: int| 0 <= j < i ==> a@[j] as u32 == lc(b@[j]),
        decreases n - i,
    {
        let ca = a.get_char(i);
        let cb = b.get_char(i);
        if (ca as u32) != lc_exec(cb) {
            return false;
        }
        i += 1;
    }
    true
}

// ---------------------------------------------------------------------------
// Decimal integers
// ---------------------------------------------------------------------------

pub open spec fn is_digit(c: char) -> bool {
    48 <= c as u32 && c as u32 <= 57
}

pub open spec fn digit_val(c: char) -> int {
    c as u32 - 48
}

pub open spec fn all_digits(s: Seq<char>) -> bool {
    forall|i: int| 0 <= i < s.len() ==> is_digit(s[i])
}

/// The value of a string of decimal digits, most significant first.
pub open spec fn digits_val(s: Seq<char>) -> int
    decreases s.len(),
{
    if s.len() == 0 {
        0
    } else {
        digits_val(s.drop_last()) * 10 + digit_val(s.last())
    }
}

/// The integer a decimal string denotes: an optional `+` or `-` sign, then one
/// or more digits, and nothing else. `None` for any other shape.
pub open spec fn parse_int(s: Seq<char>) -> Option<int> {
    if s.len() >= 1 && (s[0] == '+' || s[0] == '-') {
        if s.len() >= 2 && all_digits(s.skip(1)) {
            if s[0] == '-' {
                Some(-digits_val(s.skip(1)))
            } else {
                Some(digits_val(s.skip(1)))
            }
        } else {
            None
        }
    } else if s.len() >= 1 && all_digits(s) {
        Some(digits_val(s))
    } else {
        None
    }
}

/// The string denotes an integer whose magnitude does not fit in 64 bits.
pub open spec fn parse_int_huge(s: Seq<char>) -> bool {
    match parse_int(s) {
        Some(v) => v > u64::MAX as int || v < -(u64::MAX as int),
        None => false,
    }
}

proof fn lemma_digits_val_nonneg(s: Seq<char>)
    requires
        all_digits(s),
    ensures
        digits_val(s) >= 0,
    decreases s.len(),
{
    if s.len() > 0 {
        lemma_digits_val_nonneg(s.drop_last());
    }
}

proof fn lemma_digits_val_prefix_le(s: Seq<char>, i: int)
    requires
        all_digits(s),
        0 <= i <= s.len(),
    ensures
        digits_val(s.subrange(0, i)) <= digits_val(s),
    decreases s.len() - i,
{
    if i < s.len() {
        lemma_digits_val_prefix_le(s, i + 1);
        let p = s.subrange(0, i);
        let q = s.subrange(0, i + 1);
        assert(q.drop_last() =~= p);
        lemma_digits_val_nonneg(p);
        assert(digits_val(p) * 10 >= digits_val(p)) by (nonlinear_arith)
            requires
                digits_val(p) >= 0,
        ;
    } else {
        assert(s.subrange(0, i) =~= s);
    }
}

/// Scan a decimal string into its sign and magnitude. `None` when the string
/// is not an optionally signed run of digits, or the magnitude overflows u64.
fn parse_sign_magnitude(s: &str) -> (r: Option<(bool, u64)>)
    ensures
        match r {
            Some(p) => parse_int(s@) == Some(if p.0 { -(p.1 as int) } else { p.1 as int }),
            None => parse_int(s@) is None || parse_int_huge(s@),
        },
{
    let n = s.unicode_len();
    if n == 0 {
        return None;
    }
    let c0 = s.get_char(0);
    let neg = c0 == '-';
    let has_sign = neg || c0 == '+';
    let start: usize = if has_sign {
        1
    } else {
        0
    };
    if start >= n {
        return None;
    }
    let ghost ds = s@.skip(start as int);
    let mut acc: u128 = 0;
    let mut i: usize = start;
    while i < n
        invariant
            n == s@.len(),
            start <= i <= n,
            start < n,
            c0 == s@[0],
            neg == (c0 == '-'),
            has_sign == (c0 == '-' || c0 == '+'),
            start == (if has_sign {
                1usize
            } else {
                0usize
            }),
            ds == s@.skip(start as int),
            all_digits(ds.subrange(0, i - start)),
            acc == digits_val(ds.subrange(0, i - start)),
            acc <= u64::MAX,
        decreases n - i,
    {
        let c = s.get_char(i);
        let u = c as u32;
        proof {
            assert(ds[i - start] == s@[i as int]);
        }
        if !(48 <= u && u <= 57) {
            proof {
                assert(!is_digit(ds[i - start]));
                if has_sign {
                    assert(ds =~= s@.skip(1));
                    assert(!all_digits(s@.skip(1)));
                } else {
                    assert(ds =~= s@);
                    assert(!all_digits(s@));
                }
            }
            return None;
        }
        let d: u128 = (u - 48) as u128;
        let acc2: u128 = acc * 10 + d;
        proof {
            assert(is_digit(ds[i - start]));
            assert(all_digits(ds.subrange(0, i + 1 - start)));
            assert(ds.subrange(0, i + 1 - start).drop_last() =~= ds.subrange(0, i - start));
            assert(ds.subrange(0, i + 1 - start).last() == s@[i as int]);
            assert(digit_val(ds[i - start]) == d);
            assert(digits_val(ds.subrange(0, i + 1 - start)) == acc2);
        }
        if acc2 > u64::MAX as u128 {
            proof {
                if has_sign {
                    assert(ds =~= s@.skip(1));
                } else {
                    assert(ds =~= s@);
                }
                if parse_int(s@) is Some {
                    assert(all_digits(ds));
                    lemma_digits_val_prefix_le(ds, i + 1 - start);
                    assert(digits_val(ds) >= acc2);
                }
            }
            return None;
        }
        acc = acc2;
        i += 1;
    }
    proof {
        assert(ds.subrange(0, n - start) =~= ds);
        if has_sign {
            assert(ds =~= s@.skip(1));
            assert(all_digits(s@.skip(1)));
        } else {
            assert(ds =~= s@);
            assert(all_digits(s@));
        }
    }
    Some((neg, acc as u64))
}

/// What `str::parse::<i64>` returns: the denoted integer, when it fits in i64.
pub open spec fn parse_i64_spec(s: Seq<char>) -> Option<int> {
    match parse_int(s) {
        Some(v) => if i64::MIN <= v <= i64::MAX {
            Some(v)
        } else {
            None
        },
        None => None,
    }
}

/// Parse a decimal string as a 64-bit signed integer, as `str::parse::<i64>` does.
pub fn parse_i64(s: &str) -> (r: Option<i64>)
    ensures
        match r {
            Some(v) => parse_i64_spec(s@) == Some(v as int),
            None => parse_i64_spec(s@) is None,
        },
{
    match parse_sign_magnitude(s) {
        None => None,
        Some((neg, m)) => {
            if neg {
                if m <= 9223372036854775807u64 {
                    Some(-(m as i64))
                } else if m == 9223372036854775808u64 {
                    Some(i64::MIN)
                } else {
                    None
                }
            } else {
                if m <= 9223372036854775807u64 {
                    Some(m as i64)
                } else {
                    None
                }
            }
        },
    }
}

/// The value of one dotted-version component: what `str::parse::<i32>` gives,
/// or 0 when the component does not parse.
pub open spec fn version_part_val(s: Seq<char>) -> int {
    match parse_int(s) {
        Some(v) => if i32::MIN <= v <= i32::MAX {
            v
        } else {
            0
        },
        None => 0,
    }
}

/// Parse a version component, defaulting to 0 as the evaluator's version
/// comparison does for non-numeric parts.
pub fn parse_version_part(s: &str) -> (r: i32)
    ensures
        r as int == version_part_val(s@),
{
    match parse_sign_magnitude(s) {
        None => 0,
        Some((neg, m)) => {
            if neg {
                if m <= 2147483647u64 {
                    -(m as i32)
                } else if m == 2147483648u64 {
                    i32::MIN
                } else {
                    0
                }
            } else {
                if m <= 2147483647u64 {
                    m as i32
                } else {
                    0
                }
            }
        },
    }
}

// ---------------------------------------------------------------------------
// Rendering
// ---------------------------------------------------------------------------

pub open spec fn digit_char(d: int) -> char {
    if d == 0 {
        '0'
    } else if d == 1 {
        '1'
    } else if d == 2 {
        '2'
    } else if d == 3 {
        '3'
    } else if d == 4 {
        '4'
    } else if d == 5 {
        '5'
    } else if d == 6 {
        '6'
    } else if d == 7 {
        '7'
    } else if d == 8 {
        '8'
    } else {
        '9'
    }
}

/// The decimal form of a non-negative integer.
pub open spec fn dec_str(n: int) -> Seq<char>
    decreases n,
{
    if n < 10 {
        seq![digit_char(n)]
    } else {
        dec_str(n / 10).push(digit_char(n % 10))
    }
}

fn digit_str(d: u64) -> (s: &'static str)
    requires
        d < 10,
    ensures
        s@ == seq![digit_char(d as int)],
{
    proof {
        reveal_strlit("0");
        reveal_strlit("1");
        reveal_strlit("2");
        reveal_strlit("3");
        reveal_strlit("4");
        reveal_strlit("5");
        reveal_strlit("6");
        reveal_strlit("7");
        reveal_strlit("8");
        reveal_strlit("9");
    }
    let s = if d == 0 {
        "0"
    } else if d == 1 {
        "1"
    } else if d == 2 {
        "2"
    } else if d == 3 {
        "3"
    } else if d == 4 {
        "4"
    } else if d == 5 {
        "5"
    } else if d == 6 {
        "6"
    } else if d == 7 {
        "7"
    } else if d == 8 {
        "8"
    } else {
        "9"
    };
    proof {
        assert(s@ =~= seq![digit_char(d as int)]);
    }
    s
}

/// Render a u64 in decimal.
pub fn u64_to_dec(n: u64) -> (s: String)
    ensures
        s@ == dec_str(n as int),
    decreases n,
{
    if n < 10 {
        String::from_str(digit_str(n))
    } else {
        let mut s = u64_to_dec(n / 10);
        s.append(digit_str(n % 10));
        proof {
            assert(s@ =~= dec_str(n as int));
        }
        s
    }
}

/// The strings `"true"` and `"false"`, as sequences of characters.
pub open spec fn bool_str(b: bool) -> Seq<char> {
    if b {
        seq!['t', 'r', 'u', 'e']
    } else {
        seq!['f', 'a', 'l', 's', 'e']
    }
}

/// Render a boolean as `"true"` or `"false"`.
pub fn bool_to_string(b: bool) -> (s: String)
    ensures
        s@ == bool_str(b),
{
    if b {
        proof {
            reveal_strlit("true");
        }
        let s = String::from_str("true");
        proof {
            assert(s@ =~= bool_str(true));
        }
        s
    } else {
        proof {
            reveal_strlit("false");
        }
        let s = String::from_str("false");
        proof {
            assert(s@ =~= bool_str(false));
        }
        s
    }
}

// ---------------------------------------------------------------------------
// Searching
// ---------------------------------------------------------------------------

/// The first index of `c` in `s`, if any.
pub fn find_char(s: &str, c: char) -> (r: Option<usize>)
    ensures
        match r {
            Some(i) => i < s@.len() && s@[i as int] == c && (forall|j: int|
                0 <= j < i ==> s@[j] != c),
            None => forall|j: int| 0 <= j < s@.len() ==> s@[j] != c,
        },
{
    let n = s.unicode_len();
    let mut i: usize = 0;
    while i < n
        invariant
            n == s@.len(),
            i <= n,
            forall|j: int| 0 <= j < i ==> s@[j] != c,
        decreases n - i,
    {
        if s.get_char(i) == c {
            return Some(i);
        }
        i += 1;
    }
    None
}

/// The prefix of `s` before the first occurrence of `c`; all of `s` when `c`
/// does not occur.
pub open spec fn prefix_to_char(s: Seq<char>, c: char) -> Seq<char>
    decreases s.len(),
{
    if s.len() == 0 {
        s
    } else if s[0] == c {
        Seq::empty()
    } else {
        seq![s[0]] + prefix_to_char(s.skip(1), c)
    }
}

proof fn lemma_prefix_to_char(s: Seq<char>, c: char, i: int)
    requires
        0 <= i <= s.len(),
        forall|j: int| 0 <= j < i ==> s[j] != c,
        i < s.len() ==> s[i] == c,
    ensures
        prefix_to_char(s, c) == s.subrange(0, i),
    decreases i,
{
    if s.len() == 0 {
        assert(s.subrange(0, 0) =~= s);
    } else if i == 0 {
        if s[0] == c {
            assert(s.subrange(0, 0) =~= Seq::<char>::empty());
        } else {
            assert(s.subrange(0, 0) =~= Seq::<char>::empty());
        }
    } else {
        lemma_prefix_to_char(s.skip(1), c, i - 1);
        assert(seq![s[0]] + s.skip(1).subrange(0, i - 1) =~= s.subrange(0, i));
    }
}

/// Everything in `s` before the first `c`, as a slice of `s`.
pub fn split_before_char<'a>(s: &'a str, c: char) -> (r: &'a str)
    ensures
        r@ == prefix_to_char(s@, c),
{
    match find_char(s, c) {
        Some(i) => {
            proof {
                lemma_prefix_to_char(s@, c, i as int);
            }
            s.substring_char(0, i)
        },
        None => {
            proof {
                lemma_prefix_to_char(s@, c, s@.len() as int);
                assert(s@.subrange(0, s@.len() as int) =~= s@);
            }
            s
        },
    }
}

proof fn lemma_prefix_to_char_len(s: Seq<char>, c: char)
    ensures
        prefix_to_char(s, c).len() <= s.len(),
    decreases s.len(),
{
    if s.len() > 0 && s[0] != c {
        lemma_prefix_to_char_len(s.skip(1), c);
    }
}

/// Split at the first `c`: the part before it, and the part after it when
/// `c` occurs at all.
pub open spec fn split_once_at(s: Seq<char>, c: char) -> (Seq<char>, Option<Seq<char>>) {
    let head = prefix_to_char(s, c);
    if head.len() >= s.len() {
        (head, None)
    } else {
        (head, Some(s.skip(head.len() as int + 1)))
    }
}

/// Split a string at the first `c`.
pub fn split_once_char<'a>(s: &'a str, c: char) -> (r: (&'a str, Option<&'a str>))
    ensures
        r.0@ == split_once_at(s@, c).0,
        match r.1 {
            Some(t) => split_once_at(s@, c).1 == Some(t@),
            None => split_once_at(s@, c).1 is None,
        },
{
    match find_char(s, c) {
        Some(i) => {
            proof {
                lemma_prefix_to_char(s@, c, i as int);
            }
            let n = s.unicode_len();
            let head = s.substring_char(0, i);
            let tail = s.substring_char(i + 1, n);
            proof {
                assert(tail@ =~= s@.skip(i + 1));
            }
            (head, Some(tail))
        },
        None => {
            proof {
                lemma_prefix_to_char(s@, c, s@.len() as int);
                assert(s@.subrange(0, s@.len() as int) =~= s@);
            }
            (s, None)
        },
    }
}

/// The segments of `s` split on `c`: one more segment than there are
/// occurrences of `c`, so the empty string gives one empty segment.
pub open spec fn split_on(s: Seq<char>, c: char) -> Seq<Seq<char>>
    decreases s.len(),
{
    let head = prefix_to_char(s, c);
    if head.len() >= s.len() {
        seq![head]
    } else {
        seq![head] + split_on(s.skip(head.len() as int + 1), c)
    }
}

/// The views of a vector of strings.
pub open spec fn str_views(v: Seq<String>) -> Seq<Seq<char>> {
    v.map_values(|p: String| p@)
}

/// Split a string on `c`.
pub fn split_char(s: &str, c: char) -> (parts: Vec<String>)
    ensures
        str_views(parts@) == split_on(s@, c),
    decreases s@.len(),
{
    match find_char(s, c) {
        None => {
            proof {
                lemma_prefix_to_char(s@, c, s@.len() as int);
                assert(s@.subrange(0, s@.len() as int) =~= s@);
            }
            let mut parts: Vec<String> = Vec::new();
            parts.push(String::from_str(s));
            proof {
                assert(str_views(parts@) =~= split_on(s@, c));
            }
            parts
        },
        Some(i) => {
            proof {
                lemma_prefix_to_char(s@, c, i as int);
            }
            let head = s.substring_char(0, i);
            let n = s.unicode_len();
            let tail = s.substring_char(i + 1, n);
            let mut parts = split_char(tail, c);
            parts.insert(0, String::from_str(head));
            proof {
                assert(tail@ == s@.skip(i + 1));
                assert(str_views(parts@) =~= split_on(s@, c));
            }
            parts
        },
    }
}

// ---------------------------------------------------------------------------
// Decimal number texts
// ---------------------------------------------------------------------------

/// 10 to the power `k`; 1 for k <= 0.
pub open spec fn pow10(k: int) -> int
    decreases k,
{
    if k <= 0 {
        1
    } else {
        10 * pow10(k - 1)
    }
}

pub proof fn lemma_pow10_pos(k: int)
    ensures
        pow10(k) >= 1,
    decreases k,
{
    if k > 0 {
        lemma_pow10_pos(k - 1);
    }
}

pub proof fn lemma_pow10_mono(k1: int, k2: int)
    requires
        k1 <= k2,
    ensures
        pow10(k1) <= pow10(k2),
    decreases k2 - k1,
{
    if k1 < k2 {
        lemma_pow10_mono(k1, k2 - 1);
        lemma_pow10_pos(k2 - 1);
    }
}

pub proof fn lemma_pow10_gt_i64(k: int)
    requires
        k >= 19,
    ensures
        pow10(k) > i64::MAX as int,
{
    reveal_with_fuel(pow10, 21);
    assert(pow10(19) == 10000000000000000000int);
    lemma_pow10_mono(19, k);
}

/// Is the text entirely decimal digits?
pub fn str_all_digits(s: &str) -> (r: bool)
    ensures
        r == all_digits(s@),
{
    let n = s.unicode_len();
    let mut i: usize = 0;
    while i < n
        invariant
            n == s@.len(),
            i <= n,
            forall|j: int| 0 <= j < i ==> is_digit(s@[j]),
        decreases n - i,
    {
        let u = s.get_char(i) as u32;
        if !(48 <= u && u <= 57) {
            return false;
        }
        i += 1;
    }
    true
}

/// The magnitude cap used when scanning exponent texts; far above any shift
/// that a length-bounded digit string could absorb.
pub(crate) const INT_TEXT_CAP: u128 = 1000000000000000000000000000000;

/// Scan a decimal string into its sign and magnitude, capping the magnitude:
/// the exact value when it lies below the cap, and the cap itself when the
/// denoted magnitude is at least the cap. `None` exactly when the text is
/// not an optionally signed run of digits.
pub(crate) fn parse_int_capped(s: &str) -> (r: Option<(bool, u128)>)
    ensures
        match r {
            Some(p) => parse_int(s@) is Some && p.1 <= INT_TEXT_CAP && {
                let v = parse_int(s@)->Some_0;
                if p.1 < INT_TEXT_CAP {
                    v == (if p.0 {
                        -(p.1 as int)
                    } else {
                        p.1 as int
                    })
                } else if p.0 {
                    v <= -(INT_TEXT_CAP as int)
                } else {
                    v >= INT_TEXT_CAP as int
                }
            },
            None => parse_int(s@) is None,
        },
{
    let n = s.unicode_len();
    if n == 0 {
        return None;
    }
    let c0 = s.get_char(0);
    let neg = c0 == '-';
    let has_sign = neg || c0 == '+';
    let start: usize = if has_sign {
        1
    } else {
        0
    };
    if start >= n {
        return None;
    }
    let ghost ds = s@.skip(start as int);
    let mut acc: u128 = 0;
    let mut i: usize = start;
    while i < n
        invariant
            n == s@.len(),
            start <= i <= n,
            start < n,
            c0 == s@[0],
            neg == (c0 == '-'),
            has_sign == (c0 == '-' || c0 == '+'),
            start == (if has_sign {
                1usize
            } else {
                0usize
            }),
            ds == s@.skip(start as int),
            all_digits(ds.subrange(0, i - start)),
            acc <= INT_TEXT_CAP,
            acc < INT_TEXT_CAP ==> acc == digits_val(ds.subrange(0, i - start)),
            acc == INT_TEXT_CAP ==> digits_val(ds.subrange(0, i - start)) >= INT_TEXT_CAP,
        decreases n - i,
    {
        let c = s.get_char(i);
        let u = c as u32;
        proof {
            assert(ds[i - start] == s@[i as int]);
        }
        if !(48 <= u && u <= 57) {
            proof {
                assert(!is_digit(ds[i - start]));
                if has_sign {
                    assert(ds =~= s@.skip(1));
                    assert(!all_digits(s@.skip(1)));
                } else {
                    assert(ds =~= s@);
                    assert(!all_digits(s@));
                }
            }
            return None;
        }
        let d: u128 = (u - 48) as u128;
        proof {
            assert(is_digit(ds[i - start]));
            assert(all_digits(ds.subrange(0, i + 1 - start)));
            assert(ds.subrange(0, i + 1 - start).drop_last() =~= ds.subrange(0, i - start));
            assert(ds.subrange(0, i + 1 - start).last() == s@[i as int]);
            assert(digit_val(ds[i - start]) == d);
            lemma_digits_val_nonneg(ds.subrange(0, i - start));
            assert(digits_val(ds.subrange(0, i + 1 - start)) == digits_val(
                ds.subrange(0, i - start),
            ) * 10 + d);
            assert(digits_val(ds.subrange(0, i - start)) * 10 >= digits_val(
                ds.subrange(0, i - start),
            )) by (nonlinear_arith)
                requires
                    digits_val(ds.subrange(0, i - start)) >= 0,
            ;
        }
        if acc < INT_TEXT_CAP {
            let acc2: u128 = acc * 10 + d;
            if acc2 >= INT_TEXT_CAP {
                acc = INT_TEXT_CAP;
            } else {
                acc = acc2;
            }
        }
        i += 1;
    }
    proof {
        assert(ds.subrange(0, n - start) =~= ds);
        if has_sign {
            assert(ds =~= s@.skip(1));
            assert(all_digits(s@.skip(1)));
        } else {
            assert(ds =~= s@);
            assert(all_digits(s@));
        }
    }
    Some((neg, acc))
}

/// The integer part of a decimal number text — an optional minus sign,
/// integer digits, an optional ".digits" fraction, an optional "e" decimal
/// exponent — truncated toward zero. 0 for any other shape, and 0 when the
/// integer part does not fit in i64.
pub open spec fn dec_trunc_of(s0: Seq<char>) -> int {
    let neg = s0.len() > 0 && s0[0] == '-';
    let s = if neg {
        s0.skip(1)
    } else {
        s0
    };
    let mant = split_once_at(s, 'e').0;
    let expt = split_once_at(s, 'e').1;
    let ip = split_once_at(mant, '.').0;
    let fpo = split_once_at(mant, '.').1;
    let fp = match fpo {
        Some(f) => f,
        None => Seq::<char>::empty(),
    };
    let ev = match expt {
        Some(t) => parse_int(t),
        None => Some(0int),
    };
    if ip.len() == 0 || !all_digits(ip) || !all_digits(fp) || (fpo is Some && fp.len() == 0)
        || ev is None {
        0
    } else {
        let k = ev->Some_0 - fp.len();
        let d = ip + fp;
        let mag = if k >= 0 {
            digits_val(d) * pow10(k)
        } else if d.len() + k > 0 {
            digits_val(d.take(d.len() + k))
        } else {
            0
        };
        let v = if neg {
            -mag
        } else {
            mag
        };
        if i64::MIN as int <= v <= i64::MAX as int {
            v
        } else {
            0
        }
    }
}

fn pow10_u128(k: u64) -> (r: u128)
    requires
        k <= 18,
    ensures
        r as int == pow10(k as int),
{
    let mut r: u128 = 1;
    let mut i: u64 = 0;
    while i < k
        invariant
            i <= k,
            k <= 18,
            r as int == pow10(i as int),
        decreases k - i,
    {
        proof {
            lemma_pow10_mono(i as int, 17);
            reveal_with_fuel(pow10, 21);
            assert(pow10(17) == 100000000000000000int);
        }
        r = r * 10;
        i += 1;
    }
    r
}

/// The magnitude as a signed 64-bit value: `-mag` or `mag` when that fits in
/// i64, 0 when it does not.
fn signed_in_i64(neg: bool, mag: u128) -> (r: i64)
    ensures
        r as int == ({
            let v = if neg {
                -(mag as int)
            } else {
                mag as int
            };
            if i64::MIN as int <= v <= i64::MAX as int {
                v
            } else {
                0int
            }
        }),
{
    if neg {
        if mag <= 0x7fffffffffffffffu128 {
            -(mag as i64)
        } else if mag == 0x8000000000000000u128 {
            i64::MIN
        } else {
            0
        }
    } else {
        if mag <= 0x7fffffffffffffffu128 {
            mag as i64
        } else {
            0
        }
    }
}

/// Parse the integer part of a decimal number text, truncated toward zero.
#[verifier::loop_isolation(false)]
#[verifier::rlimit(80)]
pub fn parse_dec_trunc(s: &str) -> (r: i64)
    ensures
        r as int == dec_trunc_of(s@),
{
    let n = s.unicode_len();
    if n == 0 {
        return 0;
    }
    let neg = s.get_char(0) == '-';
    let body: &str = if neg {
        s.substring_char(1, n)
    } else {
        s
    };
    proof {
        if neg {
            assert(body@ =~= s@.skip(1));
        }
    }
    let (mant, expt) = split_once_char(body, 'e');
    let (ip, fpo) = split_once_char(mant, '.');
    let ip_n = ip.unicode_len();
    if ip_n == 0 || !str_all_digits(ip) {
        return 0;
    }
    let has_fp = fpo.is_some();
    let fp: &str = match fpo {
        Some(f) => f,
        None => "",
    };
    proof {
        reveal_strlit("");
        if !has_fp {
            assert(fp@ =~= Seq::<char>::empty());
        }
    }
    let fp_n = fp.unicode_len();
    if has_fp && fp_n == 0 {
        return 0;
    }
    if !str_all_digits(fp) {
        return 0;
    }
    let ghost d_seq = ip@ + fp@;
    proof {
        assert(all_digits(d_seq));
        lemma_digits_val_nonneg(d_seq);
        // the parts never outgrow the text they were split from
        lemma_prefix_to_char_len(body@, 'e');
        lemma_prefix_to_char_len(mant@, '.');
        assert(mant@.len() <= body@.len());
        assert(ip@.len() <= mant@.len());
        if has_fp {
            assert(fp@.len() == mant@.len() - ip@.len() - 1);
        }
        assert(ip@.len() + fp@.len() <= body@.len());
        assert(ip_n + fp_n <= n);
    }
    let ev: i128 = match expt {
        Some(t) => {
            match parse_int_capped(t) {
                None => {
                    return 0;
                },
                Some((eneg, m)) => {
                    if m >= INT_TEXT_CAP {
                        proof {
                            let evv = parse_int(t@)->Some_0;
                            if eneg {
                                // the shift drops every digit
                                assert(evv <= -(INT_TEXT_CAP as int));
                                assert(d_seq.len() + (evv - fp@.len()) <= 0);
                            } else {
                                // the shift puts the value far outside i64
                                assert(evv >= INT_TEXT_CAP as int);
                                let k = evv - fp@.len();
                                assert(k >= 19);
                                lemma_pow10_gt_i64(k);
                                if digits_val(d_seq) >= 1 {
                                    assert(digits_val(d_seq) * pow10(k) >= pow10(k))
                                        by (nonlinear_arith)
                                        requires
                                            digits_val(d_seq) >= 1,
                                            pow10(k) >= 0,
                                    ;
                                    lemma_pow10_pos(k);
                                } else {
                                    assert(digits_val(d_seq) == 0);
                                    assert(digits_val(d_seq) * pow10(k) == 0)
                                        by (nonlinear_arith)
                                        requires
                                            digits_val(d_seq) == 0,
                                    ;
                                }
                            }
                        }
                        return 0;
                    }
                    if eneg {
                        -(m as i128)
                    } else {
                        m as i128
                    }
                },
            }
        },
        None => 0,
    };
    let k: i128 = ev - (fp_n as i128);
    if k >= 19 {
        proof {
            lemma_pow10_gt_i64(k as int);
            if digits_val(d_seq) >= 1 {
                assert(digits_val(d_seq) * pow10(k as int) >= pow10(k as int))
                    by (nonlinear_arith)
                    requires
                        digits_val(d_seq) >= 1,
                        pow10(k as int) >= 0,
                ;
                lemma_pow10_pos(k as int);
            } else {
                assert(digits_val(d_seq) == 0);
                assert(digits_val(d_seq) * pow10(k as int) == 0) by (nonlinear_arith)
                    requires
                        digits_val(d_seq) == 0,
                ;
            }
        }
        return 0;
    }
    if k >= 0 {
        proof {
            assert(d_seq.take((ip_n + fp_n) as int) =~= d_seq);
        }
        let mag = match digits_value_u64(ip, fp, ip_n + fp_n) {
            Some(dv) => {
                let p10 = pow10_u128(k as u64);
                proof {
                    lemma_pow10_mono(k as int, 18);
                    reveal_with_fuel(pow10, 21);
                    assert(pow10(18) == 1000000000000000000int);
                    assert((dv as int) * (p10 as int) <= 0xffffffffffffffffint
                        * 1000000000000000000int) by (nonlinear_arith)
                        requires
                            0 <= dv as int <= 0xffffffffffffffffint,
                            0 <= p10 as int <= 1000000000000000000int,
                    ;
                }
                (dv as u128) * p10
            },
            None => {
                proof {
                    lemma_pow10_pos(k as int);
                    assert(digits_val(d_seq) * pow10(k as int) >= digits_val(d_seq))
                        by (nonlinear_arith)
                        requires
                            digits_val(d_seq) >= 0,
                            pow10(k as int) >= 1,
                    ;
                }
                return 0;
            },
        };
        signed_in_i64(neg, mag)
    } else {
        let drop = (-k) as u128;
        let total: u128 = ip_n as u128 + fp_n as u128;
        if drop >= total {
            return 0;
        }
        let keep: usize = (total - drop) as usize;
        proof {
            assert(d_seq.take(keep as int).len() == keep);
            assert(all_digits(d_seq.take(keep as int)));
        }
        match digits_value_u64(ip, fp, keep) {
            Some(dv) => signed_in_i64(neg, dv as u128),
            None => {
                return 0;
            },
        }
    }
}

/// The value of the first `keep` digits of `a` followed by `b`, when it fits
/// in u64; `None` when it exceeds u64 (and so exceeds the i64 range).
#[verifier::loop_isolation(false)]
fn digits_value_u64(a: &str, b: &str, keep: usize) -> (r: Option<u64>)
    requires
        keep <= a@.len() + b@.len(),
        all_digits(a@ + b@),
    ensures
        match r {
            Some(dv) => dv == digits_val((a@ + b@).take(keep as int)),
            None => digits_val((a@ + b@).take(keep as int)) > u64::MAX,
        },
{
    let a_n = a.unicode_len();
    let ghost d_seq = a@ + b@;
    let mut acc: u128 = 0;
    let mut j: usize = 0;
    while j < keep
        invariant
            j <= keep,
            acc == digits_val(d_seq.take(j as int)),
            acc <= u64::MAX,
        decreases keep - j,
    {
        let c = if j < a_n {
            a.get_char(j)
        } else {
            b.get_char(j - a_n)
        };
        proof {
            assert(d_seq[j as int] == c);
            assert(is_digit(c));
            assert(d_seq.take(j + 1).drop_last() =~= d_seq.take(j as int));
            assert(d_seq.take(j + 1).last() == c);
        }
        let d: u128 = ((c as u32) - 48) as u128;
        let acc2: u128 = acc * 10 + d;
        if acc2 > u64::MAX as u128 {
            proof {
                assert(all_digits(d_seq.take(keep as int)));
                lemma_digits_val_prefix_le(d_seq.take(keep as int), j + 1);
                assert(d_seq.take(keep as int).subrange(0, j + 1) =~= d_seq.take(j + 1));
            }
            return None;
        }
        acc = acc2;
        j += 1;
    }
    Some(acc as u64)
}

} // verus!
