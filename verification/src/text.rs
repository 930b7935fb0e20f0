//! Character-level building blocks shared by the parsers and formatters.
use vstd::prelude::*;

verus! {

/// Unicode `White_Space`, the property that `str::trim` removes.
pub open spec fn is_space(c: char) -> bool {
    let u = c as u32;
    ||| 0x09 <= u <= 0x0d
    ||| u == 0x20
    ||| u == 0x85
    ||| u == 0xa0
    ||| u == 0x1680
    ||| 0x2000 <= u <= 0x200a
    ||| u == 0x2028
    ||| u == 0x2029
    ||| u == 0x202f
    ||| u == 0x205f
    ||| u == 0x3000
}

/// Unicode general category `Cc`, the property that `char::is_control` tests.
pub open spec fn is_control(c: char) -> bool {
    (c as u32) <= 0x1f || (0x7f <= (c as u32) && (c as u32) <= 0x9f)
}

pub open spec fn is_digit(c: char) -> bool {
    0x30 <= (c as u32) && (c as u32) <= 0x39
}

/// ASCII lower-casing: `A`..`Z` become `a`..`z`, every other character stays.
pub open spec fn lower(c: char) -> char {
    if 0x41 <= (c as u32) && (c as u32) <= 0x5a {
        ((c as u32) + 32) as char
    } else {
        c
    }
}

pub open spec fn lowercase(s: Seq<char>) -> Seq<char> {
    Seq::new(s.len(), |i: int| lower(s[i]))
}

pub open spec fn trim_start(s: Seq<char>) -> Seq<char>
    decreases s.len(),
{
    if s.len() > 0 && is_space(s[0]) {
        trim_start(s.drop_first())
    } else {
        s
    }
}

pub open spec fn trim_end(s: Seq<char>) -> Seq<char>
    decreases s.len(),
{
    if s.len() > 0 && is_space(s.last()) {
        trim_end(s.drop_last())
    } else {
        s
    }
}

/// What `str::trim` leaves: the text without leading and trailing white space.
pub open spec fn trim(s: Seq<char>) -> Seq<char> {
    trim_end(trim_start(s))
}

pub open spec fn all_digits(s: Seq<char>) -> bool {
    forall|i: int| 0 <= i < s.len() ==> #[trigger] is_digit(s[i])
}

pub open spec fn digit_value(c: char) -> nat {
    ((c as u32) - 0x30) as nat
}

/// The number that a string of decimal digits denotes (the empty string denotes 0).
pub open spec fn digits_value(s: Seq<char>) -> nat
    decreases s.len(),
{
    if s.len() == 0 {
        0
    } else {
        digits_value(s.drop_last()) * 10 + digit_value(s.last())
    }
}

pub open spec fn pow10(n: nat) -> nat
    decreases n,
{
    if n == 0 {
        1
    } else {
        10 * pow10((n - 1) as nat)
    }
}

pub open spec fn digit_char(d: nat) -> char {
    ((d % 10) + 0x30) as char
}

/// Decimal notation of a natural number, without sign or leading zeros.
pub open spec fn decimal(n: nat) -> Seq<char>
    decreases n,
{
    if n < 10 {
        seq![digit_char(n)]
    } else {
        decimal(n / 10).push(digit_char(n % 10))
    }
}

/// Collects the characters of a string slice, in order.
pub fn chars_of(s: &str) -> (v: Vec<char>)
    ensures
        v@ == s@,
{
    let mut v: Vec<char> = Vec::new();
    for c in it: s.chars()
        invariant
            v@ == it.seq().take(it.index() as int),
            it.seq() == s@,
    {
        v.push(c);
    }
    v
}

/// Builds an owned string holding exactly the given characters, with
/// `String::from_iter` over them. Trusted: std documents that collecting
/// characters into a `String` appends each of them in order.
#[verifier::external_body]
pub(crate) fn string_of(v: &Vec<char>) -> (s: String)
    ensures
        s@ == v@,
{
    String::from_iter(v.iter())
}

/// Appends the characters of `s` to `out`.
pub fn push_str(out: &mut Vec<char>, s: &str)
    ensures
        final(out)@ == old(out)@ + s@,
{
    let ghost start = out@;
    for c in it: s.chars()
        invariant
            out@ == start + it.seq().take(it.index() as int),
            it.seq() == s@,
    {
        out.push(c);
    }
}

/// Appends the characters of `s` to `out`.
pub fn push_chars(out: &mut Vec<char>, s: &Vec<char>)
    ensures
        final(out)@ == old(out)@ + s@,
{
    let ghost start = out@;
    let mut i: usize = 0;
    while i < s.len()
        invariant
            i <= s.len(),
            out@ == start + s@.take(i as int),
        decreases s.len() - i,
    {
        out.push(s[i]);
        i = i + 1;
        assert(s@.take(i as int) == s@.take(i - 1).push(s@[i - 1]));
    }
    assert(s@.take(s.len() as int) == s@);
}

pub fn is_space_char(c: char) -> (b: bool)
    ensures
        b == is_space(c),
{
    let u = c as u32;
    (0x09 <= u && u <= 0x0d) || u == 0x20 || u == 0x85 || u == 0xa0 || u == 0x1680 || (0x2000 <= u
        && u <= 0x200a) || u == 0x2028 || u == 0x2029 || u == 0x202f || u == 0x205f || u == 0x3000
}

pub fn is_control_char(c: char) -> (b: bool)
    ensures
        b == is_control(c),
{
    let u = c as u32;
    u <= 0x1f || (0x7f <= u && u <= 0x9f)
}

pub fn is_digit_char(c: char) -> (b: bool)
    ensures
        b == is_digit(c),
{
    let u = c as u32;
    0x30 <= u && u <= 0x39
}

pub fn lower_char(c: char) -> (r: char)
    ensures
        r == lower(c),
{
    let u = c as u32;
    if 0x41 <= u && u <= 0x5a {
        let b = (u + 32) as u8;
        b as char
    } else {
        c
    }
}


pub proof fn lemma_trim_start_step(s: Seq<char>, i: int)
    requires
        0 <= i < s.len(),
        is_space(s[i]),
    ensures
        trim_start(s.subrange(i, s.len() as int)) == trim_start(s.subrange(i + 1, s.len() as int)),
{
    assert(s.subrange(i, s.len() as int).drop_first() == s.subrange(i + 1, s.len() as int));
}

pub proof fn lemma_trim_end_step(s: Seq<char>, hi: int)
    requires
        0 < hi <= s.len(),
        is_space(s[hi - 1]),
    ensures
        trim_end(s.subrange(0, hi)) == trim_end(s.subrange(0, hi - 1)),
{
    assert(s.subrange(0, hi).drop_last() == s.subrange(0, hi - 1));
}

/// A copy of `v[lo..hi]`.
pub fn slice_of(v: &Vec<char>, lo: usize, hi: usize) -> (r: Vec<char>)
    requires
        lo <= hi <= v.len(),
    ensures
        r@ == v@.subrange(lo as int, hi as int),
{
    let mut r: Vec<char> = Vec::new();
    let mut i = lo;
    while i < hi
        invariant
            lo <= i <= hi,
            hi <= v.len(),
            r@ == v@.subrange(lo as int, i as int),
        decreases hi - i,
    {
        r.push(v[i]);
        i = i + 1;
        assert(r@ == v@.subrange(lo as int, i as int));
    }
    r
}

/// `str::trim` on a character vector.
pub fn trim_chars(v: &Vec<char>) -> (r: Vec<char>)
    ensures
        r@ == trim(v@),
{
    let n = v.len();
    let mut lo: usize = 0;
    assert(v@.subrange(0, n as int) == v@);
    while lo < n && is_space_char(v[lo])
        invariant
            lo <= n,
            n == v.len(),
            trim_start(v@) == trim_start(v@.subrange(lo as int, n as int)),
        decreases n - lo,
    {
        proof {
            lemma_trim_start_step(v@, lo as int);
        }
        lo = lo + 1;
    }
    let ghost rest = v@.subrange(lo as int, n as int);
    assert(trim_start(v@) == rest);
    let mut hi: usize = n;
    assert(rest.subrange(0, rest.len() as int) == rest);
    while hi > lo && is_space_char(v[hi - 1])
        invariant
            lo <= hi <= n,
            n == v.len(),
            rest == v@.subrange(lo as int, n as int),
            trim_end(rest) == trim_end(rest.subrange(0, hi - lo)),
        decreases hi,
    {
        proof {
            lemma_trim_end_step(rest, hi - lo);
        }
        hi = hi - 1;
    }
    assert(rest.subrange(0, hi - lo) == v@.subrange(lo as int, hi as int));
    slice_of(v, lo, hi)
}

/// `to_ascii_lowercase` on a character vector.
pub fn lowercase_chars(v: &Vec<char>) -> (r: Vec<char>)
    ensures
        r@ == lowercase(v@),
{
    let mut r: Vec<char> = Vec::new();
    let mut i: usize = 0;
    while i < v.len()
        invariant
            i <= v.len(),
            r@ == lowercase(v@).take(i as int),
        decreases v.len() - i,
    {
        let c = lower_char(v[i]);
        r.push(c);
        i = i + 1;
        assert(r@ == lowercase(v@).take(i as int));
    }
    assert(lowercase(v@).take(v.len() as int) == lowercase(v@));
    r
}

pub fn all_digit_chars(v: &Vec<char>) -> (b: bool)
    ensures
        b == all_digits(v@),
{
    let mut i: usize = 0;
    while i < v.len()
        invariant
            i <= v.len(),
            forall|j: int| 0 <= j < i ==> #[trigger] is_digit(v@[j]),
        decreases v.len() - i,
    {
        if !is_digit_char(v[i]) {
            return false;
        }
        i = i + 1;
    }
    true
}

pub proof fn lemma_digits_step(s: Seq<char>, k: int)
    requires
        0 <= k < s.len(),
    ensures
        digits_value(s.take(k + 1)) == digits_value(s.take(k)) * 10 + digit_value(s[k]),
{
    assert(s.take(k + 1).drop_last() == s.take(k));
}

pub proof fn lemma_digits_prefix_le(s: Seq<char>, k: int)
    requires
        0 <= k <= s.len(),
    ensures
        digits_value(s.take(k)) <= digits_value(s),
    decreases s.len() - k,
{
    if k < s.len() {
        lemma_digits_step(s, k);
        lemma_digits_prefix_le(s, k + 1);
    } else {
        assert(s.take(k) == s);
    }
}

pub proof fn lemma_pow10_monotone(a: nat, b: nat)
    requires
        a <= b,
    ensures
        pow10(a) <= pow10(b),
        pow10(a) >= 1,
    decreases b,
{
    if b > a {
        lemma_pow10_monotone(a, (b - 1) as nat);
    } else if a > 0 {
        lemma_pow10_monotone((a - 1) as nat, (a - 1) as nat);
    }
}

pub proof fn lemma_digits_below_pow10(s: Seq<char>)
    requires
        all_digits(s),
    ensures
        digits_value(s) < pow10(s.len()),
    decreases s.len(),
{
    if s.len() > 0 {
        let t = s.drop_last();
        assert(all_digits(t)) by {
            assert forall|i: int| 0 <= i < t.len() implies #[trigger] is_digit(t[i]) by {
                assert(t[i] == s[i]);
                assert(is_digit(s[i]));
            }
        }
        lemma_digits_below_pow10(t);
        assert(is_digit(s[s.len() - 1]));
        assert(pow10(s.len()) == 10 * pow10(t.len()));
    }
}

pub proof fn lemma_pow10_bounds()
    ensures
        pow10(19) == 10_000_000_000_000_000_000,
        pow10(20) == 100_000_000_000_000_000_000,
{
    reveal_with_fuel(pow10, 21);
}

/// `10^n` when it fits in a `u64`.
pub fn pow10_u64(n: usize) -> (r: u64)
    requires
        n < 20,
    ensures
        r == pow10(n as nat),
{
    proof {
        lemma_pow10_bounds();
        lemma_pow10_monotone(n as nat, 19);
    }
    let mut r: u64 = 1;
    let mut i: usize = 0;
    while i < n
        invariant
            i <= n < 20,
            r == pow10(i as nat),
        decreases n - i,
    {
        proof {
            lemma_pow10_monotone((i + 1) as nat, 19);
            lemma_pow10_bounds();
        }
        r = r * 10;
        i = i + 1;
    }
    r
}

/// The value of a string of decimal digits, or `None` when it exceeds `u64::MAX`.
pub fn digits_to_u64(v: &Vec<char>) -> (r: Option<u64>)
    requires
        all_digits(v@),
    ensures
        r matches Some(x) ==> x == digits_value(v@),
        r is None <==> digits_value(v@) > u64::MAX,
{
    let mut acc: u64 = 0;
    let mut i: usize = 0;
    while i < v.len()
        invariant
            i <= v.len(),
            all_digits(v@),
            acc == digits_value(v@.take(i as int)),
        decreases v.len() - i,
    {
        proof {
            assert(is_digit(v@[i as int]));
        }
        let d = (v[i] as u32 - 0x30) as u64;
        proof {
            lemma_digits_step(v@, i as int);
        }
        if acc > (u64::MAX - d) / 10 {
            proof {
                lemma_digits_prefix_le(v@, i + 1);
            }
            return None;
        }
        acc = acc * 10 + d;
        i = i + 1;
    }
    assert(v@.take(v.len() as int) == v@);
    Some(acc)
}

pub proof fn lemma_decimal_nonempty(n: nat)
    ensures
        decimal(n).len() >= 1,
    decreases n,
{
    if n >= 10 {
        lemma_decimal_nonempty(n / 10);
    }
}

/// Appends the decimal notation of `n`.
pub fn push_decimal(out: &mut Vec<char>, n: u64)
    ensures
        final(out)@ == old(out)@ + decimal(n as nat),
    decreases n,
{
    if n >= 10 {
        push_decimal(out, n / 10);
    }
    let d = (n % 10) as u8;
    let c = (d + 48) as char;
    assert(c == digit_char(n as nat));
    out.push(c);
}


/// Whether two texts hold the same characters.
pub fn text_eq(a: &str, b: &str) -> (r: bool)
    ensures
        r == (a@ == b@),
{
    let x = chars_of(a);
    let y = chars_of(b);
    if x.len() != y.len() {
        return false;
    }
    let mut i: usize = 0;
    while i < x.len()
        invariant
            i <= x.len(),
            x.len() == y.len(),
            x@ == a@,
            y@ == b@,
            forall|j: int| 0 <= j < i ==> x@[j] == y@[j],
        decreases x.len() - i,
    {
        let p: char = x[i];
        let q: char = y[i];
        if p != q {
            assert(x@[i as int] != y@[i as int]);
            return false;
        }
        i = i + 1;
    }
    assert(x@ =~= y@);
    true
}

/// Whether a text is one of the given words.
pub fn one_of(a: &str, words: &[&str]) -> (r: bool)
    ensures
        r == exists|i: int| 0 <= i < words@.len() && a@ == (#[trigger] words@[i])@,
{
    let mut i: usize = 0;
    while i < words.len()
        invariant
            i <= words@.len(),
            forall|j: int| 0 <= j < i ==> a@ != (#[trigger] words@[j])@,
        decreases words@.len() - i,
    {
        if text_eq(a, words[i]) {
            return true;
        }
        i = i + 1;
    }
    false
}


/// The integer that `str::parse::<i64>` reads before its range check: an
/// optional `+` or `-`, then one or more decimal digits, nothing else.
pub open spec fn signed_value(v: Seq<char>) -> Option<int> {
    if v.len() > 0 && (v[0] == '+' || v[0] == '-') {
        let d = v.drop_first();
        if d.len() > 0 && all_digits(d) {
            Some(
                if v[0] == '-' {
                    -(digits_value(d) as int)
                } else {
                    digits_value(d) as int
                },
            )
        } else {
            None
        }
    } else if v.len() > 0 && all_digits(v) {
        Some(digits_value(v) as int)
    } else {
        None
    }
}

/// `str::parse::<i64>`: `Some` exactly when the text is a signed decimal in range.
pub fn parse_i64(s: &str) -> (r: Option<i64>)
    ensures
        r matches Some(x) ==> signed_value(s@) == Some(x as int),
        r is None <==> (signed_value(s@) matches Some(y) ==> (y < i64::MIN || y > i64::MAX)),
{
    let v = chars_of(s);
    if v.len() == 0 {
        return None;
    }
    let signed = v[0] == '+' || v[0] == '-';
    let negative = v[0] == '-';
    let digits = if signed {
        slice_of(&v, 1, v.len())
    } else {
        slice_of(&v, 0, v.len())
    };
    assert(signed ==> digits@ == v@.drop_first());
    assert(!signed ==> digits@ == v@);
    if digits.len() == 0 || !all_digit_chars(&digits) {
        return None;
    }
    match digits_to_u64(&digits) {
        None => None,
        Some(m) => {
            if negative {
                if m <= 0x8000_0000_0000_0000 {
                    if m == 0x8000_0000_0000_0000 {
                        Some(i64::MIN)
                    } else {
                        Some(-(m as i64))
                    }
                } else {
                    None
                }
            } else if m <= 0x7fff_ffff_ffff_ffff {
                Some(m as i64)
            } else {
                None
            }
        },
    }
}


/// Decimal notation of `n` padded with leading zeros to `width` digits.
pub open spec fn padded(n: nat, width: nat) -> Seq<char>
    decreases width,
{
    if width == 0 {
        Seq::empty()
    } else {
        padded(n / 10, (width - 1) as nat).push(digit_char(n % 10))
    }
}

/// Appends the last `width` decimal digits of `n`, with leading zeros.
pub fn push_padded(out: &mut Vec<char>, n: u64, width: u32)
    ensures
        final(out)@ == old(out)@ + padded(n as nat, width as nat),
    decreases width,
{
    if width == 0 {
        assert(old(out)@ + padded(n as nat, 0) == old(out)@);
        return;
    }
    push_padded(out, n / 10, width - 1);
    let d = (n % 10) as u8;
    let c = (d + 48) as char;
    assert(c == digit_char(n as nat % 10));
    out.push(c);
}


/// Lexicographic order of texts by code point: the order of `str`'s `Ord`,
/// since UTF-8 byte order is code-point order.
pub open spec fn text_lt(a: Seq<char>, b: Seq<char>) -> bool
    decreases a.len(),
{
    if a.len() == 0 {
        b.len() > 0
    } else if b.len() == 0 {
        false
    } else if (a[0] as u32) < (b[0] as u32) {
        true
    } else if a[0] == b[0] {
        text_lt(a.drop_first(), b.drop_first())
    } else {
        false
    }
}

pub proof fn lemma_char_u32_injective(x: char, y: char)
    ensures
        (x as u32) == (y as u32) ==> x == y,
{
}

pub proof fn lemma_text_lt_irreflexive(a: Seq<char>)
    ensures
        !text_lt(a, a),
    decreases a.len(),
{
    if a.len() > 0 {
        lemma_text_lt_irreflexive(a.drop_first());
    }
}

pub proof fn lemma_text_lt_total(a: Seq<char>, b: Seq<char>)
    ensures
        a == b || text_lt(a, b) || text_lt(b, a),
    decreases a.len(),
{
    if a.len() > 0 && b.len() > 0 {
        lemma_char_u32_injective(a[0], b[0]);
        if a[0] == b[0] {
            lemma_text_lt_total(a.drop_first(), b.drop_first());
            if a.drop_first() == b.drop_first() {
                assert(a.drop_first().len() == b.drop_first().len());
                assert(a.len() == b.len());
                assert forall|i: int| 0 <= i < a.len() implies a[i] == b[i] by {
                    if i > 0 {
                        assert(a[i] == a.drop_first()[i - 1]);
                        assert(b[i] == b.drop_first()[i - 1]);
                    }
                }
                assert(a =~= b);
            }
        }
    } else if a.len() == 0 && b.len() == 0 {
        assert(a =~= b);
    }
}

pub proof fn lemma_text_lt_asymmetric(a: Seq<char>, b: Seq<char>)
    ensures
        text_lt(a, b) ==> !text_lt(b, a),
    decreases a.len(),
{
    if a.len() > 0 && b.len() > 0 && a[0] == b[0] {
        lemma_text_lt_asymmetric(a.drop_first(), b.drop_first());
    }
}

pub proof fn lemma_text_lt_transitive(a: Seq<char>, b: Seq<char>, c: Seq<char>)
    requires
        text_lt(a, b),
        text_lt(b, c),
    ensures
        text_lt(a, c),
    decreases a.len(),
{
    if a.len() > 0 && b.len() > 0 && c.len() > 0 {
        if a[0] == b[0] && b[0] == c[0] {
            lemma_text_lt_transitive(a.drop_first(), b.drop_first(), c.drop_first());
        }
    }
}

/// `a < b` in the order of `text_lt`.
pub fn text_less(a: &str, b: &str) -> (r: bool)
    ensures
        r == text_lt(a@, b@),
{
    let x = chars_of(a);
    let y = chars_of(b);
    let mut i: usize = 0;
    assert(x@.skip(0) == x@);
    assert(y@.skip(0) == y@);
    while i < x.len() && i < y.len()
        invariant
            i <= x.len(),
            i <= y.len(),
            x@ == a@,
            y@ == b@,
            text_lt(a@, b@) == text_lt(x@.skip(i as int), y@.skip(i as int)),
        decreases x.len() - i,
    {
        let p: char = x[i];
        let q: char = y[i];
        let ghost xs = x@.skip(i as int);
        let ghost ys = y@.skip(i as int);
        assert(xs[0] == p && ys[0] == q);
        if (p as u32) < (q as u32) {
            return true;
        }
        if p != q {
            proof {
                lemma_char_u32_injective(p, q);
            }
            return false;
        }
        assert(xs.drop_first() == x@.skip(i + 1));
        assert(ys.drop_first() == y@.skip(i + 1));
        i = i + 1;
    }
    i == x.len() && i < y.len()
}

/// Texts joined by line breaks, without a final one.
pub open spec fn joined_lines(parts: Seq<Seq<char>>) -> Seq<char>
    decreases parts.len(),
{
    if parts.len() == 0 {
        Seq::empty()
    } else if parts.len() == 1 {
        parts[0]
    } else {
        joined_lines(parts.drop_last()) + seq!['\n'] + parts.last()
    }
}

/// Lower-casing never turns a character into white space or out of it, and
/// doing it twice changes nothing more.
pub proof fn lemma_lower_keeps_space(c: char)
    ensures
        is_space(lower(c)) == is_space(c),
        lower(lower(c)) == lower(c),
{
    if 0x41 <= (c as u32) && (c as u32) <= 0x5a {
        let d = ((c as u32) + 32) as char;
        assert(d as u32 == (c as u32) + 32);
    }
}

pub proof fn lemma_trim_start_lowercase(s: Seq<char>)
    ensures
        trim_start(lowercase(s)) == lowercase(trim_start(s)),
    decreases s.len(),
{
    if s.len() > 0 {
        lemma_lower_keeps_space(s[0]);
        if is_space(s[0]) {
            assert(lowercase(s).drop_first() =~= lowercase(s.drop_first()));
            lemma_trim_start_lowercase(s.drop_first());
        }
    }
}

pub proof fn lemma_trim_end_lowercase(s: Seq<char>)
    ensures
        trim_end(lowercase(s)) == lowercase(trim_end(s)),
    decreases s.len(),
{
    if s.len() > 0 {
        lemma_lower_keeps_space(s.last());
        if is_space(s.last()) {
            assert(lowercase(s).drop_last() =~= lowercase(s.drop_last()));
            lemma_trim_end_lowercase(s.drop_last());
        }
    }
}

/// Trimming and lower-casing commute, and lower-casing is idempotent.
pub proof fn lemma_trim_lowercase(s: Seq<char>)
    ensures
        trim(lowercase(s)) == lowercase(trim(s)),
        lowercase(lowercase(s)) == lowercase(s),
{
    lemma_trim_start_lowercase(s);
    lemma_trim_end_lowercase(trim_start(s));
    assert forall|i: int| 0 <= i < s.len() implies lowercase(lowercase(s))[i] == lowercase(s)[i] by {
        lemma_lower_keeps_space(s[i]);
    }
    assert(lowercase(lowercase(s)) =~= lowercase(s));
}

/// White space before a text does not change what `trim` leaves.
pub proof fn lemma_trim_space_before(s: Seq<char>, c: char)
    requires
        is_space(c),
    ensures
        trim(seq![c] + s) == trim(s),
{
    assert((seq![c] + s)[0] == c);
    assert((seq![c] + s).drop_first() =~= s);
}

proof fn lemma_trim_start_space_after(x: Seq<char>, c: char)
    requires
        is_space(c),
    ensures
        trim_end(trim_start(x + seq![c])) == trim_end(trim_start(x)),
    decreases x.len(),
{
    if x.len() == 0 {
        assert(x + seq![c] =~= seq![c]);
        assert(seq![c].drop_first() =~= x);
        assert(trim_start(seq![c]) == trim_start(x));
    } else if is_space(x[0]) {
        assert((x + seq![c])[0] == x[0]);
        assert((x + seq![c]).drop_first() =~= x.drop_first() + seq![c]);
        lemma_trim_start_space_after(x.drop_first(), c);
    } else {
        assert((x + seq![c])[0] == x[0]);
        assert(trim_start(x + seq![c]) == x + seq![c]);
        assert(trim_start(x) == x);
        assert((x + seq![c]).last() == c);
        assert((x + seq![c]).drop_last() =~= x);
    }
}

/// White space after a text does not change what `trim` leaves.
pub proof fn lemma_trim_space_after(s: Seq<char>, c: char)
    requires
        is_space(c),
    ensures
        trim(s + seq![c]) == trim(s),
{
    lemma_trim_start_space_after(s, c);
}

/// `trim_start` keeps a text that does not start with white space.
pub proof fn lemma_trim_start_append(a: Seq<char>, u: Seq<char>)
    requires
        u.len() > 0,
        !is_space(u[0]),
    ensures
        trim_start(a + u) == trim_start(a) + u,
    decreases a.len(),
{
    if a.len() == 0 {
        assert(a + u =~= u);
        assert(trim_start(a) + u =~= u);
    } else {
        assert((a + u)[0] == a[0]);
        if is_space(a[0]) {
            assert((a + u).drop_first() =~= a.drop_first() + u);
            lemma_trim_start_append(a.drop_first(), u);
        }
    }
}

/// What `trim_start` leaves ends where the text ends, and trimming it again
/// changes nothing.
pub proof fn lemma_trim_start_tail(a: Seq<char>)
    ensures
        trim_start(a).len() <= a.len(),
        trim_start(a).len() > 0 ==> trim_start(a).last() == a.last() && !is_space(trim_start(a)[0]),
        trim_start(trim_start(a)) == trim_start(a),
    decreases a.len(),
{
    if a.len() > 0 && is_space(a[0]) {
        lemma_trim_start_tail(a.drop_first());
    }
}

/// Lower-casing works character by character.
pub proof fn lemma_lowercase_append(a: Seq<char>, b: Seq<char>)
    ensures
        lowercase(a + b) == lowercase(a) + lowercase(b),
{
    assert(lowercase(a + b) =~= lowercase(a) + lowercase(b));
}

} // verus!
