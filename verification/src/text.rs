//! Byte-level text helpers: searching, splitting, trimming, and decimal numbers.
use vstd::prelude::*;

verus! {

/// Index of the first occurrence of `b` in `s`.
pub open spec fn first_index_of(s: Seq<u8>, b: u8) -> Option<int>
    decreases s.len(),
{
    if s.len() == 0 {
        None
    } else if s[0] == b {
        Some(0)
    } else {
        match first_index_of(s.drop_first(), b) {
            Some(i) => Some(i + 1),
            None => None,
        }
    }
}

pub proof fn lemma_first_index_of(s: Seq<u8>, b: u8)
    ensures
        match first_index_of(s, b) {
            Some(i) => 0 <= i < s.len() && s[i] == b && forall|k: int| 0 <= k < i ==> s[k] != b,
            None => forall|k: int| 0 <= k < s.len() ==> s[k] != b,
        },
    decreases s.len(),
{
    if s.len() > 0 {
        lemma_first_index_of(s.drop_first(), b);
        if s[0] != b {
            match first_index_of(s.drop_first(), b) {
                Some(i) => {
                    assert forall|k: int| 0 <= k < i + 1 implies s[k] != b by {
                        if k > 0 {
                            assert(s[k] == s.drop_first()[k - 1]);
                        }
                    }
                },
                None => {
                    assert forall|k: int| 0 <= k < s.len() implies s[k] != b by {
                        if k > 0 {
                            assert(s[k] == s.drop_first()[k - 1]);
                        }
                    }
                },
            }
        }
    }
}

/// Position of the first `b` in `s`, if any.
pub fn find_byte(s: &[u8], b: u8) -> (r: Option<usize>)
    ensures
        match r {
            Some(i) => first_index_of(s@, b) == Some(i as int) && i < s@.len() && s@[i as int] == b,
            None => first_index_of(s@, b) is None,
        },
{
    proof {
        lemma_first_index_of(s@, b);
    }
    let mut i: usize = 0;
    while i < s.len()
        invariant
            i <= s@.len(),
            forall|k: int| 0 <= k < i ==> s@[k] != b,
            match first_index_of(s@, b) {
                Some(j) => 0 <= j < s@.len() && s@[j] == b && forall|k: int| 0 <= k < j ==> s@[k] != b,
                None => forall|k: int| 0 <= k < s@.len() ==> s@[k] != b,
            },
        decreases s@.len() - i,
    {
        if s[i] == b {
            return Some(i);
        }
        i = i + 1;
    }
    None
}

/// The pieces of `s` between occurrences of `sep` (like `str::split`).
pub open spec fn split_on(s: Seq<u8>, sep: u8) -> Seq<Seq<u8>>
    decreases s.len(),
{
    match first_index_of(s, sep) {
        Some(i) => {
            if 0 <= i < s.len() {
                seq![s.take(i)] + split_on(s.skip(i + 1), sep)
            } else {
                seq![s]
            }
        },
        None => seq![s],
    }
}

/// A copy of `s[from..to]`.
pub fn copy_range(s: &[u8], from: usize, to: usize) -> (r: Vec<u8>)
    requires
        from <= to <= s@.len(),
    ensures
        r@ == s@.subrange(from as int, to as int),
{
    let mut r: Vec<u8> = Vec::with_capacity(to - from);
    let mut i = from;
    while i < to
        invariant
            from <= i <= to <= s@.len(),
            r@ == s@.subrange(from as int, i as int),
        decreases to - i,
    {
        r.push(s[i]);
        i = i + 1;
        assert(r@ =~= s@.subrange(from as int, i as int));
    }
    r
}

/// Splits `s` at every `sep`, keeping empty pieces.
pub fn split_bytes(s: &[u8], sep: u8) -> (r: Vec<Vec<u8>>)
    ensures
        r@.len() == split_on(s@, sep).len(),
        forall|i: int| 0 <= i < r@.len() ==> (#[trigger] r@[i])@ == split_on(s@, sep)[i],
{
    let mut r: Vec<Vec<u8>> = Vec::new();
    let mut start: usize = 0;
    let ghost whole = s@;
    assert(whole.skip(0) =~= whole);
    loop
        invariant
            start <= s@.len(),
            whole == s@,
            forall|i: int| 0 <= i < r@.len() ==> (#[trigger] r@[i])@ == split_on(whole, sep)[i],
            split_on(whole, sep) =~= Seq::new(r@.len() as nat, |i: int| r@[i]@) + split_on(whole.skip(start as int), sep),
        decreases s@.len() - start,
    {
        let ghost rest = whole.skip(start as int);
        proof {
            lemma_first_index_of(rest, sep);
        }
        let mut j = start;
        while j < s.len() && s[j] != sep
            invariant
                start <= j <= s@.len(),
                forall|k: int| start <= k < j ==> s@[k] != sep,
            decreases s@.len() - j,
        {
            j = j + 1;
        }
        let piece = copy_range(s, start, j);
        let ghost prev = r@;
        if j == s.len() {
            proof {
                assert forall|k: int| 0 <= k < rest.len() implies rest[k] != sep by {
                    assert(rest[k] == s@[start + k]);
                }
                if first_index_of(rest, sep) is Some {
                    let i = first_index_of(rest, sep)->0;
                    assert(rest[i] == sep);
                }
                assert(rest =~= s@.subrange(start as int, j as int));
            }
            r.push(piece);
            assert(Seq::new(r@.len() as nat, |i: int| r@[i]@) =~= Seq::new(prev.len() as nat, |i: int| prev[i]@).push(piece@));
            assert(split_on(whole, sep) =~= Seq::new(r@.len() as nat, |i: int| r@[i]@));
            assert forall|i: int| 0 <= i < r@.len() implies (#[trigger] r@[i])@ == split_on(whole, sep)[i] by {}
            return r;
        }
        proof {
            assert(rest[j - start] == sep);
            assert forall|k: int| 0 <= k < j - start implies rest[k] != sep by {
                assert(rest[k] == s@[start + k]);
            }
            let i = first_index_of(rest, sep)->0;
            assert(i == j - start);
            assert(rest.take(i) =~= s@.subrange(start as int, j as int));
            assert(rest.skip(i + 1) =~= whole.skip(j + 1));
        }
        r.push(piece);
        assert(Seq::new(r@.len() as nat, |i: int| r@[i]@) =~= Seq::new(prev.len() as nat, |i: int| prev[i]@).push(piece@));
        start = j + 1;
    }
}

/// Unicode `White_Space` characters, as their UTF-8 encodings: the length of the one
/// that `s` starts with (0 when none does).
pub open spec fn ws_prefix_len(s: Seq<u8>) -> nat {
    if s.len() >= 1 && ((9 <= s[0] <= 13) || s[0] == 32) {
        1
    } else if s.len() >= 2 && s[0] == 0xC2 && (s[1] == 0x85 || s[1] == 0xA0) {
        2
    } else if s.len() >= 3 && is_ws3(s[0], s[1], s[2]) {
        3
    } else {
        0
    }
}

/// The three-byte UTF-8 encodings of Unicode `White_Space` characters
/// (U+1680, U+2000..U+200A, U+2028, U+2029, U+202F, U+205F, U+3000).
pub open spec fn is_ws3(a: u8, b: u8, c: u8) -> bool {
    ||| a == 0xE1 && b == 0x9A && c == 0x80
    ||| a == 0xE2 && b == 0x80 && (0x80 <= c <= 0x8A || c == 0xA8 || c == 0xA9 || c == 0xAF)
    ||| a == 0xE2 && b == 0x81 && c == 0x9F
    ||| a == 0xE3 && b == 0x80 && c == 0x80
}

/// The length of the whitespace encoding that `s` ends with (0 when none).
pub open spec fn ws_suffix_len(s: Seq<u8>) -> nat {
    let n = s.len() as int;
    if n >= 1 && ((9 <= s[n - 1] <= 13) || s[n - 1] == 32) {
        1
    } else if n >= 2 && s[n - 2] == 0xC2 && (s[n - 1] == 0x85 || s[n - 1] == 0xA0) {
        2
    } else if n >= 3 && is_ws3(s[n - 3], s[n - 2], s[n - 1]) {
        3
    } else {
        0
    }
}

/// `s` without leading whitespace.
pub open spec fn trim_start(s: Seq<u8>) -> Seq<u8>
    decreases s.len(),
{
    if ws_prefix_len(s) > 0 {
        trim_start(s.skip(ws_prefix_len(s) as int))
    } else {
        s
    }
}

/// `s` without trailing whitespace.
pub open spec fn trim_end_ws(s: Seq<u8>) -> Seq<u8>
    decreases s.len(),
{
    if ws_suffix_len(s) > 0 {
        trim_end_ws(s.take(s.len() - ws_suffix_len(s)))
    } else {
        s
    }
}

/// `s` without leading and trailing whitespace. On UTF-8 text this is `str::trim`
/// (whitespace encodings are never part of another character's encoding).
pub open spec fn trim_ws(s: Seq<u8>) -> Seq<u8> {
    trim_end_ws(trim_start(s))
}

fn prefix_ws_len(s: &[u8], from: usize, to: usize) -> (k: usize)
    requires
        from <= to <= s@.len(),
    ensures
        k == ws_prefix_len(s@.subrange(from as int, to as int)),
{
    let n = to - from;
    let ghost t = s@.subrange(from as int, to as int);
    if n >= 1 && ((9 <= s[from] && s[from] <= 13) || s[from] == 32) {
        1
    } else if n >= 2 && s[from] == 0xC2 && (s[from + 1] == 0x85 || s[from + 1] == 0xA0) {
        2
    } else if n >= 3 && is_ws3_exec(s[from], s[from + 1], s[from + 2]) {
        3
    } else {
        0
    }
}

fn suffix_ws_len(s: &[u8], from: usize, to: usize) -> (k: usize)
    requires
        from <= to <= s@.len(),
    ensures
        k == ws_suffix_len(s@.subrange(from as int, to as int)),
{
    let n = to - from;
    if n >= 1 && ((9 <= s[to - 1] && s[to - 1] <= 13) || s[to - 1] == 32) {
        1
    } else if n >= 2 && s[to - 2] == 0xC2 && (s[to - 1] == 0x85 || s[to - 1] == 0xA0) {
        2
    } else if n >= 3 && is_ws3_exec(s[to - 3], s[to - 2], s[to - 1]) {
        3
    } else {
        0
    }
}

fn is_ws3_exec(a: u8, b: u8, c: u8) -> (r: bool)
    ensures
        r == is_ws3(a, b, c),
{
    (a == 0xE1 && b == 0x9A && c == 0x80)
        || (a == 0xE2 && b == 0x80 && ((0x80 <= c && c <= 0x8A) || c == 0xA8 || c == 0xA9 || c == 0xAF))
        || (a == 0xE2 && b == 0x81 && c == 0x9F)
        || (a == 0xE3 && b == 0x80 && c == 0x80)
}

/// The bounds `(from, to)` of `s` with surrounding whitespace removed.
pub fn trim_bounds(s: &[u8]) -> (r: (usize, usize))
    ensures
        r.0 <= r.1 <= s@.len(),
        s@.subrange(r.0 as int, r.1 as int) == trim_ws(s@),
{
    let mut from: usize = 0;
    let to0 = s.len();
    assert(s@.subrange(0, to0 as int) =~= s@);
    let mut k = prefix_ws_len(s, from, to0);
    while k > 0
        invariant
            from <= to0 == s@.len(),
            k == ws_prefix_len(s@.subrange(from as int, to0 as int)),
            trim_start(s@) == trim_start(s@.subrange(from as int, to0 as int)),
        decreases to0 - from,
    {
        assert(s@.subrange(from as int, to0 as int).skip(k as int) =~= s@.subrange(from + k, to0 as int));
        from = from + k;
        k = prefix_ws_len(s, from, to0);
    }
    let mut to = to0;
    let mut k2 = suffix_ws_len(s, from, to);
    while k2 > 0
        invariant
            from <= to <= s@.len(),
            k2 == ws_suffix_len(s@.subrange(from as int, to as int)),
            trim_ws(s@) == trim_end_ws(s@.subrange(from as int, to as int)),
        decreases to - from,
    {
        assert(s@.subrange(from as int, to as int).take(to - from - k2) =~= s@.subrange(from as int, to - k2));
        to = to - k2;
        k2 = suffix_ws_len(s, from, to);
    }
    (from, to)
}

pub open spec fn is_digit(b: u8) -> bool {
    48 <= b <= 57
}

/// The number that the decimal digits `s` spell.
pub open spec fn digits_value(s: Seq<u8>) -> nat
    decreases s.len(),
{
    if s.len() == 0 {
        0
    } else {
        digits_value(s.drop_last()) * 10 + (s.last() - 48) as nat
    }
}

/// `s` after an optional leading `+`, as the unsigned integer parsers of `str::parse` see it.
pub open spec fn unsigned_digits(s: Seq<u8>) -> Seq<u8> {
    if s.len() > 0 && s[0] == 43 {
        s.drop_first()
    } else {
        s
    }
}

/// What `str::parse` gives for an unsigned integer type whose largest value is `max`:
/// an optional `+` followed by at least one decimal digit, with a value up to `max`.
pub open spec fn parse_unsigned(s: Seq<u8>, max: nat) -> Option<nat> {
    let d = unsigned_digits(s);
    if d.len() == 0 || exists|i: int| 0 <= i < d.len() && !is_digit(#[trigger] d[i]) {
        None
    } else if digits_value(d) > max {
        None
    } else {
        Some(digits_value(d))
    }
}

proof fn lemma_parse_unsigned_non_digit(s: Seq<u8>, max: nat, k: int)
    requires
        0 <= k < unsigned_digits(s).len(),
        !is_digit(unsigned_digits(s)[k]),
    ensures
        parse_unsigned(s, max) is None,
{
    let d = unsigned_digits(s);
    assert(exists|i: int| 0 <= i < d.len() && !is_digit(#[trigger] d[i]));
}

proof fn lemma_digits_value_monotone(s: Seq<u8>, i: int)
    requires
        0 <= i <= s.len(),
        forall|k: int| 0 <= k < s.len() ==> is_digit(#[trigger] s[k]),
    ensures
        digits_value(s.take(i)) <= digits_value(s),
    decreases s.len() - i,
{
    if i < s.len() {
        lemma_digits_value_monotone(s, i + 1);
        assert(s.take(i + 1).drop_last() =~= s.take(i));
    } else {
        assert(s.take(i) =~= s);
    }
}

/// Parses `s` as `str::parse::<uN>()` does, for a type whose largest value is `max`.
pub fn parse_unsigned_exec(s: &[u8], max: u64) -> (r: Option<u64>)
    requires
        max <= u32::MAX,
    ensures
        match r {
            Some(v) => parse_unsigned(s@, max as nat) == Some(v as nat),
            None => parse_unsigned(s@, max as nat) is None,
        },
{
    let start: usize = if s.len() > 0 && s[0] == 43 { 1 } else { 0 };
    let ghost d = unsigned_digits(s@);
    assert(d =~= s@.skip(start as int));
    if start == s.len() {
        return None;
    }
    let mut acc: u64 = 0;
    let mut i = start;
    assert(d.take(0) =~= Seq::<u8>::empty());
    while i < s.len()
        invariant
            start <= i <= s@.len(),
            d == s@.skip(start as int),
            d == unsigned_digits(s@),
            acc <= max,
            max <= u32::MAX,
            acc == digits_value(d.take(i - start)),
            forall|k: int| 0 <= k < i - start ==> is_digit(#[trigger] d[k]),
        decreases s@.len() - i,
    {
        let b = s[i];
        assert(d[i - start] == b);
        if b < 48 || b > 57 {
            assert(!is_digit(d[i - start]));
            assert(d.len() > 0);
            proof {
                lemma_parse_unsigned_non_digit(s@, max as nat, i - start);
            }
            return None;
        }
        assert(d.take(i - start + 1).drop_last() =~= d.take(i - start));
        assert(d.take(i - start + 1).last() == b);
        acc = acc * 10 + (b - 48) as u64;
        i = i + 1;
        if acc > max {
            proof {
                if forall|k: int| 0 <= k < d.len() ==> is_digit(#[trigger] d[k]) {
                    lemma_digits_value_monotone(d, i - start);
                }
            }
            return None;
        }
    }
    assert(d.take(i - start) =~= d);
    Some(acc)
}

/// Parses `s` as `str::parse::<usize>()` does.
pub fn parse_usize_exec(s: &[u8]) -> (r: Option<usize>)
    ensures
        match r {
            Some(v) => parse_unsigned(s@, usize::MAX as nat) == Some(v as nat),
            None => parse_unsigned(s@, usize::MAX as nat) is None,
        },
{
    let ghost max = usize::MAX as nat;
    let start: usize = if s.len() > 0 && s[0] == 43 { 1 } else { 0 };
    let ghost d = unsigned_digits(s@);
    assert(d =~= s@.skip(start as int));
    if start == s.len() {
        return None;
    }
    let mut acc: usize = 0;
    let mut i = start;
    assert(d.take(0) =~= Seq::<u8>::empty());
    while i < s.len()
        invariant
            start <= i <= s@.len(),
            d == s@.skip(start as int),
            d == unsigned_digits(s@),
            max == usize::MAX as nat,
            acc == digits_value(d.take(i - start)),
            forall|k: int| 0 <= k < i - start ==> is_digit(#[trigger] d[k]),
        decreases s@.len() - i,
    {
        let b = s[i];
        assert(d[i - start] == b);
        if b < 48 || b > 57 {
            assert(!is_digit(d[i - start]));
            proof {
                lemma_parse_unsigned_non_digit(s@, max, i - start);
            }
            return None;
        }
        assert(d.take(i - start + 1).drop_last() =~= d.take(i - start));
        assert(d.take(i - start + 1).last() == b);
        let next = match acc.checked_mul(10) {
            Some(t) => t.checked_add((b - 48) as usize),
            None => None,
        };
        match next {
            Some(n) => {
                acc = n;
                i = i + 1;
            },
            None => {
                proof {
                    assert(digits_value(d.take(i - start + 1)) > max);
                    if forall|k: int| 0 <= k < d.len() ==> is_digit(#[trigger] d[k]) {
                        lemma_digits_value_monotone(d, i - start + 1);
                    }
                }
                return None;
            },
        }
    }
    assert(d.take(i - start) =~= d);
    Some(acc)
}

/// What `str::parse::<i32>()` gives: an optional sign followed by at least one digit,
/// with a value in the `i32` range.
pub open spec fn parse_i32(s: Seq<u8>) -> Option<int> {
    if s.len() > 0 && s[0] == 45 {
        let d = s.drop_first();
        if d.len() == 0 || exists|i: int| 0 <= i < d.len() && !is_digit(#[trigger] d[i]) {
            None
        } else if digits_value(d) > 0x8000_0000 {
            None
        } else {
            Some(-(digits_value(d) as int))
        }
    } else {
        match parse_unsigned(s, 0x7fff_ffff) {
            Some(v) => Some(v as int),
            None => None,
        }
    }
}

/// Parses `s` as `str::parse::<i32>()` does.
pub fn parse_i32_exec(s: &[u8]) -> (r: Option<i32>)
    ensures
        match r {
            Some(v) => parse_i32(s@) == Some(v as int),
            None => parse_i32(s@) is None,
        },
{
    if s.len() > 0 && s[0] == 45 {
        let rest = copy_range(s, 1, s.len());
        assert(rest@ =~= s@.drop_first());
        if rest.len() > 0 && rest[0] == 43 {
            // A '+' after '-' is not a digit.
            assert(!is_digit(rest@[0]));
            return None;
        }
        assert(unsigned_digits(rest@) == rest@);
        match parse_unsigned_exec(rest.as_slice(), 0x8000_0000) {
            Some(v) => {
                let r: i64 = 0 - (v as i64);
                Some(r as i32)
            },
            None => None,
        }
    } else {
        match parse_unsigned_exec(s, 0x7fff_ffff) {
            Some(v) => Some(v as i32),
            None => None,
        }
    }
}

/// The decimal representation of `n`.
pub open spec fn decimal(n: nat) -> Seq<u8>
    decreases n,
{
    if n < 10 {
        seq![(48 + n) as u8]
    } else {
        decimal(n / 10).push((48 + n % 10) as u8)
    }
}

/// Appends the decimal digits of `n` to `out`.
pub fn push_decimal(out: &mut Vec<u8>, n: u64)
    ensures
        final(out)@ == old(out)@ + decimal(n as nat),
    decreases n,
{
    if n < 10 {
        out.push((48 + n) as u8);
        assert(final(out)@ =~= old(out)@ + decimal(n as nat)) by {
            assert(decimal(n as nat) =~= seq![(48 + n) as u8]);
        };
    } else {
        push_decimal(out, n / 10);
        out.push((48 + n % 10) as u8);
        assert(out@ =~= old(out)@ + decimal(n as nat));
    }
}

/// The lowercase hexadecimal representation of `n` (as `{:x}` formats it).
pub open spec fn hex_lower(n: nat) -> Seq<u8>
    decreases n,
{
    if n < 16 {
        seq![hex_digit(n)]
    } else {
        hex_lower(n / 16).push(hex_digit(n % 16))
    }
}

pub open spec fn hex_digit(d: nat) -> u8 {
    if d < 10 {
        (48 + d) as u8
    } else {
        (87 + d) as u8
    }
}

/// Appends the lowercase hexadecimal digits of `n` to `out`.
pub fn push_hex_lower(out: &mut Vec<u8>, n: u64)
    ensures
        final(out)@ == old(out)@ + hex_lower(n as nat),
    decreases n,
{
    if n < 16 {
        let d: u8 = if n < 10 { (48 + n) as u8 } else { (87 + n) as u8 };
        out.push(d);
        assert(final(out)@ =~= old(out)@ + hex_lower(n as nat));
    } else {
        push_hex_lower(out, n / 16);
        let m = n % 16;
        let d: u8 = if m < 10 { (48 + m) as u8 } else { (87 + m) as u8 };
        out.push(d);
        assert(out@ =~= old(out)@ + hex_lower(n as nat));
    }
}

/// `s` starts with `p`.
pub open spec fn has_prefix(s: Seq<u8>, p: Seq<u8>) -> bool {
    p.len() <= s.len() && s.take(p.len() as int) == p
}

pub fn starts_with_bytes(s: &[u8], p: &[u8]) -> (r: bool)
    ensures
        r == has_prefix(s@, p@),
{
    if p.len() > s.len() {
        return false;
    }
    let mut i: usize = 0;
    while i < p.len()
        invariant
            i <= p@.len() <= s@.len(),
            forall|k: int| 0 <= k < i ==> s@[k] == p@[k],
        decreases p@.len() - i,
    {
        if s[i] != p[i] {
            assert(s@.take(p@.len() as int)[i as int] != p@[i as int]);
            return false;
        }
        i = i + 1;
    }
    assert(s@.take(p@.len() as int) =~= p@);
    true
}

/// `p` occurs in `s` at some position.
pub open spec fn has_infix(s: Seq<u8>, p: Seq<u8>) -> bool {
    exists|i: int| 0 <= i && i + p.len() <= s.len() && #[trigger] s.subrange(i, i + p.len()) == p
}

pub fn contains_bytes(s: &[u8], p: &[u8]) -> (r: bool)
    ensures
        r == has_infix(s@, p@),
{
    if p.len() > s.len() {
        return false;
    }
    if p.len() == 0 {
        assert(s@.subrange(0, 0 + p@.len() as int) =~= p@);
        return true;
    }
    let n = s.len();
    let last = n - p.len();
    let mut i: usize = 0;
    while i <= last
        invariant
            n == s@.len(),
            p@.len() > 0,
            last == n - p@.len(),
            i <= last + 1,
            forall|k: int| 0 <= k < i ==> #[trigger] s@.subrange(k, k + p@.len()) != p@,
        decreases s@.len() + 1 - i - p@.len(),
    {
        let mut j: usize = 0;
        let mut same = true;
        while j < p.len()
            invariant
                j <= p@.len(),
                n == s@.len(),
                i <= last,
                last == n - p@.len(),
                same == forall|k: int| 0 <= k < j ==> s@[i + k] == p@[k],
            decreases p@.len() - j,
        {
            if s[i + j] != p[j] {
                same = false;
            }
            j = j + 1;
        }
        if same {
            assert(s@.subrange(i as int, i + p@.len()) =~= p@);
            return true;
        }
        assert(s@.subrange(i as int, i + p@.len()) != p@) by {
            let k = choose|k: int| 0 <= k < p@.len() && s@[i + k] != p@[k];
            assert(s@.subrange(i as int, i + p@.len())[k] != p@[k]);
        };
        i = i + 1;
    }
    false
}


/// Length of the run of non-whitespace bytes `s` starts with.
pub open spec fn word_len(s: Seq<u8>) -> nat
    decreases s.len(),
{
    if s.len() == 0 || ws_prefix_len(s) > 0 {
        0
    } else {
        1 + word_len(s.drop_first())
    }
}

/// The first whitespace-separated word of `s`, empty when there is none
/// (`split_whitespace().next().unwrap_or("")`).
pub open spec fn first_word(s: Seq<u8>) -> Seq<u8> {
    trim_start(s).take(word_len(trim_start(s)) as int)
}

/// The bounds `(from, to)` of the first word of `s`.
pub fn first_word_bounds(s: &[u8]) -> (r: (usize, usize))
    ensures
        r.0 <= r.1 <= s@.len(),
        s@.subrange(r.0 as int, r.1 as int) == first_word(s@),
{
    let n = s.len();
    let mut from: usize = 0;
    assert(s@.subrange(0, n as int) =~= s@);
    let mut k = prefix_ws_len(s, from, n);
    while k > 0
        invariant
            from <= n == s@.len(),
            k == ws_prefix_len(s@.subrange(from as int, n as int)),
            trim_start(s@) == trim_start(s@.subrange(from as int, n as int)),
        decreases n - from,
    {
        assert(s@.subrange(from as int, n as int).skip(k as int) =~= s@.subrange(from + k, n as int));
        from = from + k;
        k = prefix_ws_len(s, from, n);
    }
    let ghost t = s@.subrange(from as int, n as int);
    assert(trim_start(s@) == t);
    let mut to = from;
    assert(t.skip(0) =~= t);
    while to < n && prefix_ws_len(s, to, n) == 0
        invariant
            from <= to <= n == s@.len(),
            t == s@.subrange(from as int, n as int),
            word_len(t) == (to - from) + word_len(t.skip(to - from)),
        decreases n - to,
    {
        assert(t.skip(to - from) =~= s@.subrange(to as int, n as int));
        assert(t.skip(to - from).drop_first() =~= t.skip(to - from + 1));
        to = to + 1;
    }
    proof {
        if to < n {
            assert(t.skip(to - from) =~= s@.subrange(to as int, n as int));
        } else {
            assert(t.skip(to - from).len() == 0);
        }
        assert(t.take(to - from) =~= s@.subrange(from as int, to as int));
    }
    (from, to)
}

/// Different numbers have different decimal representations.
pub proof fn lemma_decimal_injective(a: nat, b: nat)
    requires
        decimal(a) == decimal(b),
    ensures
        a == b,
    decreases a,
{
    lemma_decimal_len(a);
    lemma_decimal_len(b);
    if a >= 10 && b >= 10 {
        assert(decimal(a / 10) =~= decimal(a).drop_last());
        assert(decimal(b / 10) =~= decimal(b).drop_last());
        lemma_decimal_injective(a / 10, b / 10);
        assert(decimal(a).last() == decimal(b).last());
        assert(decimal(a).last() == (48 + a % 10) as u8);
        assert(decimal(b).last() == (48 + b % 10) as u8);
        assert(a % 10 == b % 10);
        assert(a == 10 * (a / 10) + a % 10);
        assert(b == 10 * (b / 10) + b % 10);
    } else if a < 10 && b < 10 {
        assert(decimal(a)[0] == decimal(b)[0]);
        assert(decimal(a)[0] == (48 + a) as u8);
        assert(decimal(b)[0] == (48 + b) as u8);
        assert(a == b);
    } else {
        assert(decimal(a).len() == decimal(b).len());
        assert(false);
    }
}

/// The decimal representation of `n` consists of digits spelling `n`.
pub proof fn lemma_decimal_value(n: nat)
    ensures
        forall|i: int| 0 <= i < decimal(n).len() ==> is_digit(#[trigger] decimal(n)[i]),
        digits_value(decimal(n)) == n,
    decreases n,
{
    lemma_decimal_len(n);
    if n >= 10 {
        lemma_decimal_value(n / 10);
        let d = decimal(n);
        assert(d.drop_last() =~= decimal(n / 10));
        assert forall|i: int| 0 <= i < d.len() implies is_digit(#[trigger] d[i]) by {
            if i < d.len() - 1 {
                assert(d[i] == decimal(n / 10)[i]);
            }
        }
        assert(d.last() == (48 + n % 10) as u8);
        assert(digits_value(d) == digits_value(d.drop_last()) * 10 + (d.last() - 48) as nat);
        assert(digits_value(d) == (n / 10) * 10 + n % 10);
        assert(n == (n / 10) * 10 + n % 10);
    } else {
        let d = decimal(n);
        assert(d.drop_last() =~= Seq::<u8>::empty());
        assert(d.last() == (48 + n) as u8);
        assert(digits_value(d) == digits_value(d.drop_last()) * 10 + (d.last() - 48) as nat);
        assert(digits_value(Seq::<u8>::empty()) == 0);
    }
}

/// `str::parse` reads the decimal representation of a number back.
pub proof fn lemma_parse_decimal(n: nat, max: nat)
    requires
        n <= max,
    ensures
        parse_unsigned(decimal(n), max) == Some(n),
{
    lemma_decimal_value(n);
    lemma_decimal_len(n);
    assert(unsigned_digits(decimal(n)) == decimal(n)) by {
        assert(is_digit(decimal(n)[0]));
    }
}

/// Text that starts and ends with a visible ASCII character is its own trim.
pub proof fn lemma_trim_visible(s: Seq<u8>)
    requires
        s.len() >= 1,
        33 <= s[0] <= 126,
        33 <= s.last() <= 126,
    ensures
        trim_ws(s) == s,
{
    assert(ws_prefix_len(s) == 0);
    assert(trim_start(s) == s);
    assert(ws_suffix_len(s) == 0);
}

/// A decimal representation has one digit exactly for numbers below 10.
pub proof fn lemma_decimal_len(n: nat)
    ensures
        decimal(n).len() >= 1,
        (decimal(n).len() == 1) == (n < 10),
    decreases n,
{
    if n >= 10 {
        lemma_decimal_len(n / 10);
    }
}

/// `String::push`: appends one character.
pub assume_specification[String::push](s: &mut String, ch: char)
    ensures
        final(s)@ == old(s)@.push(ch),
;

/// `String::push_str`: appends a string slice.
pub assume_specification[String::push_str](s: &mut String, string: &str)
    ensures
        final(s)@ == old(s)@ + string@,
;

/// The decimal digits of `n` as characters.
pub open spec fn digit_chars(n: nat) -> Seq<char> {
    decimal(n).map_values(|b: u8| b as char)
}

fn digit_char(d: u64) -> (c: char)
    requires
        d < 10,
    ensures
        c == ((48 + d) as u8) as char,
{
    if d == 0 {
        '0'
    } else if d == 1 {
        '1'
    } else if d == 2 {
        '2'
    } else if d == 3 {
        '3'
    } else if d == 4 {
        '4'
    } else if d == 5 {
        '5'
    } else if d == 6 {
        '6'
    } else if d == 7 {
        '7'
    } else if d == 8 {
        '8'
    } else {
        '9'
    }
}

/// Appends the decimal digits of `n`.
pub fn push_digits(s: &mut String, n: u64)
    ensures
        final(s)@ == old(s)@ + digit_chars(n as nat),
    decreases n,
{
    if n < 10 {
        s.push(digit_char(n));
        assert(final(s)@ =~= old(s)@ + digit_chars(n as nat));
    } else {
        push_digits(s, n / 10);
        s.push(digit_char(n % 10));
        assert(digit_chars(n as nat) =~= digit_chars((n / 10) as nat).push(((48 + n % 10) as u8) as char));
        assert(s@ =~= old(s)@ + digit_chars(n as nat));
    }
}

} // verus!
