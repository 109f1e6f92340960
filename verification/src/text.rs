//! Character-level text helpers with their mathematical models.

use vstd::prelude::*;

verus! {

broadcast use vstd::string::group_string_axioms;

/// Appends one character to a `String` with std's `String::push`. The
/// contract claims what std documents: the text afterwards is the text
/// before followed by `c`.
#[verifier::external_body]
pub(crate) fn push_char(s: &mut String, c: char)
    ensures
        final(s)@ == old(s)@.push(c),
{
    s.push(c);
}

/// The characters of `s`, in order.
pub fn chars_of(s: &str) -> (out: Vec<char>)
    ensures
        out@ == s@,
{
    let mut out: Vec<char> = Vec::new();
    for c in it: s.chars()
        invariant
            it.seq() == s@,
            out@ == s@.take(it.index() as int),
    {
        out.push(c);
        proof {
            assert(s@.take(it.index() as int + 1) =~= out@);
        }
    }
    assert(out@ =~= s@);
    out
}

/// Builds a `String` holding the characters of `cs`.
pub fn string_of(cs: &[char]) -> (out: String)
    ensures
        out@ == cs@,
{
    let mut out = String::new();
    let mut i: usize = 0;
    while i < cs.len()
        invariant
            i <= cs@.len(),
            out@ == cs@.take(i as int),
        decreases cs@.len() - i,
    {
        push_char(&mut out, cs[i]);
        i = i + 1;
        assert(out@ =~= cs@.take(i as int));
    }
    assert(cs@.take(i as int) =~= cs@);
    out
}

} // verus!

verus! {

// ---------------------------------------------------------------------------
// Decimal digits and integer parsing.
// ---------------------------------------------------------------------------

/// An ASCII decimal digit.
pub open spec fn is_digit(c: char) -> bool {
    '0' <= c && c <= '9'
}

/// The value of an ASCII digit.
pub open spec fn digit_value(c: char) -> nat {
    ((c as int) - ('0' as int)) as nat
}

/// Every character of `s` is an ASCII digit.
pub open spec fn all_digits(s: Seq<char>) -> bool {
    forall|i: int| 0 <= i < s.len() ==> is_digit(#[trigger] s[i])
}

/// The number written by the decimal digits `s` (0 for the empty text).
pub open spec fn decimal_value(s: Seq<char>) -> nat
    decreases s.len(),
{
    if s.len() == 0 {
        0
    } else {
        10 * decimal_value(s.drop_last()) + digit_value(s.last())
    }
}

/// The digits that an unsigned `FromStr` reads: one leading `+` is dropped.
pub open spec fn unsigned_body(s: Seq<char>) -> Seq<char> {
    if s.len() > 0 && s[0] == '+' {
        s.drop_first()
    } else {
        s
    }
}

/// What std's `str::parse::<u64>`-style parsing yields for an unsigned type
/// whose largest value is `max`: an optional `+`, then at least one ASCII
/// digit and nothing else, with a value of at most `max`.
pub open spec fn parse_unsigned(s: Seq<char>, max: nat) -> Option<nat> {
    let body = unsigned_body(s);
    if body.len() > 0 && all_digits(body) && decimal_value(body) <= max {
        Some(decimal_value(body))
    } else {
        None
    }
}

/// `str::parse::<u32>` on the text `s`.
pub open spec fn parse_u32_text(s: Seq<char>) -> Option<u32> {
    match parse_unsigned(s, u32::MAX as nat) {
        Some(v) => Some(v as u32),
        None => None,
    }
}

/// `str::parse::<u64>` on the text `s`.
pub open spec fn parse_u64_text(s: Seq<char>) -> Option<u64> {
    match parse_unsigned(s, u64::MAX as nat) {
        Some(v) => Some(v as u64),
        None => None,
    }
}

/// `str::parse::<i32>` on the text `s`: an optional sign, then at least one
/// ASCII digit and nothing else, within the range of `i32`.
pub open spec fn parse_i32_text(s: Seq<char>) -> Option<i32> {
    let signed = s.len() > 0 && (s[0] == '+' || s[0] == '-');
    let negative = s.len() > 0 && s[0] == '-';
    let body = if signed { s.drop_first() } else { s };
    if body.len() > 0 && all_digits(body) {
        let v = decimal_value(body);
        if negative {
            if v <= 0x8000_0000 { Some((-v) as i32) } else { None }
        } else {
            if v <= 0x7fff_ffff { Some(v as i32) } else { None }
        }
    } else {
        None
    }
}

/// The value of a prefix never exceeds the value of the whole digit text.
pub proof fn lemma_decimal_prefix(s: Seq<char>, k: int)
    requires
        0 <= k <= s.len(),
    ensures
        decimal_value(s.take(k)) <= decimal_value(s),
    decreases s.len(),
{
    if k < s.len() {
        lemma_decimal_prefix(s.drop_last(), k);
        assert(s.drop_last().take(k) =~= s.take(k));
    } else {
        assert(s.take(k) =~= s);
    }
}

/// Whether `cs` is all ASCII digits.
pub fn only_digits(cs: &[char]) -> (r: bool)
    ensures
        r == all_digits(cs@),
{
    let mut i: usize = 0;
    while i < cs.len()
        invariant
            i <= cs@.len(),
            forall|j: int| 0 <= j < i ==> is_digit(#[trigger] cs@[j]),
        decreases cs@.len() - i,
    {
        if !('0' <= cs[i] && cs[i] <= '9') {
            return false;
        }
        i = i + 1;
    }
    true
}

/// The value of the digit text `cs` when it is at most `max`.
fn bounded_decimal(cs: &[char], max: u64) -> (r: Option<u64>)
    requires
        all_digits(cs@),
    ensures
        match r {
            Some(v) => v as nat == decimal_value(cs@) && decimal_value(cs@) <= max,
            None => decimal_value(cs@) > max,
        },
{
    let mut acc: u64 = 0;
    let mut i: usize = 0;
    while i < cs.len()
        invariant
            i <= cs@.len(),
            all_digits(cs@),
            acc as nat == decimal_value(cs@.take(i as int)),
            acc <= max,
        decreases cs@.len() - i,
    {
        let d = (cs[i] as u32 - '0' as u32) as u64;
        proof {
            assert(is_digit(cs@[i as int]));
            assert(cs@.take(i as int + 1).drop_last() =~= cs@.take(i as int));
            assert(cs@.take(i as int + 1).last() == cs@[i as int]);
            lemma_decimal_prefix(cs@, i as int + 1);
        }
        match acc.checked_mul(10) {
            Some(t) => match t.checked_add(d) {
                Some(n) => {
                    if n > max {
                        return None;
                    }
                    acc = n;
                },
                None => {
                    return None;
                },
            },
            None => {
                return None;
            },
        }
        i = i + 1;
    }
    assert(cs@.take(i as int) =~= cs@);
    Some(acc)
}

/// Parses an unsigned number no larger than `max`, as std's `FromStr` does.
fn parse_unsigned_chars(cs: &[char], max: u64) -> (r: Option<u64>)
    ensures
        match parse_unsigned(cs@, max as nat) {
            Some(v) => r == Some(v as u64),
            None => r is None,
        },
{
    let body: &[char] = if cs.len() > 0 && cs[0] == '+' {
        &cs[1..cs.len()]
    } else {
        cs
    };
    assert(body@ =~= unsigned_body(cs@));
    if body.len() == 0 || !only_digits(body) {
        return None;
    }
    bounded_decimal(body, max)
}

/// `str::parse::<u32>` on a character slice.
pub fn parse_u32_chars(cs: &[char]) -> (r: Option<u32>)
    ensures
        r == parse_u32_text(cs@),
{
    match parse_unsigned_chars(cs, 0xffff_ffff) {
        Some(v) => Some(v as u32),
        None => None,
    }
}

/// `str::parse::<u64>` on a character slice.
pub fn parse_u64_chars(cs: &[char]) -> (r: Option<u64>)
    ensures
        r == parse_u64_text(cs@),
{
    parse_unsigned_chars(cs, 0xffff_ffff_ffff_ffff)
}

/// `str::parse::<i32>` on a character slice.
pub fn parse_i32_chars(cs: &[char]) -> (r: Option<i32>)
    ensures
        r == parse_i32_text(cs@),
{
    let signed = cs.len() > 0 && (cs[0] == '+' || cs[0] == '-');
    let negative = cs.len() > 0 && cs[0] == '-';
    let body: &[char] = if signed {
        &cs[1..cs.len()]
    } else {
        cs
    };
    assert(signed ==> body@ =~= cs@.drop_first());
    assert(!signed ==> body@ =~= cs@);
    if body.len() == 0 || !only_digits(body) {
        return None;
    }
    if negative {
        match bounded_decimal(body, 0x8000_0000) {
            Some(v) => {
                if v == 0x8000_0000 {
                    Some(-2147483648i32)
                } else {
                    let small = v as i32;
                    Some(-small)
                }
            },
            None => None,
        }
    } else {
        match bounded_decimal(body, 0x7fff_ffff) {
            Some(v) => Some(v as i32),
            None => None,
        }
    }
}

/// The decimal text of `n`, without leading zeros.
pub open spec fn decimal_text(n: nat) -> Seq<char>
    decreases n,
{
    if n < 10 {
        seq![digit_char(n)]
    } else {
        decimal_text(n / 10).push(digit_char(n % 10))
    }
}

/// The ASCII digit for `d < 10`.
pub open spec fn digit_char(d: nat) -> char {
    ((d + ('0' as int)) as u32) as char
}

/// The ASCII digit for `d < 10`.
fn digit_char_exec(d: u64) -> (c: char)
    requires
        d < 10,
    ensures
        c == digit_char(d as nat),
{
    let b: u8 = (d as u8) + 48u8;
    b as char
}

/// Appends the decimal text of `n` to `out`.
pub fn push_decimal(out: &mut String, n: u64)
    ensures
        final(out)@ == old(out)@ + decimal_text(n as nat),
    decreases n,
{
    if n >= 10 {
        push_decimal(out, n / 10);
    }
    push_char(out, digit_char_exec(n % 10));
    assert(n < 10 ==> decimal_text(n as nat) =~= seq![digit_char(n as nat)]);
}

} // verus!

verus! {

// ---------------------------------------------------------------------------
// Comparison, whitespace and trimming.
// ---------------------------------------------------------------------------

/// Whether two character slices hold the same text.
pub fn same_text(a: &[char], b: &[char]) -> (r: bool)
    ensures
        r == (a@ == b@),
{
    if a.len() != b.len() {
        return false;
    }
    let mut i: usize = 0;
    while i < a.len()
        invariant
            a@.len() == b@.len(),
            i <= a@.len(),
            forall|j: int| 0 <= j < i ==> a@[j] == b@[j],
        decreases a@.len() - i,
    {
        if a[i] != b[i] {
            return false;
        }
        i = i + 1;
    }
    assert(a@ =~= b@);
    true
}

/// Unicode `White_Space`, the set that `char::is_whitespace` tests.
pub open spec fn is_white(c: char) -> bool {
    let u = c as u32;
    ||| 0x09 <= u && u <= 0x0d
    ||| u == 0x20
    ||| u == 0x85
    ||| u == 0xa0
    ||| u == 0x1680
    ||| 0x2000 <= u && u <= 0x200a
    ||| u == 0x2028
    ||| u == 0x2029
    ||| u == 0x202f
    ||| u == 0x205f
    ||| u == 0x3000
}

/// `char::is_whitespace`.
pub fn is_white_char(c: char) -> (r: bool)
    ensures
        r == is_white(c),
{
    let u = c as u32;
    (0x09 <= u && u <= 0x0d) || u == 0x20 || u == 0x85 || u == 0xa0 || u == 0x1680 || (0x2000
        <= u && u <= 0x200a) || u == 0x2028 || u == 0x2029 || u == 0x202f || u == 0x205f || u
        == 0x3000
}

/// `s` without its leading whitespace.
pub open spec fn trim_start(s: Seq<char>) -> Seq<char>
    decreases s.len(),
{
    if s.len() > 0 && is_white(s[0]) {
        trim_start(s.drop_first())
    } else {
        s
    }
}

/// `s` without its trailing whitespace.
pub open spec fn trim_end(s: Seq<char>) -> Seq<char>
    decreases s.len(),
{
    if s.len() > 0 && is_white(s.last()) {
        trim_end(s.drop_last())
    } else {
        s
    }
}

/// `str::trim`: `s` without leading and trailing whitespace.
pub open spec fn trim(s: Seq<char>) -> Seq<char> {
    trim_end(trim_start(s))
}

/// `str::trim` on a character slice.
pub fn trim_chars(cs: &[char]) -> (out: Vec<char>)
    ensures
        out@ == trim(cs@),
{
    let mut lo: usize = 0;
    assert(cs@.skip(0) =~= cs@);
    while lo < cs.len() && is_white_char(cs[lo])
        invariant
            lo <= cs@.len(),
            trim_start(cs@) == trim_start(cs@.skip(lo as int)),
        decreases cs@.len() - lo,
    {
        assert(cs@.skip(lo as int).drop_first() =~= cs@.skip(lo as int + 1));
        lo = lo + 1;
    }
    let ghost start = cs@.skip(lo as int);
    assert(trim_start(start) == start);
    let mut hi: usize = cs.len();
    while hi > lo && is_white_char(cs[hi - 1])
        invariant
            lo <= hi <= cs@.len(),
            start == cs@.skip(lo as int),
            trim(cs@) == trim_end(cs@.subrange(lo as int, hi as int)),
        decreases hi,
    {
        assert(cs@.subrange(lo as int, hi as int).drop_last() =~= cs@.subrange(
            lo as int,
            hi as int - 1,
        ));
        hi = hi - 1;
    }
    let part = &cs[lo..hi];
    let mut out: Vec<char> = Vec::new();
    let mut i: usize = 0;
    while i < part.len()
        invariant
            i <= part@.len(),
            out@ == part@.take(i as int),
        decreases part@.len() - i,
    {
        out.push(part[i]);
        i = i + 1;
        assert(out@ =~= part@.take(i as int));
    }
    assert(part@.take(i as int) =~= part@);
    out
}

// ---------------------------------------------------------------------------
// Searching.
// ---------------------------------------------------------------------------

/// `p` occurs in `s` at index `i`.
pub open spec fn occurs_at(s: Seq<char>, p: Seq<char>, i: int) -> bool {
    0 <= i && i + p.len() <= s.len() && s.subrange(i, i + p.len()) == p
}

/// The first index `i >= from` at which `p` occurs in `s`.
pub open spec fn find_from(s: Seq<char>, p: Seq<char>, from: int) -> Option<int>
    decreases s.len() + 1 - from,
{
    if from < 0 || from + p.len() > s.len() {
        None
    } else if occurs_at(s, p, from) {
        Some(from)
    } else {
        find_from(s, p, from + 1)
    }
}

/// `s` contains `p` (`str::contains`).
pub open spec fn contains_text(s: Seq<char>, p: Seq<char>) -> bool {
    find_from(s, p, 0) is Some
}

/// What `find_from` returns is a true, earliest occurrence.
pub proof fn lemma_find_from(s: Seq<char>, p: Seq<char>, from: int)
    requires
        0 <= from,
    ensures
        match find_from(s, p, from) {
            Some(i) => from <= i && occurs_at(s, p, i) && forall|j: int|
                from <= j < i ==> !occurs_at(s, p, j),
            None => forall|j: int| from <= j ==> !occurs_at(s, p, j),
        },
    decreases s.len() + 1 - from,
{
    if from + p.len() > s.len() {
    } else if occurs_at(s, p, from) {
    } else {
        lemma_find_from(s, p, from + 1);
    }
}

/// The first `c` at or after `from` is at `k` when `s[k]` is `c` and no
/// character from `from` up to `k` is.
pub proof fn lemma_find_char_at(s: Seq<char>, c: char, from: int, k: int)
    requires
        0 <= from <= k < s.len(),
        s[k] == c,
        forall|i: int| from <= i < k ==> s[i] != c,
    ensures
        find_from(s, seq![c], from) == Some(k),
    decreases k - from,
{
    assert(s.subrange(from, from + 1) =~= seq![s[from]]);
    assert(seq![c].len() == 1);
    if from < k {
        assert(!occurs_at(s, seq![c], from)) by {
            if occurs_at(s, seq![c], from) {
                assert(s.subrange(from, from + 1)[0] == seq![c][0]);
            }
        }
        lemma_find_char_at(s, c, from + 1, k);
    } else {
        assert(seq![s[from]] =~= seq![c]);
        assert(occurs_at(s, seq![c], from));
    }
}

/// No `c` at or after `from` means none is found.
pub proof fn lemma_find_char_none(s: Seq<char>, c: char, from: int)
    requires
        0 <= from,
        forall|i: int| from <= i < s.len() ==> s[i] != c,
    ensures
        find_from(s, seq![c], from) is None,
    decreases s.len() + 1 - from,
{
    assert(seq![c].len() == 1);
    if from + 1 <= s.len() {
        assert(s.subrange(from, from + 1) =~= seq![s[from]]);
        assert(!occurs_at(s, seq![c], from)) by {
            if occurs_at(s, seq![c], from) {
                assert(s.subrange(from, from + 1)[0] == seq![c][0]);
            }
        }
        lemma_find_char_none(s, c, from + 1);
    }
}

/// The decimal text of `n` is a non-empty run of digits whose value is `n`.
pub proof fn lemma_decimal_text(n: nat)
    ensures
        decimal_text(n).len() > 0,
        all_digits(decimal_text(n)),
        decimal_value(decimal_text(n)) == n,
    decreases n,
{
    if n < 10 {
        let t = decimal_text(n);
        assert(t.drop_last() =~= Seq::<char>::empty());
        assert(decimal_value(t.drop_last()) == 0);
        assert(t.last() == digit_char(n));
        assert(digit_value(digit_char(n)) == n);
        assert(decimal_value(t) == 10 * decimal_value(t.drop_last()) + digit_value(t.last()));
    } else {
        lemma_decimal_text(n / 10);
        let t = decimal_text(n);
        assert(t.drop_last() =~= decimal_text(n / 10));
        assert(digit_value(digit_char(n % 10)) == n % 10);
        assert(is_digit(digit_char(n % 10)));
        assert(n == 10 * (n / 10) + n % 10);
        assert(t.last() == digit_char(n % 10));
        assert(decimal_value(t) == 10 * decimal_value(t.drop_last()) + digit_value(t.last()));
    }
}

/// Reading the decimal text of a number no larger than `i32::MAX` as an
/// `i32` gives the number back.
pub proof fn lemma_parse_i32_decimal(n: nat)
    requires
        n <= 0x7fff_ffff,
    ensures
        parse_i32_text(decimal_text(n)) == Some(n as i32),
{
    lemma_decimal_text(n);
    let t = decimal_text(n);
    assert(is_digit(t[0]));
}

/// Whether `p` occurs in `s` at index `i`.
fn occurs_at_exec(s: &[char], p: &[char], i: usize) -> (r: bool)
    ensures
        r == occurs_at(s@, p@, i as int),
{
    let slen = s.len();
    if i > slen || p.len() > slen - i {
        return false;
    }
    let mut k: usize = 0;
    while k < p.len()
        invariant
            slen == s@.len(),
            i + p@.len() <= s@.len(),
            k <= p@.len(),
            forall|j: int| 0 <= j < k ==> s@[i + j] == p@[j],
        decreases p@.len() - k,
    {
        assert(i + k < s@.len());
        if s[i + k] != p[k] {
            assert(s@.subrange(i as int, i + p@.len())[k as int] != p@[k as int]);
            return false;
        }
        k = k + 1;
    }
    assert(s@.subrange(i as int, i + p@.len()) =~= p@);
    true
}

/// The first index `i >= from` at which `p` occurs in `s`.
pub fn find_from_exec(s: &[char], p: &[char], from: usize) -> (r: Option<usize>)
    ensures
        match r {
            Some(i) => find_from(s@, p@, from as int) == Some(i as int) && i + p@.len() <= s@.len(),
            None => find_from(s@, p@, from as int) is None,
        },
{
    proof {
        lemma_find_from(s@, p@, from as int);
    }
    if p.len() == 0 {
        if from <= s.len() {
            assert(s@.subrange(from as int, from as int) =~= p@);
            return Some(from);
        }
        return None;
    }
    if p.len() > s.len() {
        return None;
    }
    let mut i = from;
    while i <= s.len() - p.len()
        invariant
            from <= i,
            1 <= p@.len() <= s@.len(),
            find_from(s@, p@, from as int) == find_from(s@, p@, i as int),
        decreases s@.len() + 1 - i,
    {
        if occurs_at_exec(s, p, i) {
            return Some(i);
        }
        i = i + 1;
    }
    None
}

/// The text of `s` before the first `c` (all of `s` when there is none):
/// the first item of `str::split(c)`.
pub open spec fn field_before(s: Seq<char>, c: char) -> Seq<char> {
    match find_from(s, seq![c], 0) {
        Some(i) => s.take(i),
        None => s,
    }
}

/// The `n`-th item of `str::split(c)` on `s`, if there are that many.
pub open spec fn nth_field(s: Seq<char>, c: char, n: nat) -> Option<Seq<char>>
    decreases n,
{
    if n == 0 {
        Some(field_before(s, c))
    } else {
        match find_from(s, seq![c], 0) {
            Some(i) => nth_field(s.skip(i + 1), c, (n - 1) as nat),
            None => None,
        }
    }
}

/// The index of the first `c` in `cs`.
pub fn find_char(cs: &[char], c: char) -> (r: Option<usize>)
    ensures
        match r {
            Some(i) => find_from(cs@, seq![c], 0) == Some(i as int) && i < cs@.len(),
            None => find_from(cs@, seq![c], 0) is None,
        },
{
    let mut i: usize = 0;
    while i < cs.len()
        invariant
            i <= cs@.len(),
            find_from(cs@, seq![c], 0) == find_from(cs@, seq![c], i as int),
        decreases cs@.len() - i,
    {
        if cs[i] == c {
            assert(cs@.subrange(i as int, i as int + 1) =~= seq![c]);
            return Some(i);
        }
        assert(cs@.subrange(i as int, i as int + 1)[0] == cs@[i as int]);
        i = i + 1;
    }
    None
}

/// The first item of `str::split(c)` on `cs`.
pub fn field_before_chars(cs: &[char], c: char) -> (out: &[char])
    ensures
        out@ == field_before(cs@, c),
{
    match find_char(cs, c) {
        Some(i) => {
            let part = &cs[0..i];
            assert(part@ =~= cs@.take(i as int));
            part
        },
        None => cs,
    }
}

/// The `n`-th item of `str::split(c)` on `cs`, if there are that many.
pub fn nth_field_chars(cs: &[char], c: char, n: usize) -> (out: Option<&[char]>)
    ensures
        match nth_field(cs@, c, n as nat) {
            Some(f) => out is Some && out->0@ == f,
            None => out is None,
        },
    decreases n,
{
    if n == 0 {
        return Some(field_before_chars(cs, c));
    }
    let len = cs.len();
    match find_char(cs, c) {
        Some(i) => {
            let rest = &cs[i + 1..len];
            assert(rest@ =~= cs@.skip(i + 1));
            nth_field_chars(rest, c, n - 1)
        },
        None => None,
    }
}

} // verus!

verus! {

/// Appends the characters of `cs` to `out`.
pub fn push_all(out: &mut String, cs: &[char])
    ensures
        final(out)@ == old(out)@ + cs@,
{
    let mut i: usize = 0;
    let ghost start = out@;
    while i < cs.len()
        invariant
            i <= cs@.len(),
            out@ == start + cs@.take(i as int),
        decreases cs@.len() - i,
    {
        push_char(out, cs[i]);
        i = i + 1;
        assert(out@ =~= start + cs@.take(i as int));
    }
    assert(cs@.take(i as int) =~= cs@);
}

/// The view of an optional string.
pub open spec fn opt_text(r: Option<String>) -> Option<Seq<char>> {
    match r {
        Some(s) => Some(s@),
        None => None,
    }
}

} // verus!

verus! {

/// All items of `str::split(c)` on `s`, empty ones included.
pub open spec fn split_all(s: Seq<char>, c: char) -> Seq<Seq<char>>
    decreases s.len(),
{
    if s.len() == 0 {
        seq![seq![]]
    } else {
        let fields = split_all(s.drop_last(), c);
        if s.last() == c {
            fields.push(seq![])
        } else {
            fields.update(fields.len() - 1, fields.last().push(s.last()))
        }
    }
}

/// `split_all` always yields at least one item.
pub proof fn lemma_split_all_len(s: Seq<char>, c: char)
    ensures
        split_all(s, c).len() >= 1,
    decreases s.len(),
{
    if s.len() > 0 {
        lemma_split_all_len(s.drop_last(), c);
    }
}

/// ASCII lowercase of one character (`char::to_ascii_lowercase`).
pub open spec fn ascii_lower(c: char) -> char {
    if 'A' <= c && c <= 'Z' {
        (((c as u32) + 32) as u32) as char
    } else {
        c
    }
}

/// ASCII lowercase of a text (`str::to_ascii_lowercase`).
pub open spec fn ascii_lowercase(s: Seq<char>) -> Seq<char> {
    s.map_values(|c: char| ascii_lower(c))
}

/// `char::to_ascii_lowercase`.
pub fn ascii_lower_exec(c: char) -> (r: char)
    ensures
        r == ascii_lower(c),
{
    if 'A' <= c && c <= 'Z' {
        let b: u8 = (c as u8) + 32u8;
        b as char
    } else {
        c
    }
}

/// Joins texts with a separator character.
pub open spec fn join_with(items: Seq<Seq<char>>, sep: char) -> Seq<char>
    decreases items.len(),
{
    if items.len() == 0 {
        seq![]
    } else if items.len() == 1 {
        items[0]
    } else {
        join_with(items.drop_last(), sep) + seq![sep] + items.last()
    }
}

} // verus!

verus! {

/// An owned copy of `s`.
pub fn owned(s: &str) -> (r: String)
    ensures
        r@ == s@,
{
    s.to_string()
}

} // verus!

verus! {

/// The views of a list of character vectors.
pub open spec fn char_texts(v: Seq<Vec<char>>) -> Seq<Seq<char>> {
    v.map_values(|x: Vec<char>| x@)
}

/// All items of `str::split(c)` on a character slice.
pub fn split_all_chars(cs: &[char], c: char) -> (out: Vec<Vec<char>>)
    ensures
        char_texts(out@) == split_all(cs@, c),
{
    let mut out: Vec<Vec<char>> = Vec::new();
    let mut cur: Vec<char> = Vec::new();
    let mut i: usize = 0;
    assert(cs@.take(0) =~= Seq::<char>::empty());
    assert(char_texts(out@).push(cur@) =~= split_all(cs@.take(0), c));
    while i < cs.len()
        invariant
            i <= cs@.len(),
            char_texts(out@).push(cur@) == split_all(cs@.take(i as int), c),
        decreases cs@.len() - i,
    {
        let ghost pre = cs@.take(i as int + 1);
        assert(pre.drop_last() =~= cs@.take(i as int));
        assert(pre.last() == cs@[i as int]);
        let ghost f = split_all(cs@.take(i as int), c);
        if cs[i] == c {
            let done = cur;
            out.push(done);
            cur = Vec::new();
            assert(char_texts(out@).push(cur@) =~= f.push(seq![]));
        } else {
            cur.push(cs[i]);
            assert(char_texts(out@).push(cur@) =~= f.update(f.len() - 1, f.last().push(cs@[i as int])));
        }
        i = i + 1;
    }
    assert(cs@.take(i as int) =~= cs@);
    out.push(cur);
    out
}

/// `s` without leading and trailing `c` (`str::trim_matches(c)`).
pub open spec fn trim_char(s: Seq<char>, c: char) -> Seq<char>
    decreases s.len(),
{
    if s.len() > 0 && s[0] == c {
        trim_char(s.drop_first(), c)
    } else if s.len() > 0 && s.last() == c {
        trim_char(s.drop_last(), c)
    } else {
        s
    }
}

/// `str::trim_matches(c)` on a character slice.
pub fn trim_char_chars(cs: &[char], c: char) -> (out: &[char])
    ensures
        out@ == trim_char(cs@, c),
{
    let mut lo: usize = 0;
    let mut hi: usize = cs.len();
    assert(cs@.subrange(0, cs@.len() as int) =~= cs@);
    while lo < hi && (cs[lo] == c || cs[hi - 1] == c)
        invariant
            lo <= hi <= cs@.len(),
            trim_char(cs@, c) == trim_char(cs@.subrange(lo as int, hi as int), c),
        decreases hi - lo,
    {
        let ghost s = cs@.subrange(lo as int, hi as int);
        if cs[lo] == c {
            assert(s.drop_first() =~= cs@.subrange(lo as int + 1, hi as int));
            lo = lo + 1;
        } else {
            assert(s.drop_last() =~= cs@.subrange(lo as int, hi as int - 1));
            hi = hi - 1;
        }
    }
    &cs[lo..hi]
}

} // verus!
