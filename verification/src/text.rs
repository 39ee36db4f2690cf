//! Text handling shared by the sysfs layer and the controls: Unicode
//! whitespace trimming, decimal formatting and the integer grammar of
//! `str::parse`, comma splitting and comma joining.
use vstd::prelude::*;

verus! {

// ------------------------------------------------------------------
// Characters
// ------------------------------------------------------------------

/// Whether `c` has the Unicode `White_Space` property, which is what
/// `char::is_whitespace`, and so `str::trim`, tests.
pub open spec fn is_space(c: char) -> bool {
    let u = c as u32;
    ||| 0x09 <= u <= 0x0D
    ||| u == 0x20
    ||| u == 0x85
    ||| u == 0xA0
    ||| u == 0x1680
    ||| 0x2000 <= u <= 0x200A
    ||| u == 0x2028
    ||| u == 0x2029
    ||| u == 0x202F
    ||| u == 0x205F
    ||| u == 0x3000
}

pub fn is_space_char(c: char) -> (b: bool)
    ensures
        b == is_space(c),
{
    let u = c as u32;
    (0x09 <= u && u <= 0x0D) || u == 0x20 || u == 0x85 || u == 0xA0 || u == 0x1680 || (0x2000
        <= u && u <= 0x200A) || u == 0x2028 || u == 0x2029 || u == 0x202F || u == 0x205F || u
        == 0x3000
}

/// An ASCII decimal digit.
pub open spec fn is_digit(c: char) -> bool {
    '0' <= c && c <= '9'
}

/// The value of a decimal digit character.
pub open spec fn digit_of(c: char) -> int {
    c as int - 48
}

/// The character of a decimal digit value.
pub open spec fn digit_char(d: int) -> char {
    (d + 48) as char
}

pub open spec fn all_digits(s: Seq<char>) -> bool {
    forall|i: int| 0 <= i < s.len() ==> is_digit(#[trigger] s[i])
}

/// Whether `c` occurs in `s`.
pub open spec fn has_char(s: Seq<char>, c: char) -> bool {
    exists|i: int| 0 <= i < s.len() && s[i] == c
}

// ------------------------------------------------------------------
// Strings as character sequences
// ------------------------------------------------------------------

/// Appends one character: calls `String::push`, which is taken to add `c`
/// at the end of the text and change nothing else.
#[verifier::external_body]
pub(crate) fn push_char(s: &mut String, c: char)
    ensures
        final(s)@ == old(s)@.push(c),
{
    s.push(c)
}

/// Removes the last character, if any: calls `String::pop`, which is taken
/// to return and remove the last character of a non-empty text and to
/// return `None` and leave an empty text as it is.
#[verifier::external_body]
pub(crate) fn pop_char(s: &mut String) -> (r: Option<char>)
    ensures
        old(s)@.len() == 0 ==> r is None && final(s)@ == old(s)@,
        old(s)@.len() > 0 ==> r == Some(old(s)@.last()) && final(s)@ == old(s)@.drop_last(),
{
    s.pop()
}

/// The characters of `s`, in order.
pub fn chars_of(s: &str) -> (v: Vec<char>)
    ensures
        v@ == s@,
{
    let mut v: Vec<char> = Vec::new();
    for c in it: s.chars()
        invariant
            v@ == it.seq().take(it.index() as int),
    {
        v.push(c);
    }
    v
}

/// The string made of `cs[lo..hi]`.
pub fn string_of(cs: &Vec<char>, lo: usize, hi: usize) -> (r: String)
    requires
        lo <= hi <= cs.len(),
    ensures
        r@ == cs@.subrange(lo as int, hi as int),
{
    let mut r = String::new();
    let mut k = lo;
    while k < hi
        invariant
            lo <= k <= hi <= cs.len(),
            r@ == cs@.subrange(lo as int, k as int),
        decreases hi - k,
    {
        push_char(&mut r, cs[k]);
        assert(cs@.subrange(lo as int, k + 1) =~= cs@.subrange(lo as int, k as int).push(cs@[k as int]));
        k = k + 1;
    }
    r
}

/// Whether two texts hold the same characters.
pub fn same_text(a: &str, b: &str) -> (r: bool)
    ensures
        r == (a@ == b@),
{
    let x = chars_of(a);
    let y = chars_of(b);
    if x.len() != y.len() {
        return false;
    }
    let mut k: usize = 0;
    while k < x.len()
        invariant
            x.len() == y.len(),
            x@ == a@,
            y@ == b@,
            k <= x.len(),
            forall|j: int| 0 <= j < k ==> x@[j] == y@[j],
        decreases x.len() - k,
    {
        if x[k] != y[k] {
            return false;
        }
        k = k + 1;
    }
    assert(x@ =~= y@);
    true
}

// ------------------------------------------------------------------
// Trimming
// ------------------------------------------------------------------

/// `s` without its leading whitespace.
pub open spec fn trim_start(s: Seq<char>) -> Seq<char>
    decreases s.len(),
{
    if s.len() > 0 && is_space(s[0]) {
        trim_start(s.drop_first())
    } else {
        s
    }
}

/// `s` without its trailing whitespace.
pub open spec fn trim_end(s: Seq<char>) -> Seq<char>
    decreases s.len(),
{
    if s.len() > 0 && is_space(s.last()) {
        trim_end(s.drop_last())
    } else {
        s
    }
}

/// `s` without leading and trailing whitespace (`str::trim`).
pub open spec fn trim(s: Seq<char>) -> Seq<char> {
    trim_end(trim_start(s))
}

proof fn lemma_trim_start_skip(s: Seq<char>, k: int)
    requires
        0 <= k <= s.len(),
        forall|j: int| 0 <= j < k ==> is_space(#[trigger] s[j]),
    ensures
        trim_start(s) == trim_start(s.skip(k)),
    decreases k,
{
    if k == 0 {
        assert(s.skip(0) =~= s);
    } else {
        assert(is_space(s[0]));
        let t = s.drop_first();
        assert forall|j: int| 0 <= j < k - 1 implies is_space(#[trigger] t[j]) by {
            assert(t[j] == s[j + 1]);
        }
        lemma_trim_start_skip(t, k - 1);
        assert(t.skip(k - 1) =~= s.skip(k));
    }
}

proof fn lemma_trim_end_take(s: Seq<char>, k: int)
    requires
        0 <= k <= s.len(),
        forall|j: int| k <= j < s.len() ==> is_space(#[trigger] s[j]),
    ensures
        trim_end(s) == trim_end(s.take(k)),
    decreases s.len() - k,
{
    if k == s.len() {
        assert(s.take(k) =~= s);
    } else {
        assert(is_space(s.last()));
        let t = s.drop_last();
        lemma_trim_end_take(t, k);
        assert(t.take(k) =~= s.take(k));
    }
}

/// The bounds of `cs[lo..hi]` once trimmed.
pub fn trim_range(cs: &Vec<char>, lo: usize, hi: usize) -> (r: (usize, usize))
    requires
        lo <= hi <= cs.len(),
    ensures
        lo <= r.0 <= r.1 <= hi,
        cs@.subrange(r.0 as int, r.1 as int) == trim(cs@.subrange(lo as int, hi as int)),
{
    let ghost s = cs@.subrange(lo as int, hi as int);
    let mut a = lo;
    while a < hi && is_space_char(cs[a])
        invariant
            lo <= a <= hi <= cs.len(),
            forall|j: int| lo <= j < a ==> is_space(#[trigger] cs@[j]),
        decreases hi - a,
    {
        a = a + 1;
    }
    let mut b = hi;
    while b > a && is_space_char(cs[b - 1])
        invariant
            lo <= a <= b <= hi <= cs.len(),
            forall|j: int| b <= j < hi ==> is_space(#[trigger] cs@[j]),
        decreases b - a,
    {
        b = b - 1;
    }
    proof {
        let ka = a - lo;
        assert forall|j: int| 0 <= j < ka implies is_space(#[trigger] s[j]) by {
            assert(s[j] == cs@[lo + j]);
        }
        lemma_trim_start_skip(s, ka);
        let t = s.skip(ka);
        assert(t =~= cs@.subrange(a as int, hi as int));
        assert(trim_start(t) == t);
        let kb = b - a;
        assert forall|j: int| kb <= j < t.len() implies is_space(#[trigger] t[j]) by {
            assert(t[j] == cs@[a + j]);
        }
        lemma_trim_end_take(t, kb);
        let u = t.take(kb);
        assert(u =~= cs@.subrange(a as int, b as int));
        assert(trim_end(u) == u);
    }
    (a, b)
}

/// `s` trimmed (`str::trim`, owned).
pub fn trimmed(s: &str) -> (r: String)
    ensures
        r@ == trim(s@),
{
    let cs = chars_of(s);
    let (a, b) = trim_range(&cs, 0, cs.len());
    assert(cs@.subrange(0, cs@.len() as int) =~= cs@);
    string_of(&cs, a, b)
}

// ------------------------------------------------------------------
// Decimal integers
// ------------------------------------------------------------------

/// The decimal digits of `n`, most significant first, without leading zeros.
pub open spec fn decimal(n: nat) -> Seq<char>
    decreases n,
{
    if n < 10 {
        seq![digit_char(n as int)]
    } else {
        decimal(n / 10).push(digit_char((n % 10) as int))
    }
}

/// An integer as `Display` writes it: a `-` for negatives, then the digits.
pub open spec fn int_text(i: int) -> Seq<char> {
    if i < 0 {
        seq!['-'] + decimal((-i) as nat)
    } else {
        decimal(i as nat)
    }
}

/// The value of a run of decimal digits.
pub open spec fn digits_value(s: Seq<char>) -> int
    decreases s.len(),
{
    if s.len() == 0 {
        0
    } else {
        digits_value(s.drop_last()) * 10 + digit_of(s.last())
    }
}

/// Appends the decimal digits of `n`.
pub fn push_decimal(s: &mut String, n: u64)
    ensures
        final(s)@ == old(s)@ + decimal(n as nat),
    decreases n,
{
    if n >= 10 {
        push_decimal(s, n / 10);
    }
    let d = (n % 10) as u8;
    let c = (48u8 + d) as char;
    push_char(s, c);
    assert(c == digit_char((n % 10) as int));
    if n >= 10 {
        assert(decimal(n as nat) == decimal((n / 10) as nat).push(c));
    } else {
        assert(decimal(n as nat) == seq![c]);
    }
    assert(final(s)@ =~= old(s)@ + decimal(n as nat));
}

/// Appends an integer as `Display` writes it.
pub fn push_int(s: &mut String, x: i64)
    requires
        x > i64::MIN,
    ensures
        final(s)@ == old(s)@ + int_text(x as int),
{
    if x < 0 {
        push_char(s, '-');
        push_decimal(s, (-x) as u64);
        assert(final(s)@ =~= old(s)@ + int_text(x as int));
    } else {
        push_decimal(s, x as u64);
    }
}

/// The decimal text of `n` (`u64::to_string`).
pub fn decimal_string(n: u64) -> (r: String)
    ensures
        r@ == decimal(n as nat),
{
    let mut r = String::new();
    push_decimal(&mut r, n);
    assert(r@ =~= decimal(n as nat));
    r
}

pub proof fn lemma_decimal(n: nat)
    ensures
        decimal(n).len() > 0,
        all_digits(decimal(n)),
        digits_value(decimal(n)) == n,
    decreases n,
{
    if n < 10 {
        assert(decimal(n).drop_last() =~= Seq::<char>::empty());
        assert(digit_of(digit_char(n as int)) == n);
        assert(digits_value(Seq::<char>::empty()) == 0);
        assert(digits_value(decimal(n)) == digits_value(decimal(n).drop_last()) * 10 + digit_of(
            decimal(n).last(),
        ));
    } else {
        lemma_decimal(n / 10);
        let d = decimal(n);
        assert(d.drop_last() =~= decimal(n / 10));
        assert(digit_of(digit_char((n % 10) as int)) == n % 10);
        assert((n / 10) * 10 + n % 10 == n);
        assert(d.last() == digit_char((n % 10) as int));
        assert(digits_value(d) == digits_value(d.drop_last()) * 10 + digit_of(d.last()));
        assert forall|i: int| 0 <= i < d.len() implies is_digit(#[trigger] d[i]) by {
            if i < d.len() - 1 {
                assert(d[i] == decimal(n / 10)[i]);
            }
        }
    }
}

// ------------------------------------------------------------------
// The integer grammar of `str::parse`
// ------------------------------------------------------------------

/// What `str::parse` reads for an unsigned type before its range check:
/// an optional `+`, then one or more ASCII digits.
pub open spec fn unsigned_value(s: Seq<char>) -> Option<int> {
    let ds = if s.len() > 0 && s[0] == '+' {
        s.drop_first()
    } else {
        s
    };
    if ds.len() > 0 && all_digits(ds) {
        Some(digits_value(ds))
    } else {
        None
    }
}

/// What `str::parse` reads for a signed type before its range check:
/// an optional `+` or `-`, then one or more ASCII digits.
pub open spec fn signed_value(s: Seq<char>) -> Option<int> {
    if s.len() > 0 && s[0] == '-' {
        let ds = s.drop_first();
        if ds.len() > 0 && all_digits(ds) {
            Some(-digits_value(ds))
        } else {
            None
        }
    } else {
        unsigned_value(s)
    }
}

/// `s.parse::<u32>().ok()`
pub open spec fn parse_u32_spec(s: Seq<char>) -> Option<u32> {
    match unsigned_value(s) {
        Some(v) => if v <= u32::MAX {
            Some(v as u32)
        } else {
            None
        },
        None => None,
    }
}

/// `s.parse::<u8>().ok()`
pub open spec fn parse_u8_spec(s: Seq<char>) -> Option<u8> {
    match unsigned_value(s) {
        Some(v) => if v <= u8::MAX {
            Some(v as u8)
        } else {
            None
        },
        None => None,
    }
}

/// `s.parse::<i32>().ok()`
pub open spec fn parse_i32_spec(s: Seq<char>) -> Option<i32> {
    match signed_value(s) {
        Some(v) => if i32::MIN <= v <= i32::MAX {
            Some(v as i32)
        } else {
            None
        },
        None => None,
    }
}

/// Reads the digits `cs[lo..hi]`, refusing an empty run, a non-digit and a
/// value above `limit`.
fn digits_upto(cs: &Vec<char>, lo: usize, hi: usize, limit: u64) -> (r: Option<u64>)
    requires
        lo <= hi <= cs.len(),
        limit <= 0x1_0000_0000,
    ensures
        ({
            let s = cs@.subrange(lo as int, hi as int);
            match r {
                Some(v) => s.len() > 0 && all_digits(s) && v == digits_value(s) && v <= limit,
                None => !(s.len() > 0 && all_digits(s) && digits_value(s) <= limit),
            }
        }),
{
    let ghost s = cs@.subrange(lo as int, hi as int);
    let mut acc: u64 = 0;
    let mut over = false;
    let mut k = lo;
    assert(cs@.subrange(lo as int, lo as int) =~= Seq::<char>::empty());
    while k < hi
        invariant
            lo <= k <= hi <= cs.len(),
            limit <= 0x1_0000_0000,
            s == cs@.subrange(lo as int, hi as int),
            all_digits(cs@.subrange(lo as int, k as int)),
            over ==> digits_value(cs@.subrange(lo as int, k as int)) > limit,
            !over ==> acc == digits_value(cs@.subrange(lo as int, k as int)) && acc <= limit,
        decreases hi - k,
    {
        let c = cs[k];
        if !('0' <= c && c <= '9') {
            assert(s[k - lo] == c);
            return None;
        }
        let ghost prev = cs@.subrange(lo as int, k as int);
        let ghost next = cs@.subrange(lo as int, k + 1);
        assert(next.drop_last() =~= prev);
        assert(next.last() == c);
        assert forall|i: int| 0 <= i < next.len() implies is_digit(#[trigger] next[i]) by {
            if i < prev.len() {
                assert(next[i] == prev[i]);
            }
        }
        let d = (c as u32 - 48) as u64;
        assert(digits_value(next) == digits_value(prev) * 10 + d);
        if !over {
            let n = acc * 10 + d;
            if n > limit {
                over = true;
            } else {
                acc = n;
            }
        }
        k = k + 1;
    }
    assert(cs@.subrange(lo as int, k as int) == s);
    if lo == hi || over {
        None
    } else {
        Some(acc)
    }
}

/// `cs[lo..hi].parse::<u32>().ok()`
pub fn parse_u32(cs: &Vec<char>, lo: usize, hi: usize) -> (r: Option<u32>)
    requires
        lo <= hi <= cs.len(),
    ensures
        r == parse_u32_spec(cs@.subrange(lo as int, hi as int)),
{
    let ghost s = cs@.subrange(lo as int, hi as int);
    let start = if lo < hi && cs[lo] == '+' {
        lo + 1
    } else {
        lo
    };
    assert(start > lo ==> s.drop_first() =~= cs@.subrange(start as int, hi as int));
    assert(start == lo ==> s =~= cs@.subrange(start as int, hi as int));
    match digits_upto(cs, start, hi, 0xFFFF_FFFF) {
        Some(v) => Some(v as u32),
        None => None,
    }
}

/// `cs[lo..hi].parse::<u8>().ok()`
pub fn parse_u8(cs: &Vec<char>, lo: usize, hi: usize) -> (r: Option<u8>)
    requires
        lo <= hi <= cs.len(),
    ensures
        r == parse_u8_spec(cs@.subrange(lo as int, hi as int)),
{
    let ghost s = cs@.subrange(lo as int, hi as int);
    let start = if lo < hi && cs[lo] == '+' {
        lo + 1
    } else {
        lo
    };
    assert(start > lo ==> s.drop_first() =~= cs@.subrange(start as int, hi as int));
    assert(start == lo ==> s =~= cs@.subrange(start as int, hi as int));
    match digits_upto(cs, start, hi, 0xFF) {
        Some(v) => Some(v as u8),
        None => None,
    }
}

/// `cs[lo..hi].parse::<i32>().ok()`
pub fn parse_i32(cs: &Vec<char>, lo: usize, hi: usize) -> (r: Option<i32>)
    requires
        lo <= hi <= cs.len(),
    ensures
        r == parse_i32_spec(cs@.subrange(lo as int, hi as int)),
{
    let ghost s = cs@.subrange(lo as int, hi as int);
    if lo < hi && cs[lo] == '-' {
        assert(s.drop_first() =~= cs@.subrange(lo + 1, hi as int));
        match digits_upto(cs, lo + 1, hi, 0x8000_0000) {
            Some(v) => {
                assert(v <= 0x8000_0000);
                let w: i64 = 0i64 - (v as i64);
                assert(i32::MIN <= w <= 0);
                assert(signed_value(s) == Some(-digits_value(cs@.subrange(lo + 1, hi as int))));
                Some(w as i32)
            },
            None => None,
        }
    } else {
        let start = if lo < hi && cs[lo] == '+' {
            lo + 1
        } else {
            lo
        };
        assert(start > lo ==> s.drop_first() =~= cs@.subrange(start as int, hi as int));
        assert(start == lo ==> s =~= cs@.subrange(start as int, hi as int));
        match digits_upto(cs, start, hi, 0x7FFF_FFFF) {
            Some(v) => Some(v as i32),
            None => None,
        }
    }
}

/// Reading back what `Display` writes gives the number written.
pub proof fn lemma_parse_int_text(x: int)
    ensures
        signed_value(int_text(x)) == Some(x),
{
    if x < 0 {
        let n = (-x) as nat;
        lemma_decimal(n);
        let t = int_text(x);
        assert(t.drop_first() =~= decimal(n));
    } else {
        let n = x as nat;
        lemma_decimal(n);
        let d = decimal(n);
        assert(is_digit(d[0]));
    }
}

pub proof fn lemma_parse_decimal(n: nat)
    ensures
        unsigned_value(decimal(n)) == Some(n as int),
{
    lemma_decimal(n);
    let d = decimal(n);
    assert(is_digit(d[0]));
}

// ------------------------------------------------------------------
// Comma lists
// ------------------------------------------------------------------

/// The pieces of `s` between occurrences of `sep` (`str::split`): one
/// more piece than there are separators.
pub open spec fn split_on(s: Seq<char>, sep: char) -> Seq<Seq<char>>
    decreases s.len(),
{
    if s.len() == 0 {
        seq![Seq::<char>::empty()]
    } else {
        let p = split_on(s.drop_last(), sep);
        if s.last() == sep {
            p.push(Seq::<char>::empty())
        } else {
            p.update(p.len() - 1, p.last().push(s.last()))
        }
    }
}

pub proof fn lemma_split_len(s: Seq<char>, sep: char)
    ensures
        split_on(s, sep).len() >= 1,
    decreases s.len(),
{
    if s.len() > 0 {
        lemma_split_len(s.drop_last(), sep);
    }
}

/// Splitting `s` followed by a piece without separators.
pub proof fn lemma_split_extend(s: Seq<char>, t: Seq<char>, sep: char)
    requires
        !has_char(t, sep),
    ensures
        split_on(s + t, sep) == split_on(s, sep).update(
            split_on(s, sep).len() - 1,
            split_on(s, sep).last() + t,
        ),
    decreases t.len(),
{
    lemma_split_len(s, sep);
    if t.len() == 0 {
        assert(s + t =~= s);
        assert(split_on(s, sep).last() + t =~= split_on(s, sep).last());
        assert(split_on(s, sep).update(split_on(s, sep).len() - 1, split_on(s, sep).last())
            =~= split_on(s, sep));
    } else {
        let t0 = t.drop_last();
        assert(!has_char(t0, sep)) by {
            if has_char(t0, sep) {
                let i = choose|i: int| 0 <= i < t0.len() && t0[i] == sep;
                assert(t[i] == sep);
            }
        }
        lemma_split_extend(s, t0, sep);
        assert((s + t).drop_last() =~= s + t0);
        assert((s + t).last() == t.last());
        assert(t.last() != sep) by {
            assert(t[t.len() - 1] == t.last());
        }
        lemma_split_len(s + t0, sep);
        let p = split_on(s, sep);
        let q = split_on(s + t0, sep);
        assert(q.len() == p.len());
        assert(q.last() == p.last() + t0);
        assert(split_on(s + t, sep) == q.update(q.len() - 1, q.last().push(t.last())));
        assert((p.last() + t0).push(t.last()) =~= p.last() + t);
        assert(split_on(s + t, sep) =~= p.update(p.len() - 1, p.last() + t));
    }
}

/// Splitting `s`, a separator, then a piece without separators.
pub proof fn lemma_split_sep_extend(s: Seq<char>, t: Seq<char>, sep: char)
    requires
        !has_char(t, sep),
    ensures
        split_on(s + seq![sep] + t, sep) == split_on(s, sep).push(t),
{
    let u = s + seq![sep];
    assert(u.drop_last() =~= s);
    assert(u.last() == sep);
    assert(split_on(u, sep) == split_on(s, sep).push(Seq::<char>::empty()));
    lemma_split_extend(u, t, sep);
    assert(Seq::<char>::empty() + t =~= t);
    assert(split_on(s, sep).push(Seq::<char>::empty()).update(
        split_on(s, sep).len() as int,
        t,
    ) =~= split_on(s, sep).push(t));
}

} // verus!
