//! The textual grammar of journal records: decimal numbers, colon-separated
//! fields and whitespace trimming.
use vstd::prelude::*;

verus! {

/// The ASCII digit for `d`, for `d` below 10.
pub open spec fn digit_char(d: nat) -> char {
    if d == 0 {
        '0'
    } else if d == 1 {
        '1'
    } else if d == 2 {
        '2'
    } else if d == 3 {
        '3'
    } else if d == 4 {
        '4'
    } else if d == 5 {
        '5'
    } else if d == 6 {
        '6'
    } else if d == 7 {
        '7'
    } else if d == 8 {
        '8'
    } else {
        '9'
    }
}

/// Shortest decimal representation of `n`, most significant digit first.
pub open spec fn decimal(n: nat) -> Seq<char>
    decreases n,
{
    if n < 10 {
        seq![digit_char(n)]
    } else {
        decimal(n / 10) + seq![digit_char(n % 10)]
    }
}

fn digit_str(d: u64) -> (r: &'static str)
    requires
        d < 10,
    ensures
        r@ == seq![digit_char(d as nat)],
{
    proof {
        reveal_strlit("0");
        reveal_strlit("1");
        reveal_strlit("2");
        reveal_strlit("3");
        reveal_strlit("4");
        reveal_strlit("5");
        reveal_strlit("6");
        reveal_strlit("7");
        reveal_strlit("8");
        reveal_strlit("9");
    }
    if d == 0 {
        "0"
    } else if d == 1 {
        "1"
    } else if d == 2 {
        "2"
    } else if d == 3 {
        "3"
    } else if d == 4 {
        "4"
    } else if d == 5 {
        "5"
    } else if d == 6 {
        "6"
    } else if d == 7 {
        "7"
    } else if d == 8 {
        "8"
    } else {
        "9"
    }
}

/// Renders `n` in decimal.
pub fn decimal_text(n: u64) -> (r: String)
    ensures
        r@ == decimal(n as nat),
    decreases n,
{
    if n < 10 {
        String::from_str(digit_str(n))
    } else {
        let mut s = decimal_text(n / 10);
        s.append(digit_str(n % 10));
        s
    }
}

/// Unicode `White_Space`, the set that `char::is_whitespace` tests.
pub open spec fn is_space(c: char) -> bool {
    let u = c as u32;
    (9 <= u && u <= 13) || u == 32 || u == 0x85 || u == 0xA0 || u == 0x1680 || (0x2000 <= u
        && u <= 0x200A) || u == 0x2028 || u == 0x2029 || u == 0x202F || u == 0x205F || u
        == 0x3000
}

pub fn char_is_space(c: char) -> (r: bool)
    ensures
        r == is_space(c),
{
    let u = c as u32;
    (9 <= u && u <= 13) || u == 32 || u == 0x85 || u == 0xA0 || u == 0x1680 || (0x2000 <= u
        && u <= 0x200A) || u == 0x2028 || u == 0x2029 || u == 0x202F || u == 0x205F || u
        == 0x3000
}

/// Index of the first `:` at or after `i`, or the length when there is none.
pub open spec fn colon_from(s: Seq<char>, i: int) -> int
    decreases s.len() - i,
{
    if i >= s.len() {
        s.len() as int
    } else if s[i] == ':' {
        i
    } else {
        colon_from(s, i + 1)
    }
}

/// First index in `[i, hi)` that is not whitespace, or `hi`.
pub open spec fn skip_space(s: Seq<char>, i: int, hi: int) -> int
    decreases hi - i,
{
    if i >= hi {
        hi
    } else if is_space(s[i]) {
        skip_space(s, i + 1, hi)
    } else {
        i
    }
}

/// End of `[lo, j)` once trailing whitespace is dropped.
pub open spec fn back_space(s: Seq<char>, lo: int, j: int) -> int
    decreases j - lo,
{
    if j <= lo {
        lo
    } else if is_space(s[j - 1]) {
        back_space(s, lo, j - 1)
    } else {
        j
    }
}

/// The characters of `s[lo..hi]` without leading and trailing whitespace.
pub open spec fn trimmed(s: Seq<char>, lo: int, hi: int) -> Seq<char> {
    let a = skip_space(s, lo, hi);
    s.subrange(a, back_space(s, a, hi))
}

/// The first two `:`-separated fields of a record, each trimmed; `None` when
/// the record holds no `:` and so has fewer than two fields.
pub open spec fn record_fields(s: Seq<char>) -> Option<(Seq<char>, Seq<char>)> {
    let a = colon_from(s, 0);
    if a >= s.len() {
        None
    } else {
        let b = colon_from(s, a + 1);
        Some((trimmed(s, 0, a), trimmed(s, a + 1, b)))
    }
}

pub open spec fn is_digit(c: char) -> bool {
    48 <= (c as u32) && (c as u32) <= 57
}

pub open spec fn digit_value(c: char) -> nat {
    ((c as u32) - 48) as nat
}

/// The number that a string of decimal digits denotes.
pub open spec fn digits_value(t: Seq<char>) -> nat
    decreases t.len(),
{
    if t.len() == 0 {
        0
    } else {
        digits_value(t.drop_last()) * 10 + digit_value(t.last())
    }
}

/// The digits of an unsigned decimal: what follows an optional leading `+`.
pub open spec fn unsigned_body(t: Seq<char>) -> Seq<char> {
    if t.len() > 0 && t[0] == '+' {
        t.drop_first()
    } else {
        t
    }
}

pub open spec fn all_digits(t: Seq<char>) -> bool {
    forall|i: int| 0 <= i < t.len() ==> is_digit(#[trigger] t[i])
}

/// An unsigned 64-bit decimal: an optional `+`, then at least one digit, and
/// a value that fits.
pub open spec fn parse_u64(t: Seq<char>) -> Option<u64> {
    let body = unsigned_body(t);
    if body.len() > 0 && all_digits(body) && digits_value(body) <= u64::MAX {
        Some(digits_value(body) as u64)
    } else {
        None
    }
}

fn find_colon(s: &str, len: usize, i: usize) -> (r: usize)
    requires
        len == s@.len(),
        i <= len,
    ensures
        r == colon_from(s@, i as int),
{
    let mut k: usize = i;
    while k < len && s.get_char(k) != ':'
        invariant
            len == s@.len(),
            i <= k <= len,
            colon_from(s@, i as int) == colon_from(s@, k as int),
        decreases len - k,
    {
        k = k + 1;
    }
    k
}

fn skip_space_exec(s: &str, i: usize, hi: usize) -> (r: usize)
    requires
        i <= hi <= s@.len(),
    ensures
        r == skip_space(s@, i as int, hi as int),
        i <= r <= hi,
{
    let mut k: usize = i;
    while k < hi && char_is_space(s.get_char(k))
        invariant
            i <= k <= hi <= s@.len(),
            skip_space(s@, i as int, hi as int) == skip_space(s@, k as int, hi as int),
        decreases hi - k,
    {
        k = k + 1;
    }
    k
}

fn back_space_exec(s: &str, lo: usize, j: usize) -> (r: usize)
    requires
        lo <= j <= s@.len(),
    ensures
        r == back_space(s@, lo as int, j as int),
        lo <= r <= j,
{
    let mut k: usize = j;
    while k > lo && char_is_space(s.get_char(k - 1))
        invariant
            lo <= k <= j <= s@.len(),
            back_space(s@, lo as int, j as int) == back_space(s@, lo as int, k as int),
        decreases k,
    {
        k = k - 1;
    }
    k
}

/// Bounds of `s[lo..hi]` with leading and trailing whitespace dropped.
fn trim_bounds(s: &str, lo: usize, hi: usize) -> (r: (usize, usize))
    requires
        lo <= hi <= s@.len(),
    ensures
        lo <= r.0 <= r.1 <= hi,
        s@.subrange(r.0 as int, r.1 as int) == trimmed(s@, lo as int, hi as int),
{
    let a = skip_space_exec(s, lo, hi);
    let b = back_space_exec(s, a, hi);
    (a, b)
}

/// Locates the first two fields of a record, as `record_fields` describes
/// them, by their bounds in `s`.
pub fn field_bounds(s: &str) -> (r: Option<((usize, usize), (usize, usize))>)
    ensures
        match r {
            None => record_fields(s@) is None,
            Some((f, g)) => {
                &&& f.0 <= f.1 <= s@.len()
                &&& g.0 <= g.1 <= s@.len()
                &&& record_fields(s@) == Some(
                    (s@.subrange(f.0 as int, f.1 as int), s@.subrange(g.0 as int, g.1 as int)),
                )
            },
        },
{
    let len = s.unicode_len();
    let a = find_colon(s, len, 0);
    if a >= len {
        return None;
    }
    let b = find_colon(s, len, a + 1);
    proof {
        lemma_colon_from_bounds(s@, a as int + 1);
    }
    let f = trim_bounds(s, 0, a);
    let g = trim_bounds(s, a + 1, b);
    Some((f, g))
}

proof fn lemma_colon_from_bounds(s: Seq<char>, i: int)
    requires
        0 <= i <= s.len(),
    ensures
        i <= colon_from(s, i) <= s.len(),
    decreases s.len() - i,
{
    if i < s.len() && s[i] != ':' {
        lemma_colon_from_bounds(s, i + 1);
    }
}

proof fn lemma_digits_value_prefix(t: Seq<char>, k: int)
    requires
        0 <= k <= t.len(),
    ensures
        digits_value(t.subrange(0, k)) <= digits_value(t),
    decreases t.len(),
{
    if k < t.len() {
        let u = t.drop_last();
        lemma_digits_value_prefix(u, k);
        assert(u.subrange(0, k) =~= t.subrange(0, k));
    } else {
        assert(t.subrange(0, k) =~= t);
    }
}

/// Reads `s[lo..hi]` as an unsigned 64-bit decimal.
pub fn parse_decimal(s: &str, lo: usize, hi: usize) -> (r: Option<u64>)
    requires
        lo <= hi <= s@.len(),
    ensures
        r == parse_u64(s@.subrange(lo as int, hi as int)),
{
    let ghost t = s@.subrange(lo as int, hi as int);
    let start: usize = if lo < hi && s.get_char(lo) == '+' {
        lo + 1
    } else {
        lo
    };
    let ghost body = s@.subrange(start as int, hi as int);
    assert(body =~= unsigned_body(t));
    if start >= hi {
        return None;
    }
    let mut acc: u64 = 0;
    let mut i: usize = start;
    while i < hi
        invariant
            lo <= start <= i <= hi <= s@.len(),
            body == s@.subrange(start as int, hi as int),
            t == s@.subrange(lo as int, hi as int),
            body == unsigned_body(t),
            body.len() > 0,
            forall|k: int| start <= k < i ==> is_digit(#[trigger] s@[k]),
            acc as nat == digits_value(s@.subrange(start as int, i as int)),
        decreases hi - i,
    {
        let c = s.get_char(i);
        let u = c as u32;
        if u < 48 || u > 57 {
            assert(!is_digit(body[i - start]));
            return None;
        }
        let d = (u - 48) as u64;
        let ghost next = s@.subrange(start as int, i + 1);
        assert(next.drop_last() =~= s@.subrange(start as int, i as int));
        if acc > (u64::MAX - d) / 10 {
            proof {
                assert(digits_value(next) > u64::MAX) by (nonlinear_arith)
                    requires
                        digits_value(next) == acc * 10 + d,
                        acc > (u64::MAX - d) / 10,
                        d <= 9,
                ;
                assert(body.subrange(0, i + 1 - start) =~= next);
                lemma_digits_value_prefix(body, i + 1 - start);
            }
            return None;
        }
        assert(acc * 10 + d <= u64::MAX) by (nonlinear_arith)
            requires
                acc <= (u64::MAX - d) / 10,
                d <= 9,
        ;
        acc = acc * 10 + d;
        i = i + 1;
    }
    assert(s@.subrange(start as int, i as int) =~= body);
    Some(acc)
}

proof fn lemma_digit_char(d: nat)
    requires
        d < 10,
    ensures
        is_digit(digit_char(d)),
        digit_value(digit_char(d)) == d,
        digit_char(d) != ':',
        digit_char(d) != '+',
        !is_space(digit_char(d)),
{
}

/// The decimal rendering of a number is a non-empty run of digits that reads
/// back as that number.
pub proof fn lemma_decimal_reads_back(n: nat)
    ensures
        decimal(n).len() > 0,
        all_digits(decimal(n)),
        digits_value(decimal(n)) == n,
        decimal(n)[0] != '+',
        !is_space(decimal(n)[0]),
        !is_space(decimal(n).last()),
        forall|i: int| 0 <= i < decimal(n).len() ==> #[trigger] decimal(n)[i] != ':',
    decreases n,
{
    if n < 10 {
        lemma_digit_char(n);
        assert(decimal(n).drop_last() =~= Seq::<char>::empty());
        assert(digits_value(Seq::<char>::empty()) == 0);
    } else {
        lemma_decimal_reads_back(n / 10);
        lemma_digit_char(n % 10);
        let d = decimal(n);
        let p = decimal(n / 10);
        assert(d.drop_last() =~= p);
        assert forall|i: int| 0 <= i < d.len() implies is_digit(#[trigger] d[i]) && d[i] != ':' by {
            if i < p.len() {
                assert(d[i] == p[i]);
            }
        }
        assert(d[0] == p[0]);
        assert(d.last() == digit_char(n % 10));
        assert(digits_value(d) == digits_value(p) * 10 + digit_value(d.last()));
        assert((n / 10) * 10 + n % 10 == n);
    }
}

/// A `u64` rendered in decimal parses back to itself.
pub proof fn lemma_parse_decimal(n: u64)
    ensures
        parse_u64(decimal(n as nat)) == Some(n),
{
    lemma_decimal_reads_back(n as nat);
    assert(unsigned_body(decimal(n as nat)) == decimal(n as nat));
}

proof fn lemma_colon_skip(s: Seq<char>, j: int, k: int)
    requires
        0 <= j <= k <= s.len(),
        forall|i: int| j <= i < k ==> s[i] != ':',
    ensures
        colon_from(s, j) == colon_from(s, k),
    decreases k - j,
{
    if j < k {
        lemma_colon_skip(s, j + 1, k);
    }
}

/// The fields of a record `v: w`: the first is `v` whenever `v` holds no
/// `:` and does not start or end with whitespace; the second is `w` when `w`
/// is such a run too.
pub proof fn lemma_record_fields(v: Seq<char>, w: Seq<char>)
    requires
        v.len() > 0,
        forall|i: int| 0 <= i < v.len() ==> #[trigger] v[i] != ':',
        !is_space(v[0]),
        !is_space(v.last()),
    ensures
        record_fields(v + seq![':', ' '] + w) is Some,
        (record_fields(v + seq![':', ' '] + w)->0).0 == v,
        (w.len() > 0 && !is_space(w[0]) && !is_space(w.last()) && (forall|i: int|
            0 <= i < w.len() ==> #[trigger] w[i] != ':')) ==> (record_fields(
            v + seq![':', ' '] + w,
        )->0).1 == w,
{
    let s = v + seq![':', ' '] + w;
    let a = v.len() as int;
    lemma_colon_skip(s, 0, a);
    assert(s[a] == ':');
    assert(colon_from(s, 0) == a);
    assert(s[0] == v[0]);
    assert(s[a - 1] == v.last());
    assert(s.subrange(0, a) =~= v);
    if w.len() > 0 && !is_space(w[0]) && !is_space(w.last()) && (forall|i: int|
        0 <= i < w.len() ==> #[trigger] w[i] != ':') {
        assert forall|i: int| a + 1 <= i < s.len() implies s[i] != ':' by {
            if i > a + 1 {
                assert(s[i] == w[i - a - 2]);
            }
        }
        lemma_colon_skip(s, a + 1, s.len() as int);
        assert(s[a + 1] == ' ');
        assert(s[a + 2] == w[0]);
        assert(s[s.len() - 1] == w.last());
        assert(skip_space(s, a + 2, s.len() as int) == a + 2);
        assert(skip_space(s, a + 1, s.len() as int) == a + 2);
        assert(back_space(s, a + 2, s.len() as int) == s.len());
        assert(s.subrange(a + 2, s.len() as int) =~= w);
    }
}

} // verus!
