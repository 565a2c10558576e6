use vstd::prelude::*;

verus! {

/// The bytes of a header value that may be absent.
pub open spec fn option_bytes_view(o: Option<&[u8]>) -> Option<Seq<u8>> {
    match o {
        Some(b) => Some(b@),
        None => None,
    }
}

/// A byte that `HeaderValue::to_str` accepts: a visible ASCII character,
/// a space, or a horizontal tab.
pub open spec fn is_visible_ascii(b: u8) -> bool {
    (32 <= b && b < 127) || b == 9
}

pub open spec fn all_visible_ascii(s: Seq<u8>) -> bool {
    forall|i: int| 0 <= i < s.len() ==> is_visible_ascii(#[trigger] s[i])
}

/// The ASCII bytes that `str::trim` removes: space, tab, LF, VT, FF and CR.
pub open spec fn is_ascii_whitespace_byte(b: u8) -> bool {
    b == 32 || (9 <= b && b <= 13)
}

/// What a trim removes from the ends of a byte string.
pub enum Trimmed {
    /// ASCII whitespace, as `str::trim` removes it.
    Whitespace,
    /// Double quotes, as `str::trim_matches('"')` removes them.
    Quote,
}

pub open spec fn is_trimmed(kind: Trimmed, b: u8) -> bool {
    match kind {
        Trimmed::Whitespace => is_ascii_whitespace_byte(b),
        Trimmed::Quote => b == 34,
    }
}

/// `s` without its leading elements that satisfy `p`.
pub open spec fn trim_start_by<A>(s: Seq<A>, p: spec_fn(A) -> bool) -> Seq<A>
    decreases s.len(),
{
    if s.len() > 0 && p(s[0]) {
        trim_start_by(s.drop_first(), p)
    } else {
        s
    }
}

/// `s` without its trailing elements that satisfy `p`.
pub open spec fn trim_end_by<A>(s: Seq<A>, p: spec_fn(A) -> bool) -> Seq<A>
    decreases s.len(),
{
    if s.len() > 0 && p(s.last()) {
        trim_end_by(s.drop_last(), p)
    } else {
        s
    }
}

/// `s` without the elements that satisfy `p` at both ends.
pub open spec fn trim_by<A>(s: Seq<A>, p: spec_fn(A) -> bool) -> Seq<A> {
    trim_end_by(trim_start_by(s, p), p)
}

pub open spec fn trimmed_bytes(kind: Trimmed) -> spec_fn(u8) -> bool {
    |b: u8| is_trimmed(kind, b)
}

/// `s` without the bytes of the given kind at both ends.
pub open spec fn trim(kind: Trimmed, s: Seq<u8>) -> Seq<u8> {
    trim_by(s, trimmed_bytes(kind))
}

/// Decimal digit.
pub open spec fn is_digit(b: u8) -> bool {
    48 <= b && b <= 57
}

pub open spec fn all_digits(s: Seq<u8>) -> bool {
    forall|i: int| 0 <= i < s.len() ==> is_digit(#[trigger] s[i])
}

/// The number that a string of decimal digits writes.
pub open spec fn digits_value(s: Seq<u8>) -> int
    decreases s.len(),
{
    if s.len() == 0 {
        0
    } else {
        digits_value(s.drop_last()) * 10 + (s.last() - 48)
    }
}

/// The sign a number text starts with, and the text after it.
pub open spec fn split_sign(s: Seq<u8>) -> (bool, Seq<u8>) {
    if s.len() > 0 && s[0] == 45 {
        (true, s.drop_first())
    } else if s.len() > 0 && s[0] == 43 {
        (false, s.drop_first())
    } else {
        (false, s)
    }
}

/// What `i32::from_str` gives for a text: an optional `+` or `-`, then at least
/// one decimal digit and nothing else, naming a number that fits in an `i32`.
pub open spec fn parse_i32_text(s: Seq<u8>) -> Option<i32> {
    let (negative, body) = split_sign(s);
    if body.len() > 0 && all_digits(body) {
        let v = if negative {
            -digits_value(body)
        } else {
            digits_value(body)
        };
        if i32::MIN <= v <= i32::MAX {
            Some(v as i32)
        } else {
            None
        }
    } else {
        None
    }
}

/// The decimal digits of `n`, most significant first, with no leading zero.
pub open spec fn decimal_digits(n: nat) -> Seq<u8>
    decreases n,
{
    if n < 10 {
        seq![(48 + n) as u8]
    } else {
        decimal_digits(n / 10).push((48 + n % 10) as u8)
    }
}

/// How `i32` displays: a `-` for a negative number, then its decimal digits.
pub open spec fn i32_text(v: i32) -> Seq<u8> {
    if v < 0 {
        seq![45u8] + decimal_digits((-v) as nat)
    } else {
        decimal_digits(v as nat)
    }
}

/// ASCII bytes read as characters.
pub open spec fn ascii_text(b: Seq<u8>) -> Seq<char> {
    b.map_values(|x: u8| x as char)
}

pub proof fn lemma_trim_start_at<A>(s: Seq<A>, p: spec_fn(A) -> bool, i: int)
    requires
        0 <= i <= s.len(),
        forall|k: int| 0 <= k < i ==> p(#[trigger] s[k]),
        i == s.len() || !p(s[i]),
    ensures
        trim_start_by(s, p) == s.subrange(i, s.len() as int),
    decreases i,
{
    if i == 0 {
        assert(s.subrange(0, s.len() as int) =~= s);
    } else {
        let t = s.drop_first();
        assert forall|k: int| 0 <= k < i - 1 implies p(#[trigger] t[k]) by {
            assert(t[k] == s[k + 1]);
        }
        if i < s.len() {
            assert(t[i - 1] == s[i]);
        }
        lemma_trim_start_at(t, p, i - 1);
        assert(t.subrange(i - 1, t.len() as int) =~= s.subrange(i, s.len() as int));
    }
}

pub proof fn lemma_trim_end_at<A>(s: Seq<A>, p: spec_fn(A) -> bool, j: int)
    requires
        0 <= j <= s.len(),
        forall|k: int| j <= k < s.len() ==> p(#[trigger] s[k]),
        j == 0 || !p(s[j - 1]),
    ensures
        trim_end_by(s, p) == s.subrange(0, j),
    decreases s.len() - j,
{
    if j == s.len() {
        assert(s.subrange(0, j) =~= s);
    } else {
        let t = s.drop_last();
        assert(s.last() == s[s.len() - 1]);
        assert forall|k: int| j <= k < t.len() implies p(#[trigger] t[k]) by {
            assert(t[k] == s[k]);
        }
        if j > 0 {
            assert(t[j - 1] == s[j - 1]);
        }
        lemma_trim_end_at(t, p, j);
        assert(t.subrange(0, j) =~= s.subrange(0, j));
    }
}

/// Trimming where `s[i..j]` is what the two scans of a trim stop at.
pub proof fn lemma_trim_between<A>(s: Seq<A>, p: spec_fn(A) -> bool, i: int, j: int)
    requires
        0 <= i <= j <= s.len(),
        forall|k: int| 0 <= k < i ==> p(#[trigger] s[k]),
        i == s.len() || !p(s[i]),
        forall|k: int| j <= k < s.len() ==> p(#[trigger] s[k]),
        j == i || !p(s[j - 1]),
    ensures
        trim_by(s, p) == s.subrange(i, j),
{
    lemma_trim_start_at(s, p, i);
    let t = s.subrange(i, s.len() as int);
    assert forall|k: int| j - i <= k < t.len() implies p(#[trigger] t[k]) by {
        assert(t[k] == s[i + k]);
    }
    if j > i {
        assert(t[j - i - 1] == s[j - 1]);
    }
    lemma_trim_end_at(t, p, j - i);
    assert(t.subrange(0, j - i) =~= s.subrange(i, j));
}

/// Trimming a text whose first and last elements are kept changes nothing.
pub proof fn lemma_trim_untouched<A>(s: Seq<A>, p: spec_fn(A) -> bool)
    requires
        s.len() > 0,
        !p(s[0]),
        !p(s.last()),
    ensures
        trim_by(s, p) == s,
{
    assert(trim_start_by(s, p) == s);
}

pub proof fn lemma_digits_value_step(s: Seq<u8>, i: int)
    requires
        0 <= i < s.len(),
    ensures
        digits_value(s.subrange(0, i + 1)) == digits_value(s.subrange(0, i)) * 10 + (s[i] - 48),
{
    let p = s.subrange(0, i + 1);
    assert(p.drop_last() =~= s.subrange(0, i));
    assert(p.last() == s[i]);
}

pub proof fn lemma_digits_prefix_le(s: Seq<u8>, k: int)
    requires
        all_digits(s),
        0 <= k <= s.len(),
    ensures
        0 <= digits_value(s.subrange(0, k)) <= digits_value(s),
    decreases s.len(),
{
    if k == s.len() {
        assert(s.subrange(0, k) =~= s);
        if s.len() > 0 {
            let t = s.drop_last();
            assert forall|i: int| 0 <= i < t.len() implies is_digit(#[trigger] t[i]) by {
                assert(t[i] == s[i]);
            }
            lemma_digits_prefix_le(t, t.len() as int);
            assert(t.subrange(0, t.len() as int) =~= t);
            assert(is_digit(s[s.len() - 1]));
        }
    } else {
        let t = s.drop_last();
        assert forall|i: int| 0 <= i < t.len() implies is_digit(#[trigger] t[i]) by {
            assert(t[i] == s[i]);
        }
        lemma_digits_prefix_le(t, k);
        assert(t.subrange(0, k) =~= s.subrange(0, k));
        lemma_digits_prefix_le(t, t.len() as int);
        assert(t.subrange(0, t.len() as int) =~= t);
        assert(is_digit(s[s.len() - 1]));
    }
}

pub proof fn lemma_decimal_digits(n: nat)
    ensures
        decimal_digits(n).len() > 0,
        all_digits(decimal_digits(n)),
        digits_value(decimal_digits(n)) == n,
        is_digit(decimal_digits(n)[0]),
        is_digit(decimal_digits(n).last()),
        n < 10 ==> decimal_digits(n).len() == 1,
        n >= 10 ==> decimal_digits(n)[0] != 48,
    decreases n,
{
    let d = decimal_digits(n);
    if n < 10 {
        assert(d.drop_last() =~= Seq::<u8>::empty());
        assert(d.last() == 48 + n);
        assert(digits_value(d) == digits_value(d.drop_last()) * 10 + (d.last() - 48));
    } else {
        lemma_decimal_digits(n / 10);
        let p = decimal_digits(n / 10);
        assert(d.drop_last() =~= p);
        assert(d[0] == p[0]);
        assert forall|i: int| 0 <= i < d.len() implies is_digit(#[trigger] d[i]) by {
            if i < p.len() {
                assert(d[i] == p[i]);
            }
        }
        assert(d.last() == 48 + n % 10);
        assert(digits_value(d) == digits_value(d.drop_last()) * 10 + (d.last() - 48));
        assert((n / 10) * 10 + n % 10 == n);
    }
}

/// The decimal text of a number has no leading zero: its first digit is `0` only
/// for zero itself, which is written with that one digit.
pub proof fn lemma_decimal_digits_no_leading_zero(n: nat)
    ensures
        decimal_digits(n)[0] == 48 <==> n == 0,
        decimal_digits(n)[0] == 48 ==> decimal_digits(n).len() == 1,
{
    lemma_decimal_digits(n);
}

/// A decimal text without a leading zero is the decimal text of the number it
/// writes: every number has exactly one such text.
pub proof fn lemma_decimal_digits_unique(s: Seq<u8>)
    requires
        s.len() > 0,
        all_digits(s),
        s.len() == 1 || s[0] != 48,
    ensures
        digits_value(s) >= 0,
        s == decimal_digits(digits_value(s) as nat),
    decreases s.len(),
{
    if s.len() == 1 {
        assert(s.drop_last() =~= Seq::<u8>::empty());
        assert(is_digit(s[0]));
        assert(s.last() == s[0]);
        assert(digits_value(s.drop_last()) == 0);
        assert(digits_value(s) == digits_value(s.drop_last()) * 10 + (s.last() - 48));
        assert(digits_value(s) == s[0] - 48);
        let n = digits_value(s) as nat;
        assert(n < 10);
        assert(decimal_digits(n) == seq![(48 + n) as u8]);
        assert(s =~= seq![(48 + n) as u8]);
    } else {
        let t = s.drop_last();
        assert forall|i: int| 0 <= i < t.len() implies is_digit(#[trigger] t[i]) by {
            assert(t[i] == s[i]);
        }
        assert(t[0] == s[0]);
        lemma_decimal_digits_unique(t);
        lemma_digits_prefix_le(t, 1);
        assert(t.subrange(0, 1).drop_last() =~= Seq::<u8>::empty());
        let f = t.subrange(0, 1);
        assert(f.last() == t[0]);
        assert(digits_value(f.drop_last()) == 0);
        assert(digits_value(f) == digits_value(f.drop_last()) * 10 + (f.last() - 48));
        assert(digits_value(f) == t[0] - 48);
        assert(is_digit(s[s.len() - 1]));
        let d = s.last() - 48;
        let v = digits_value(s);
        assert(v == digits_value(t) * 10 + d);
        assert(digits_value(t) >= 1);
        assert(v >= 10);
        assert(v / 10 == digits_value(t));
        assert(v % 10 == d);
        let n = v as nat;
        assert(decimal_digits(n) == decimal_digits(n / 10).push((48 + n % 10) as u8));
        assert(s =~= t.push(s.last()));
    }
}

pub proof fn lemma_ascii_text_push(b: Seq<u8>, x: u8)
    ensures
        ascii_text(b.push(x)) == ascii_text(b).push(x as char),
{
    assert(ascii_text(b.push(x)) =~= ascii_text(b).push(x as char));
}

pub proof fn lemma_ascii_text_concat(a: Seq<u8>, b: Seq<u8>)
    ensures
        ascii_text(a + b) == ascii_text(a) + ascii_text(b),
{
    assert(ascii_text(a + b) =~= ascii_text(a) + ascii_text(b));
}

/// Whether a byte is of the kind a trim removes.
pub fn is_trimmed_byte(kind: &Trimmed, b: u8) -> (r: bool)
    ensures
        r == is_trimmed(*kind, b),
{
    match kind {
        Trimmed::Whitespace => b == 32 || (9 <= b && b <= 13),
        Trimmed::Quote => b == 34,
    }
}

/// The bounds of `bytes[from..to]` with the bytes of the given kind taken off both ends.
pub fn trim_range(bytes: &[u8], from: usize, to: usize, kind: Trimmed) -> (r: (usize, usize))
    requires
        from <= to <= bytes@.len(),
    ensures
        from <= r.0 <= r.1 <= to,
        bytes@.subrange(r.0 as int, r.1 as int) == trim(kind, bytes@.subrange(from as int, to as int)),
        r.0 < r.1 ==> !is_trimmed(kind, bytes@[r.0 as int]) && !is_trimmed(kind, bytes@[r.1 - 1]),
{
    let mut i = from;
    while i < to && is_trimmed_byte(&kind, bytes[i])
        invariant
            from <= i <= to <= bytes@.len(),
            forall|k: int| from <= k < i ==> is_trimmed(kind, #[trigger] bytes@[k]),
        decreases to - i,
    {
        i = i + 1;
    }
    let mut j = to;
    while j > i && is_trimmed_byte(&kind, bytes[j - 1])
        invariant
            from <= i <= j <= to <= bytes@.len(),
            forall|k: int| j <= k < to ==> is_trimmed(kind, #[trigger] bytes@[k]),
        decreases j - i,
    {
        j = j - 1;
    }
    proof {
        let s = bytes@.subrange(from as int, to as int);
        let p = trimmed_bytes(kind);
        assert forall|k: int| 0 <= k < i - from implies p(#[trigger] s[k]) by {
            assert(s[k] == bytes@[from + k]);
        }
        assert forall|k: int| j - from <= k < s.len() implies p(#[trigger] s[k]) by {
            assert(s[k] == bytes@[from + k]);
        }
        if i < to {
            assert(s[i - from] == bytes@[i as int]);
        }
        if j > i {
            assert(s[j - from - 1] == bytes@[j - 1]);
        }
        lemma_trim_between(s, p, i - from, j - from);
        assert(s.subrange(i - from, j - from) =~= bytes@.subrange(i as int, j as int));
    }
    (i, j)
}

/// Whether every byte is one that `HeaderValue::to_str` accepts.
pub fn is_visible_ascii_text(bytes: &[u8]) -> (r: bool)
    ensures
        r == all_visible_ascii(bytes@),
{
    let mut i: usize = 0;
    while i < bytes.len()
        invariant
            i <= bytes@.len(),
            forall|k: int| 0 <= k < i ==> is_visible_ascii(#[trigger] bytes@[k]),
        decreases bytes@.len() - i,
    {
        let b = bytes[i];
        if !((32 <= b && b < 127) || b == 9) {
            return false;
        }
        i = i + 1;
    }
    true
}

/// Reads `bytes[from..to]` as `i32::from_str` does.
pub fn parse_i32_range(bytes: &[u8], from: usize, to: usize) -> (r: Option<i32>)
    requires
        from <= to <= bytes@.len(),
    ensures
        r == parse_i32_text(bytes@.subrange(from as int, to as int)),
{
    let ghost s = bytes@.subrange(from as int, to as int);
    let mut negative = false;
    let mut start = from;
    if from < to && bytes[from] == 45 {
        negative = true;
        start = from + 1;
    } else if from < to && bytes[from] == 43 {
        start = from + 1;
    }
    let ghost body = bytes@.subrange(start as int, to as int);
    assert(split_sign(s) == (negative, body)) by {
        if from < to {
            assert(s[0] == bytes@[from as int]);
        }
        if start == from + 1 {
            assert(s.drop_first() =~= body);
        } else {
            assert(s =~= body);
        }
    }
    if start == to {
        return None;
    }
    let mut acc: u64 = 0;
    let mut i = start;
    while i < to
        invariant
            from <= start <= i <= to <= bytes@.len(),
            start < to,
            body == bytes@.subrange(start as int, to as int),
            split_sign(s) == (negative, body),
            s == bytes@.subrange(from as int, to as int),
            forall|k: int| 0 <= k < i - start ==> is_digit(#[trigger] body[k]),
            acc as int == digits_value(body.subrange(0, i - start)),
            acc <= 2147483648,
        decreases to - i,
    {
        let b = bytes[i];
        assert(body[i - start] == b);
        if !(48 <= b && b <= 57) {
            assert(!all_digits(body));
            return None;
        }
        proof {
            lemma_digits_value_step(body, i - start);
        }
        acc = acc * 10 + (b - 48) as u64;
        i = i + 1;
        if acc > 2147483648 {
            proof {
                if all_digits(body) {
                    lemma_digits_prefix_le(body, i - start);
                }
            }
            return None;
        }
    }
    assert(body.subrange(0, body.len() as int) =~= body);
    assert(all_digits(body));
    if negative {
        let v: i64 = -(acc as i64);
        Some(v as i32)
    } else if acc <= 2147483647 {
        Some(acc as i32)
    } else {
        None
    }
}

/// The text of one decimal digit.
fn digit_text(d: u8) -> (s: &'static str)
    requires
        d < 10,
    ensures
        s@ == seq![((48 + d) as u8) as char],
{
    proof {
        reveal_strlit("0");
        reveal_strlit("1");
        reveal_strlit("2");
        reveal_strlit("3");
        reveal_strlit("4");
        reveal_strlit("5");
        reveal_strlit("6");
        reveal_strlit("7");
        reveal_strlit("8");
        reveal_strlit("9");
    }
    match d {
        0 => "0",
        1 => "1",
        2 => "2",
        3 => "3",
        4 => "4",
        5 => "5",
        6 => "6",
        7 => "7",
        8 => "8",
        _ => "9",
    }
}

/// Appends the decimal digits of `n` to `out`.
pub fn push_decimal(out: &mut String, n: u64)
    ensures
        final(out)@ == old(out)@ + ascii_text(decimal_digits(n as nat)),
    decreases n,
{
    if n >= 10 {
        push_decimal(out, n / 10);
    }
    let d = (n % 10) as u8;
    out.append(digit_text(d));
    proof {
        if n >= 10 {
            lemma_ascii_text_push(decimal_digits((n / 10) as nat), (48 + d) as u8);
            assert(decimal_digits(n as nat) == decimal_digits((n / 10) as nat).push(
                (48 + n % 10) as u8,
            ));
        } else {
            assert(ascii_text(decimal_digits(n as nat)) =~= seq![((48 + d) as u8) as char]);
        }
    }
}

/// What `char::is_whitespace` holds of: the characters with the Unicode
/// `White_Space` property.
pub open spec fn is_unicode_whitespace(c: char) -> bool {
    let v = c as u32;
    ||| v == 0x20
    ||| 0x09 <= v <= 0x0d
    ||| v == 0x85
    ||| v == 0xa0
    ||| v == 0x1680
    ||| 0x2000 <= v <= 0x200a
    ||| v == 0x2028
    ||| v == 0x2029
    ||| v == 0x202f
    ||| v == 0x205f
    ||| v == 0x3000
}

pub open spec fn unicode_whitespace() -> spec_fn(char) -> bool {
    |c: char| is_unicode_whitespace(c)
}

/// What `str::trim` gives: the text without whitespace at either end.
pub open spec fn trim_text(s: Seq<char>) -> Seq<char> {
    trim_by(s, unicode_whitespace())
}

/// Whether `char::is_whitespace` holds of `c`.
pub fn is_whitespace_char(c: char) -> (r: bool)
    ensures
        r == is_unicode_whitespace(c),
{
    let v = c as u32;
    v == 0x20 || (0x09 <= v && v <= 0x0d) || v == 0x85 || v == 0xa0 || v == 0x1680 || (0x2000
        <= v && v <= 0x200a) || v == 0x2028 || v == 0x2029 || v == 0x202f || v == 0x205f || v
        == 0x3000
}

/// The bounds, in characters, of `s` without whitespace at either end.
fn trim_char_bounds(s: &str) -> (r: (usize, usize))
    ensures
        r.0 <= r.1 <= s@.len(),
        s@.subrange(r.0 as int, r.1 as int) == trim_text(s@),
{
    let n = s.unicode_len();
    let mut i: usize = 0;
    while i < n && is_whitespace_char(s.get_char(i))
        invariant
            i <= n,
            n == s@.len(),
            forall|k: int| 0 <= k < i ==> is_unicode_whitespace(#[trigger] s@[k]),
        decreases n - i,
    {
        i = i + 1;
    }
    let mut j: usize = n;
    while j > i && is_whitespace_char(s.get_char(j - 1))
        invariant
            i <= j <= n,
            n == s@.len(),
            forall|k: int| j <= k < n ==> is_unicode_whitespace(#[trigger] s@[k]),
        decreases j - i,
    {
        j = j - 1;
    }
    proof {
        let p = unicode_whitespace();
        assert forall|k: int| 0 <= k < i implies p(#[trigger] s@[k]) by {}
        assert forall|k: int| j <= k < n implies p(#[trigger] s@[k]) by {}
        lemma_trim_between(s@, p, i as int, j as int);
    }
    (i, j)
}

/// `s.trim()` as an owned string.
pub fn trim_str(s: &str) -> (r: String)
    ensures
        r@ == trim_text(s@),
{
    let (i, j) = trim_char_bounds(s);
    s.substring_char(i, j).to_owned()
}

/// Whether `s.trim()` is empty.
pub fn is_blank(s: &str) -> (r: bool)
    ensures
        r == (trim_text(s@).len() == 0),
{
    let (i, j) = trim_char_bounds(s);
    i == j
}

} // verus!
