//! Character-level helpers shared by the modules of the crate: building
//! strings one character at a time and writing numbers in decimal.

use vstd::prelude::*;

verus! {

/// The character that writes the decimal digit `d`.
pub open spec fn digit_char(d: nat) -> char {
    if d == 0 {
        '0'
    } else if d == 1 {
        '1'
    } else if d == 2 {
        '2'
    } else if d == 3 {
        '3'
    } else if d == 4 {
        '4'
    } else if d == 5 {
        '5'
    } else if d == 6 {
        '6'
    } else if d == 7 {
        '7'
    } else if d == 8 {
        '8'
    } else {
        '9'
    }
}

/// The decimal form of `n`, without sign or leading zeros.
pub open spec fn decimal(n: nat) -> Seq<char>
    decreases n,
{
    if n < 10 {
        seq![digit_char(n)]
    } else {
        decimal(n / 10).push(digit_char(n % 10))
    }
}

/// Relies on `String::push`: the character is appended at the end.
#[verifier::external_body]
pub(crate) fn push_char(s: &mut String, c: char)
    ensures
        final(s)@ == old(s)@.push(c),
{
    s.push(c)
}

fn digit_to_char(d: usize) -> (c: char)
    requires
        d < 10,
    ensures
        c == digit_char(d as nat),
{
    if d == 0 {
        '0'
    } else if d == 1 {
        '1'
    } else if d == 2 {
        '2'
    } else if d == 3 {
        '3'
    } else if d == 4 {
        '4'
    } else if d == 5 {
        '5'
    } else if d == 6 {
        '6'
    } else if d == 7 {
        '7'
    } else if d == 8 {
        '8'
    } else {
        '9'
    }
}

/// Appends the decimal form of `n` to `s`.
pub fn push_decimal(s: &mut String, n: usize)
    ensures
        final(s)@ == old(s)@ + decimal(n as nat),
    decreases n,
{
    if n >= 10 {
        push_decimal(s, n / 10);
    }
    push_char(s, digit_to_char(n % 10));
    proof {
        if n >= 10 {
            assert(old(s)@ + decimal(n as nat) =~= (old(s)@ + decimal((n / 10) as nat)).push(
                digit_char((n % 10) as nat),
            ));
        } else {
            assert(old(s)@ + decimal(n as nat) =~= old(s)@.push(digit_char(n as nat)));
        }
    }
}

/// The decimal form of `n` as a new string.
pub fn decimal_string(n: usize) -> (r: String)
    ensures
        r@ == decimal(n as nat),
{
    let mut s = String::new();
    push_decimal(&mut s, n);
    proof {
        assert(s@ =~= decimal(n as nat));
    }
    s
}

/// The fields of `s` between its `sep` characters, from left to right: a
/// string without `sep` is one field, and each `sep` starts a new one.
pub open spec fn split_fields(s: Seq<char>, sep: char) -> Seq<Seq<char>>
    decreases s.len(),
{
    if s.len() == 0 {
        seq![Seq::<char>::empty()]
    } else {
        let prev = split_fields(s.drop_last(), sep);
        if s.last() == sep {
            prev.push(Seq::<char>::empty())
        } else {
            prev.update(prev.len() - 1, prev.last().push(s.last()))
        }
    }
}

/// Splitting always yields at least one field.
pub proof fn lemma_split_fields_nonempty(s: Seq<char>, sep: char)
    ensures
        split_fields(s, sep).len() >= 1,
    decreases s.len(),
{
    if s.len() > 0 {
        lemma_split_fields_nonempty(s.drop_last(), sep);
    }
}

/// The views of a sequence of strings.
pub open spec fn views(v: Seq<String>) -> Seq<Seq<char>> {
    v.map_values(|s: String| s@)
}

/// Splits `s` at each `sep`, as `str::split` does.
pub fn split_on(s: &str, sep: char) -> (r: Vec<String>)
    ensures
        views(r@) == split_fields(s@, sep),
{
    let n = s.unicode_len();
    let mut parts: Vec<String> = Vec::new();
    let mut cur = String::new();
    let mut i: usize = 0;
    proof {
        assert(s@.take(0) =~= Seq::<char>::empty());
        assert(views(parts@).push(cur@) =~= seq![Seq::<char>::empty()]);
    }
    while i < n
        invariant
            n == s@.len(),
            i <= n,
            views(parts@).push(cur@) == split_fields(s@.take(i as int), sep),
        decreases n - i,
    {
        let c = s.get_char(i);
        let ghost before = views(parts@).push(cur@);
        proof {
            assert(s@.take(i + 1).drop_last() =~= s@.take(i as int));
            assert(s@.take(i + 1).last() == c);
        }
        if c == sep {
            parts.push(cur);
            cur = String::new();
            proof {
                assert(views(parts@).push(cur@) =~= before.push(Seq::<char>::empty()));
            }
        } else {
            push_char(&mut cur, c);
            proof {
                assert(views(parts@).push(cur@) =~= before.update(
                    before.len() - 1,
                    before.last().push(c),
                ));
            }
        }
        i = i + 1;
    }
    proof {
        assert(s@.take(n as int) =~= s@);
    }
    let ghost all = views(parts@).push(cur@);
    parts.push(cur);
    proof {
        assert(views(parts@) =~= all);
    }
    parts
}

/// `c` has the Unicode `White_Space` property.
pub open spec fn is_white_space(c: char) -> bool {
    let u = c as u32;
    (0x09 <= u && u <= 0x0d) || u == 0x20 || u == 0x85 || u == 0xa0 || u == 0x1680 || (0x2000
        <= u && u <= 0x200a) || u == 0x2028 || u == 0x2029 || u == 0x202f || u == 0x205f || u
        == 0x3000
}

/// `s` without its leading whitespace.
pub open spec fn trim_start_of(s: Seq<char>) -> Seq<char>
    decreases s.len(),
{
    if s.len() > 0 && is_white_space(s[0]) {
        trim_start_of(s.skip(1))
    } else {
        s
    }
}

/// `s` without its trailing whitespace.
pub open spec fn trim_end_of(s: Seq<char>) -> Seq<char>
    decreases s.len(),
{
    if s.len() > 0 && is_white_space(s.last()) {
        trim_end_of(s.drop_last())
    } else {
        s
    }
}

/// What `str::trim` leaves of a string: leading and trailing whitespace
/// removed.
pub open spec fn trimmed_of(s: Seq<char>) -> Seq<char> {
    trim_end_of(trim_start_of(s))
}

/// Relies on `str::trim`: it removes leading and trailing characters with
/// the Unicode `White_Space` property.
#[verifier::external_body]
pub(crate) fn trim_str<'a>(s: &'a str) -> (r: &'a str)
    ensures
        r@ == trimmed_of(s@),
{
    s.trim()
}

/// `c` is an ASCII decimal digit.
pub open spec fn is_digit(c: char) -> bool {
    '0' <= c && c <= '9'
}

/// The value of an ASCII decimal digit.
pub open spec fn digit_value(c: char) -> nat {
    (c as u32 - '0' as u32) as nat
}

/// The value of a string of decimal digits.
pub open spec fn digits_value(d: Seq<char>) -> nat
    decreases d.len(),
{
    if d.len() == 0 {
        0
    } else {
        digits_value(d.drop_last()) * 10 + digit_value(d.last())
    }
}

/// The digits of an unsigned number: `s` without one leading `+`.
pub open spec fn unsigned_digits(s: Seq<char>) -> Seq<char> {
    if s.len() > 0 && s[0] == '+' {
        s.skip(1)
    } else {
        s
    }
}

/// What parsing `s` as a `usize` gives: an optional `+` and at least one
/// digit, whose value fits.
pub open spec fn parse_usize_spec(s: Seq<char>) -> Option<nat> {
    let d = unsigned_digits(s);
    if d.len() > 0 && (forall|i: int| 0 <= i < d.len() ==> is_digit(#[trigger] d[i]))
        && digits_value(d) <= usize::MAX {
        Some(digits_value(d))
    } else {
        None
    }
}

proof fn lemma_digits_value_grows(d: Seq<char>, i: int)
    requires
        0 <= i <= d.len(),
        forall|k: int| 0 <= k < d.len() ==> is_digit(#[trigger] d[k]),
    ensures
        digits_value(d.take(i)) <= digits_value(d),
    decreases d.len(),
{
    if i < d.len() {
        let e = d.drop_last();
        assert forall|k: int| 0 <= k < e.len() implies is_digit(#[trigger] e[k]) by {
            assert(e[k] == d[k]);
        }
        lemma_digits_value_grows(e, i);
        assert(e.take(i) =~= d.take(i));
    } else {
        assert(d.take(i) =~= d);
    }
}

/// Parses a decimal `usize` as `str::parse` does: an optional `+`, then
/// one or more digits whose value fits.
pub fn parse_usize(s: &str) -> (r: Option<usize>)
    ensures
        r is None <==> parse_usize_spec(s@) is None,
        r matches Some(v) ==> parse_usize_spec(s@) == Some(v as nat),
{
    let n = s.unicode_len();
    let start: usize = if n > 0 && s.get_char(0) == '+' {
        1
    } else {
        0
    };
    let ghost d = unsigned_digits(s@);
    proof {
        if start == 1 {
            assert(d == s@.skip(1));
        } else {
            assert(d == s@);
        }
    }
    if start == n {
        return None;
    }
    let mut value: usize = 0;
    let mut i: usize = start;
    proof {
        assert(d.take(0) =~= Seq::<char>::empty());
    }
    while i < n
        invariant
            n == s@.len(),
            start <= i <= n,
            start < n,
            d == unsigned_digits(s@),
            d.len() == n - start,
            forall|k: int| 0 <= k < d.len() ==> d[k] == s@[k + start],
            forall|k: int| 0 <= k < i - start ==> is_digit(#[trigger] d[k]),
            value == digits_value(d.take(i - start)),
        decreases n - i,
    {
        let c = s.get_char(i);
        proof {
            assert(d[i - start] == c);
        }
        if !('0' <= c && c <= '9') {
            proof {
                assert(!is_digit(d[i - start]));
            }
            return None;
        }
        let dv = (c as u32 - '0' as u32) as usize;
        proof {
            assert(d.take(i - start + 1).drop_last() =~= d.take(i - start));
            assert(d.take(i - start + 1).last() == c);
            assert(digit_value(c) == dv);
            assert(digits_value(d.take(i - start + 1)) == value * 10 + dv);
        }
        if value > (usize::MAX - dv) / 10 {
            proof {
                assert(digits_value(d.take(i - start + 1)) > usize::MAX) by (nonlinear_arith)
                    requires
                        digits_value(d.take(i - start + 1)) == value * 10 + dv,
                        value > (usize::MAX - dv) / 10,
                        dv <= 9,
                ;
                if forall|k: int| 0 <= k < d.len() ==> is_digit(#[trigger] d[k]) {
                    lemma_digits_value_grows(d, i - start + 1);
                }
            }
            return None;
        }
        proof {
            assert(value * 10 + dv <= usize::MAX) by (nonlinear_arith)
                requires
                    value <= (usize::MAX - dv) / 10,
                    dv <= 9,
            ;
        }
        value = value * 10 + dv;
        i = i + 1;
    }
    proof {
        assert(d.take(n - start) =~= d);
    }
    Some(value)
}

/// `a` comes no later than `b` in lexicographic order by character, the
/// order of `String`.
pub open spec fn text_le(a: Seq<char>, b: Seq<char>) -> bool
    decreases a.len(),
{
    if a.len() == 0 {
        true
    } else if b.len() == 0 {
        false
    } else if a[0] != b[0] {
        a[0] < b[0]
    } else {
        text_le(a.skip(1), b.skip(1))
    }
}

/// Any two texts are ordered one way or the other.
pub proof fn lemma_text_le_total(a: Seq<char>, b: Seq<char>)
    ensures
        text_le(a, b) || text_le(b, a),
    decreases a.len(),
{
    if a.len() > 0 && b.len() > 0 && a[0] == b[0] {
        lemma_text_le_total(a.skip(1), b.skip(1));
    }
}

/// The order is transitive.
pub proof fn lemma_text_le_transitive(a: Seq<char>, b: Seq<char>, c: Seq<char>)
    requires
        text_le(a, b),
        text_le(b, c),
    ensures
        text_le(a, c),
    decreases a.len(),
{
    if a.len() > 0 && a[0] == b[0] && b[0] == c[0] {
        lemma_text_le_transitive(a.skip(1), b.skip(1), c.skip(1));
    }
}

/// Whether `a` comes no later than `b` (see `text_le`).
pub fn text_le_exec(a: &str, b: &str) -> (r: bool)
    ensures
        r == text_le(a@, b@),
{
    let na = a.unicode_len();
    let nb = b.unicode_len();
    let mut i: usize = 0;
    proof {
        assert(a@.skip(0) =~= a@);
        assert(b@.skip(0) =~= b@);
    }
    while i < na && i < nb
        invariant
            na == a@.len(),
            nb == b@.len(),
            i <= na,
            i <= nb,
            text_le(a@.skip(i as int), b@.skip(i as int)) == text_le(a@, b@),
        decreases na - i,
    {
        let ca = a.get_char(i);
        let cb = b.get_char(i);
        proof {
            assert(a@.skip(i as int)[0] == ca);
            assert(b@.skip(i as int)[0] == cb);
            assert(a@.skip(i as int).skip(1) =~= a@.skip(i + 1));
            assert(b@.skip(i as int).skip(1) =~= b@.skip(i + 1));
        }
        if ca != cb {
            return ca < cb;
        }
        i = i + 1;
    }
    proof {
        if i < na {
            assert(a@.skip(i as int).len() > 0);
            assert(b@.skip(i as int).len() == 0);
        }
    }
    i == na
}

} // verus!
