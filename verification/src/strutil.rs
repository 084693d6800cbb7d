use vstd::prelude::*;

verus! {

/// Whether two string slices carry the same characters, compared one
/// character at a time.
pub(crate) fn str_eq(a: &str, b: &str) -> (r: bool)
    ensures
        r == (a@ == b@),
{
    let alen = a.unicode_len();
    let blen = b.unicode_len();
    if alen != blen {
        proof {
            assert(a@.len() != b@.len());
        }
        return false;
    }
    let mut i: usize = 0;
    while i < alen
        invariant
            i <= alen,
            alen == a@.len(),
            blen == b@.len(),
            alen == blen,
            forall|j: int| 0 <= j < i ==> a@[j] == b@[j],
        decreases alen - i,
    {
        if a.get_char(i) != b.get_char(i) {
            proof {
                assert(a@[i as int] != b@[i as int]);
            }
            return false;
        }
        i = i + 1;
    }
    proof {
        assert(a@ =~= b@);
    }
    true
}

pub open spec fn spec_digit_char(d: nat) -> char {
    if d == 0 { '0' }
    else if d == 1 { '1' }
    else if d == 2 { '2' }
    else if d == 3 { '3' }
    else if d == 4 { '4' }
    else if d == 5 { '5' }
    else if d == 6 { '6' }
    else if d == 7 { '7' }
    else if d == 8 { '8' }
    else { '9' }
}

/// The one-character string for a decimal digit.
pub fn digit_str(d: u8) -> (r: &'static str)
    requires
        d < 10,
    ensures
        r@ == seq![spec_digit_char(d as nat)],
{
    proof {
        reveal_strlit("0");
        reveal_strlit("1");
        reveal_strlit("2");
        reveal_strlit("3");
        reveal_strlit("4");
        reveal_strlit("5");
        reveal_strlit("6");
        reveal_strlit("7");
        reveal_strlit("8");
        reveal_strlit("9");
    }
    let r = match d {
        0 => "0",
        1 => "1",
        2 => "2",
        3 => "3",
        4 => "4",
        5 => "5",
        6 => "6",
        7 => "7",
        8 => "8",
        _ => "9",
    };
    proof {
        assert(r@ =~= seq![spec_digit_char(d as nat)]);
    }
    r
}

/// The decimal rendering of a natural number, most significant digit first.
pub open spec fn spec_u64_dec(n: nat) -> Seq<char>
    decreases n,
{
    if n < 10 {
        seq![spec_digit_char(n)]
    } else {
        spec_u64_dec(n / 10) + seq![spec_digit_char(n % 10)]
    }
}

pub fn u64_to_string(n: u64) -> (s: String)
    ensures
        s@ == spec_u64_dec(n as nat),
    decreases n,
{
    if n < 10 {
        String::from_str(digit_str(n as u8))
    } else {
        let mut s = u64_to_string(n / 10);
        s.append(digit_str((n % 10) as u8));
        proof {
            assert(s@ =~= spec_u64_dec(n as nat));
        }
        s
    }
}

/// The decimal rendering of a signed number: a minus sign, then the magnitude.
pub open spec fn spec_i64_dec(n: int) -> Seq<char> {
    if n >= 0 {
        spec_u64_dec(n as nat)
    } else {
        seq!['-'] + spec_u64_dec((-n) as nat)
    }
}

pub fn i64_to_string(n: i64) -> (s: String)
    ensures
        s@ == spec_i64_dec(n as int),
{
    if n >= 0 {
        u64_to_string(n as u64)
    } else {
        let mag: u64 = ((-(n as i128)) as u64);
        proof {
            reveal_strlit("-");
        }
        let mut s = String::from_str("-");
        s.append(u64_to_string(mag).as_str());
        proof {
            assert(s@ =~= spec_i64_dec(n as int));
        }
        s
    }
}

/// The elements of `parts` laid end to end with `sep` between neighbours.
pub open spec fn spec_join(parts: Seq<Seq<char>>, sep: Seq<char>) -> Seq<char>
    decreases parts.len(),
{
    if parts.len() == 0 {
        Seq::empty()
    } else if parts.len() == 1 {
        parts[0]
    } else {
        spec_join(parts.drop_last(), sep) + sep + parts.last()
    }
}

pub fn join_strings(parts: &Vec<String>, sep: &str) -> (r: String)
    ensures
        r@ == spec_join(parts@.map_values(|p: String| p@), sep@),
{
    let ghost views = parts@.map_values(|p: String| p@);
    let mut r = String::new();
    let mut i: usize = 0;
    while i < parts.len()
        invariant
            i <= parts.len(),
            views == parts@.map_values(|p: String| p@),
            r@ == spec_join(views.take(i as int), sep@),
        decreases parts.len() - i,
    {
        if i > 0 {
            r.append(sep);
        }
        r.append(parts[i].as_str());
        proof {
            assert(views.take(i + 1 as int).drop_last() =~= views.take(i as int));
            assert(r@ =~= spec_join(views.take(i + 1 as int), sep@));
        }
        i = i + 1;
    }
    proof {
        assert(views.take(parts.len() as int) =~= views);
    }
    r
}

pub open spec fn is_dec_digit(c: char) -> bool {
    '0' <= c && c <= '9'
}

pub open spec fn spec_digit_val(c: char) -> nat {
    (c as nat - '0' as nat) as nat
}

/// The value of a string of decimal digits, most significant digit first.
pub open spec fn spec_digits_val(s: Seq<char>) -> nat
    decreases s.len(),
{
    if s.len() == 0 {
        0
    } else {
        spec_digits_val(s.drop_last()) * 10 + spec_digit_val(s.last())
    }
}

pub open spec fn all_dec_digits(s: Seq<char>) -> bool {
    forall|i: int| 0 <= i < s.len() ==> is_dec_digit(#[trigger] s[i])
}

/// A digit string's value only grows as digits are appended.
pub proof fn lemma_digits_val_prefix(s: Seq<char>, t: Seq<char>)
    ensures
        spec_digits_val(s + t) >= spec_digits_val(s),
    decreases t.len(),
{
    if t.len() == 0 {
        assert(s + t =~= s);
    } else {
        lemma_digits_val_prefix(s, t.drop_last());
        assert((s + t).drop_last() =~= s + t.drop_last());
        assert(spec_digits_val(s + t) == spec_digits_val(s + t.drop_last()) * 10 + spec_digit_val(
            (s + t).last(),
        ));
    }
}

/// What `str::parse::<i64>` accepts: an optional sign, then one or more
/// decimal digits, denoting a value within the range of the type.
pub open spec fn spec_parse_i64(s: Seq<char>) -> Option<i64> {
    let signed = s.len() > 0 && (s[0] == '+' || s[0] == '-');
    let neg = s.len() > 0 && s[0] == '-';
    let digits = if signed { s.drop_first() } else { s };
    if digits.len() == 0 || !all_dec_digits(digits) {
        None
    } else {
        let v = spec_digits_val(digits) as int;
        if neg {
            if -v >= i64::MIN { Some((-v) as i64) } else { None }
        } else {
            if v <= i64::MAX { Some(v as i64) } else { None }
        }
    }
}

/// Parses a decimal integer as `str::parse::<i64>` would: `None` on any
/// malformed input and on overflow.
pub fn parse_i64(s: &str) -> (r: Option<i64>)
    ensures
        r == spec_parse_i64(s@),
{
    let len = s.unicode_len();
    if len == 0 {
        return None;
    }
    let first = s.get_char(0);
    let signed = first == '+' || first == '-';
    let neg = first == '-';
    let start: usize = if signed { 1 } else { 0 };
    let ghost digits = if signed { s@.drop_first() } else { s@ };
    if len == start {
        return None;
    }
    // 2^63, the magnitude of i64::MIN: the largest magnitude any i64 can carry.
    let bound: u64 = 9223372036854775808u64;
    let mut acc: u64 = 0;
    let mut i: usize = start;
    while i < len
        invariant
            start <= i <= len,
            len == s@.len(),
            len > 0,
            signed == (s@[0] == '+' || s@[0] == '-'),
            neg == (s@[0] == '-'),
            start == if signed { 1int } else { 0int },
            digits == if signed { s@.drop_first() } else { s@ },
            digits.len() == len - start,
            forall|j: int| 0 <= j < i - start ==> is_dec_digit(#[trigger] digits[j]),
            acc <= bound,
            acc == spec_digits_val(digits.take(i - start)),
            bound == 0x8000000000000000u64,
        decreases len - i,
    {
        let c = s.get_char(i);
        proof {
            assert(digits[i - start] == s@[i as int]);
        }
        if !(('0' <= c) && (c <= '9')) {
            proof {
                assert(!is_dec_digit(digits[i - start]));
            }
            return None;
        }
        let d: u64 = (c as u32 - '0' as u32) as u64;
        proof {
            assert(digits.take(i + 1 - start).drop_last() =~= digits.take(i - start));
            assert(spec_digits_val(digits.take(i + 1 - start)) == acc * 10 + d);
        }
        if acc > (bound - d) / 10 {
            // Every longer digit string is at least as large, so the value
            // cannot fit either way.
            proof {
                let grown = digits.take(i + 1 - start);
                lemma_digits_val_prefix(grown, digits.skip(i + 1 - start));
                assert(grown + digits.skip(i + 1 - start) =~= digits);
                assert(acc * 10 + d > bound) by (nonlinear_arith)
                    requires acc > (bound - d) / 10 && d < 10 && bound == 0x8000000000000000u64,
                ;
                assert(spec_digits_val(digits) > bound as nat);
            }
            return None;
        }
        proof {
            assert(acc * 10 + d <= bound) by (nonlinear_arith)
                requires acc <= (bound - d) / 10 && d < 10 && bound == 0x8000000000000000u64,
            ;
        }
        acc = acc * 10 + d;
        i = i + 1;
    }
    proof {
        assert(digits.take(len - start) =~= digits);
    }
    if neg {
        Some((-(acc as i128)) as i64)
    } else {
        if acc > 0x7fffffffffffffffu64 {
            None
        } else {
            Some(acc as i64)
        }
    }
}

/// What `str::parse::<bool>` accepts: exactly "true" or "false".
pub open spec fn spec_parse_bool(s: Seq<char>) -> Option<bool> {
    if s == "true"@ {
        Some(true)
    } else if s == "false"@ {
        Some(false)
    } else {
        None
    }
}

pub fn parse_bool(s: &str) -> (r: Option<bool>)
    ensures
        r == spec_parse_bool(s@),
{
    if str_eq(s, "true") {
        Some(true)
    } else if str_eq(s, "false") {
        Some(false)
    } else {
        None
    }
}

pub open spec fn lower_char(c: char) -> char {
    if c == 'I' { 'i' }
    else if c == 'N' { 'n' }
    else if c == 'F' { 'f' }
    else if c == 'T' { 't' }
    else if c == 'Y' { 'y' }
    else if c == 'A' { 'a' }
    else { c }
}

fn lower_char_exec(c: char) -> (r: char)
    ensures
        r == lower_char(c),
{
    match c {
        'I' => 'i',
        'N' => 'n',
        'F' => 'f',
        'T' => 't',
        'Y' => 'y',
        'A' => 'a',
        _ => c,
    }
}

/// Case-insensitive match of `s` against an already lower-case pattern,
/// folding only the letters the float keywords use.
pub open spec fn eq_keyword_ci(s: Seq<char>, pat: Seq<char>) -> bool {
    s.len() == pat.len() && forall|i: int| 0 <= i < s.len() ==> lower_char(#[trigger] s[i]) == pat[i]
}

fn range_eq_keyword_ci(s: &str, from: usize, pat: &str) -> (r: bool)
    requires
        from <= s@.len(),
    ensures
        r == eq_keyword_ci(s@.skip(from as int), pat@),
{
    let slen = s.unicode_len();
    let plen = pat.unicode_len();
    if slen - from != plen {
        return false;
    }
    let mut i: usize = 0;
    while i < plen
        invariant
            i <= plen,
            plen == pat@.len(),
            slen == s@.len(),
            from + plen <= slen,
            slen - from == plen,
            forall|j: int| 0 <= j < i ==> lower_char(#[trigger] s@.skip(from as int)[j]) == pat@[j],
        decreases plen - i,
    {
        let a = lower_char_exec(s.get_char(from + i));
        let b = pat.get_char(i);
        if a != b {
            proof {
                assert(s@.skip(from as int)[i as int] == s@[from + i]);
            }
            return false;
        }
        proof {
            assert(s@.skip(from as int)[i as int] == s@[from + i]);
        }
        i = i + 1;
    }
    true
}

pub open spec fn at_most_one_dot(s: Seq<char>) -> bool {
    forall|i: int, j: int|
        0 <= i < s.len() && 0 <= j < s.len() && #[trigger] s[i] == '.' && #[trigger] s[j] == '.'
            ==> i == j
}

/// The mantissa of a decimal float: digits with at most one point among them,
/// and at least one digit.
pub open spec fn is_float_mantissa(s: Seq<char>) -> bool {
    &&& s.len() > 0
    &&& forall|i: int| 0 <= i < s.len() ==> is_dec_digit(#[trigger] s[i]) || s[i] == '.'
    &&& at_most_one_dot(s)
    &&& exists|i: int| 0 <= i < s.len() && is_dec_digit(#[trigger] s[i])
}

/// An exponent: an optional sign, then one or more digits.
pub open spec fn is_float_exponent(s: Seq<char>) -> bool {
    let body = if s.len() > 0 && (s[0] == '+' || s[0] == '-') { s.drop_first() } else { s };
    body.len() > 0 && all_dec_digits(body)
}

pub open spec fn is_exp_marker(c: char) -> bool {
    c == 'e' || c == 'E'
}

/// The body of a float literal, after any leading sign: one of the keywords,
/// or a mantissa with an optional exponent.
pub open spec fn is_float_body(s: Seq<char>) -> bool {
    ||| eq_keyword_ci(s, "inf"@)
    ||| eq_keyword_ci(s, "infinity"@)
    ||| eq_keyword_ci(s, "nan"@)
    ||| is_float_mantissa(s)
    ||| exists|p: int|
        0 <= p < s.len() && is_exp_marker(#[trigger] s[p]) && is_float_mantissa(s.take(p))
            && is_float_exponent(s.skip(p + 1)) && (forall|j: int|
            0 <= j < p ==> !is_exp_marker(#[trigger] s[j]))
}

/// What `str::parse::<f64>` accepts: an optional sign, then `inf`, `infinity`
/// or `nan` in any letter case, or a decimal number with an optional
/// `e`-exponent.
pub open spec fn is_float_literal(s: Seq<char>) -> bool {
    let body = if s.len() > 0 && (s[0] == '+' || s[0] == '-') { s.drop_first() } else { s };
    is_float_body(body)
}

/// Whether the characters of `s` from `from` up to `to` form a mantissa.
fn range_is_mantissa(s: &str, from: usize, to: usize) -> (r: bool)
    requires
        from <= to <= s@.len(),
    ensures
        r == is_float_mantissa(s@.subrange(from as int, to as int)),
{
    let ghost part = s@.subrange(from as int, to as int);
    if to == from {
        return false;
    }
    let mut i: usize = from;
    let mut seen_digit = false;
    let mut dot_at: usize = 0;
    let mut seen_dot = false;
    while i < to
        invariant
            from <= i <= to <= s@.len(),
            part == s@.subrange(from as int, to as int),
            to > from,
            forall|j: int| 0 <= j < i - from ==> is_dec_digit(#[trigger] part[j]) || part[j] == '.',
            seen_digit == exists|j: int| 0 <= j < i - from && is_dec_digit(#[trigger] part[j]),
            seen_dot ==> from <= dot_at < i && part[dot_at - from] == '.',
            forall|j: int| 0 <= j < i - from && #[trigger] part[j] == '.' ==> seen_dot && j == dot_at - from,
        decreases to - i,
    {
        let c = s.get_char(i);
        proof {
            assert(part[i - from] == s@[i as int]);
        }
        if ('0' <= c) && (c <= '9') {
            seen_digit = true;
        } else if c == '.' {
            if seen_dot {
                proof {
                    assert(part[i - from] == '.' && part[dot_at - from] == '.' && i - from
                        != dot_at - from);
                    assert(!at_most_one_dot(part));
                }
                return false;
            }
            seen_dot = true;
            dot_at = i;
        } else {
            proof {
                assert(!(is_dec_digit(part[i - from]) || part[i - from] == '.'));
            }
            return false;
        }
        i = i + 1;
    }
    proof {
        assert(part.len() == to - from);
        if seen_digit {
            assert(at_most_one_dot(part)) by {
                assert(forall|x: int, y: int|
                    0 <= x < part.len() && 0 <= y < part.len() && #[trigger] part[x] == '.'
                        && #[trigger] part[y] == '.' ==> x == dot_at - from && y == dot_at - from);
            }
        }
    }
    seen_digit
}

/// Whether the characters of `s` from `from` to the end form an exponent.
fn range_is_exponent(s: &str, from: usize) -> (r: bool)
    requires
        from <= s@.len(),
    ensures
        r == is_float_exponent(s@.skip(from as int)),
{
    let ghost part = s@.skip(from as int);
    let len = s.unicode_len();
    if from == len {
        return false;
    }
    let c0 = s.get_char(from);
    proof {
        assert(part[0] == s@[from as int]);
    }
    let signed = c0 == '+' || c0 == '-';
    let start = if signed { from + 1 } else { from };
    let ghost body = if signed { part.drop_first() } else { part };
    if start == len {
        proof {
            assert(body.len() == 0);
        }
        return false;
    }
    let mut i: usize = start;
    while i < len
        invariant
            start <= i <= len,
            len == s@.len(),
            from <= start <= len,
            from < len,
            part == s@.skip(from as int),
            part.len() == len - from,
            signed == (part[0] == '+' || part[0] == '-'),
            body == if signed { part.drop_first() } else { part },
            start == if signed { from + 1int } else { from as int },
            body.len() == len - start,
            forall|j: int| 0 <= j < i - start ==> is_dec_digit(#[trigger] body[j]),
        decreases len - i,
    {
        let c = s.get_char(i);
        proof {
            assert(body[i - start] == s@[i as int]);
        }
        if !(('0' <= c) && (c <= '9')) {
            proof {
                assert(!is_dec_digit(body[i - start]));
            }
            return false;
        }
        i = i + 1;
    }
    true
}

/// Recognizes exactly the strings `str::parse::<f64>` accepts.
pub fn is_float_text(s: &str) -> (r: bool)
    ensures
        r == is_float_literal(s@),
{
    let len = s.unicode_len();
    if len == 0 {
        proof {
            reveal_strlit("inf");
            reveal_strlit("infinity");
            reveal_strlit("nan");
            assert(!is_float_body(s@));
        }
        return false;
    }
    let c0 = s.get_char(0);
    let signed = c0 == '+' || c0 == '-';
    let start: usize = if signed { 1 } else { 0 };
    let ghost body = if signed { s@.drop_first() } else { s@ };
    proof {
        assert(body =~= s@.skip(start as int));
    }
    if range_eq_keyword_ci(s, start, "inf") || range_eq_keyword_ci(s, start, "infinity")
        || range_eq_keyword_ci(s, start, "nan") {
        return true;
    }
    // Find the exponent marker, if any.
    let mut p: usize = start;
    let mut found = false;
    while p < len && !found
        invariant
            start <= p <= len,
            len == s@.len(),
            found ==> start <= p < len && is_exp_marker(s@[p as int]),
            forall|j: int| start <= j < p ==> !is_exp_marker(#[trigger] s@[j]),
            !found ==> forall|j: int| start <= j < p ==> !is_exp_marker(#[trigger] s@[j]),
        decreases len - p + (if found { 0int } else { 1int }),
    {
        let c = s.get_char(p);
        if c == 'e' || c == 'E' {
            found = true;
        } else {
            p = p + 1;
        }
    }
    let r = if found {
        range_is_mantissa(s, start, p) && range_is_exponent(s, p + 1)
    } else {
        range_is_mantissa(s, start, len)
    };
    proof {
        let bp = p - start;
        assert(body.len() == len - start);
        if found {
            assert(body[bp] == s@[p as int]);
            assert(body.take(bp) =~= s@.subrange(start as int, p as int));
            assert(body.skip(bp + 1) =~= s@.skip(p + 1));
            assert(forall|j: int| 0 <= j < bp ==> body[j] == s@[start + j]);
            if r {
                assert(is_float_body(body));
            } else {
                // No other marker position can satisfy the clause: the marker
                // at bp is the first one.
                assert forall|q: int|
                    0 <= q < body.len() && is_exp_marker(body[q]) && (forall|j: int|
                        0 <= j < q ==> !is_exp_marker(#[trigger] body[j])) implies q == bp by {
                    assert(forall|j: int| 0 <= j < bp ==> body[j] == s@[start + j]);
                    if q < bp {
                        assert(is_exp_marker(s@[start + q]));
                    }
                    if q > bp {
                        assert(!is_exp_marker(body[bp]));
                    }
                };
                assert(!is_float_mantissa(body)) by {
                    assert(body[bp] == s@[p as int]);
                    assert(!(is_dec_digit(body[bp]) || body[bp] == '.'));
                }
                assert(!eq_keyword_ci(body, "inf"@) && !eq_keyword_ci(body, "infinity"@)
                    && !eq_keyword_ci(body, "nan"@));
                assert(!is_float_body(body));
            }
        } else {
            assert(body =~= body.take(len - start));
            assert(forall|j: int| 0 <= j < body.len() ==> body[j] == s@[start + j]);
            assert(forall|j: int| 0 <= j < body.len() ==> !is_exp_marker(#[trigger] body[j]));
            assert(body.take(len - start as int) =~= s@.subrange(start as int, len as int));
            if r {
                assert(is_float_body(body));
            } else {
                assert(!is_float_body(body));
            }
        }
        assert(r == is_float_literal(s@));
    }
    r
}

} // verus!
