//! Numeric literals in manifest attributes: the decimal integers that
//! `usize::from_str` accepts and the float literals that `f32::from_str`
//! accepts, with the messages that std gives for the ones it refuses.

use vstd::prelude::*;

verus! {

/// The characters of a string, in order.
pub fn chars_of(s: &str) -> (v: Vec<char>)
    ensures
        v@ == s@,
{
    let n = s.unicode_len();
    let mut v: Vec<char> = Vec::new();
    let mut i: usize = 0;
    while i < n
        invariant
            n == s@.len(),
            i <= n,
            v@ == s@.subrange(0, i as int),
        decreases n - i,
    {
        v.push(s.get_char(i));
        i = i + 1;
        assert(v@ =~= s@.subrange(0, i as int));
    }
    assert(v@ =~= s@);
    v
}

pub open spec fn is_digit(c: char) -> bool {
    '0' <= c && c <= '9'
}

pub open spec fn digit_value(c: char) -> int {
    (c as int) - ('0' as int)
}

/// ASCII lower case of a character.
pub open spec fn ascii_lower(c: char) -> char {
    if 'A' <= c && c <= 'Z' {
        ((c as int) + 32) as char
    } else {
        c
    }
}

/// `s` spells `word` (given in lower case) in any mix of ASCII cases.
pub open spec fn spells(s: Seq<char>, word: Seq<char>) -> bool {
    s.len() == word.len() && forall|i: int| 0 <= i < s.len() ==> ascii_lower(#[trigger] s[i]) == word[i]
}

/// Number of digits at the start of `s`.
pub open spec fn leading_digits(s: Seq<char>) -> nat
    decreases s.len(),
{
    if s.len() > 0 && is_digit(s[0]) {
        1 + leading_digits(s.drop_first())
    } else {
        0
    }
}

pub open spec fn all_digits(s: Seq<char>) -> bool {
    forall|i: int| 0 <= i < s.len() ==> is_digit(#[trigger] s[i])
}

/// An exponent part: `e` or `E`, an optional sign, then at least one digit.
pub open spec fn is_exponent(s: Seq<char>) -> bool {
    &&& s.len() >= 2
    &&& (s[0] == 'e' || s[0] == 'E')
    &&& {
        let rest = if s[1] == '+' || s[1] == '-' {
            s.skip(2)
        } else {
            s.skip(1)
        };
        rest.len() > 0 && all_digits(rest)
    }
}

/// Digits, an optional point with more digits, at least one digit in all,
/// then an optional exponent.
pub open spec fn is_decimal(s: Seq<char>) -> bool {
    let int_digits = leading_digits(s);
    let after_int = s.skip(int_digits as int);
    let has_point = after_int.len() > 0 && after_int[0] == '.';
    let frac_digits = if has_point {
        leading_digits(after_int.skip(1))
    } else {
        0
    };
    let rest = if has_point {
        after_int.skip(1 + frac_digits as int)
    } else {
        after_int
    };
    int_digits + frac_digits >= 1 && (rest.len() == 0 || is_exponent(rest))
}

pub open spec fn is_unsigned_float(s: Seq<char>) -> bool {
    spells(s, seq!['i', 'n', 'f']) || spells(s, seq!['i', 'n', 'f', 'i', 'n', 'i', 't', 'y'])
        || spells(s, seq!['n', 'a', 'n']) || is_decimal(s)
}

/// The literals that `f32::from_str` accepts: an optional sign, then
/// `inf`, `infinity` or `nan` in any case, or a decimal number.
pub open spec fn is_float_literal(s: Seq<char>) -> bool {
    if s.len() > 0 && (s[0] == '+' || s[0] == '-') {
        is_unsigned_float(s.drop_first())
    } else {
        is_unsigned_float(s)
    }
}

/// Why std refuses a numeric literal.
pub enum LiteralError {
    Empty,
    InvalidDigit,
    Overflow,
    InvalidFloat,
}

impl LiteralError {
    /// The message std gives for this refusal.
    pub open spec fn message_spec(self) -> Seq<char> {
        match self {
            LiteralError::Empty => "cannot parse integer from empty string"@,
            LiteralError::InvalidDigit => "invalid digit found in string"@,
            LiteralError::Overflow => "number too large to fit in target type"@,
            LiteralError::InvalidFloat => "invalid float literal"@,
        }
    }

    pub fn message(&self) -> (m: String)
        ensures
            m@ == self.message_spec(),
    {
        match self {
            LiteralError::Empty => String::from_str("cannot parse integer from empty string"),
            LiteralError::InvalidDigit => String::from_str("invalid digit found in string"),
            LiteralError::Overflow => String::from_str("number too large to fit in target type"),
            LiteralError::InvalidFloat => String::from_str("invalid float literal"),
        }
    }
}

/// The message std gives when `s` is not a float literal.
pub open spec fn float_error_message(s: Seq<char>) -> Seq<char> {
    if s.len() == 0 {
        "cannot parse float from empty string"@
    } else {
        "invalid float literal"@
    }
}

/// Reads the digits left to right as `usize::from_str` does, starting from
/// the value `acc`: a non-digit or a value above `usize::MAX` ends the scan.
pub open spec fn scan_digits(d: Seq<char>, acc: int) -> Result<int, LiteralError>
    decreases d.len(),
{
    if d.len() == 0 {
        Ok(acc)
    } else if !is_digit(d[0]) {
        Err(LiteralError::InvalidDigit)
    } else if acc * 10 + digit_value(d[0]) > usize::MAX {
        Err(LiteralError::Overflow)
    } else {
        scan_digits(d.drop_first(), acc * 10 + digit_value(d[0]))
    }
}

/// What `usize::from_str` gives for `s`.
pub open spec fn parse_usize_spec(s: Seq<char>) -> Result<int, LiteralError> {
    if s.len() == 0 {
        Err(LiteralError::Empty)
    } else if s.len() == 1 && (s[0] == '+' || s[0] == '-') {
        Err(LiteralError::InvalidDigit)
    } else if s[0] == '+' {
        scan_digits(s.drop_first(), 0)
    } else {
        scan_digits(s, 0)
    }
}

proof fn lemma_leading_digits_step(s: Seq<char>, i: int)
    requires
        0 <= i < s.len(),
        is_digit(s[i]),
    ensures
        leading_digits(s.skip(i)) == 1 + leading_digits(s.skip(i + 1)),
{
    assert(s.skip(i).drop_first() =~= s.skip(i + 1));
}

proof fn lemma_leading_digits_bound(s: Seq<char>)
    ensures
        leading_digits(s) <= s.len(),
        forall|j: int| 0 <= j < leading_digits(s) ==> is_digit(#[trigger] s[j]),
        leading_digits(s) < s.len() ==> !is_digit(s[leading_digits(s) as int]),
    decreases s.len(),
{
    if s.len() > 0 && is_digit(s[0]) {
        lemma_leading_digits_bound(s.drop_first());
        assert forall|j: int| 0 <= j < leading_digits(s) implies is_digit(#[trigger] s[j]) by {
            if j > 0 {
                assert(s[j] == s.drop_first()[j - 1]);
            }
        }
        if leading_digits(s) < s.len() {
            assert(s[leading_digits(s) as int] == s.drop_first()[leading_digits(s.drop_first()) as int]);
        }
    }
}

/// Number of digits in `v` from position `from`.
fn count_digits(v: &Vec<char>, from: usize) -> (n: usize)
    requires
        from <= v.len(),
    ensures
        n == leading_digits(v@.skip(from as int)),
        from + n <= v.len(),
{
    let mut i = from;
    while i < v.len() && '0' <= v[i] && v[i] <= '9'
        invariant
            from <= i <= v.len(),
            leading_digits(v@.skip(from as int)) == (i - from) + leading_digits(v@.skip(i as int)),
        decreases v.len() - i,
    {
        proof {
            lemma_leading_digits_step(v@, i as int);
        }
        i = i + 1;
    }
    proof {
        if i < v.len() {
            assert(v@.skip(i as int)[0] == v@[i as int]);
        } else {
            assert(v@.skip(i as int).len() == 0);
        }
    }
    i - from
}

/// Whether every character of `v` from `from` on is a digit.
fn digits_to_end(v: &Vec<char>, from: usize) -> (b: bool)
    requires
        from <= v.len(),
    ensures
        b == all_digits(v@.skip(from as int)),
{
    let n = count_digits(v, from);
    proof {
        lemma_leading_digits_bound(v@.skip(from as int));
    }
    if from + n == v.len() {
        assert forall|j: int| 0 <= j < v@.skip(from as int).len() implies is_digit(
            #[trigger] v@.skip(from as int)[j],
        ) by {}
        true
    } else {
        assert(!is_digit(v@.skip(from as int)[n as int]));
        false
    }
}

fn is_exponent_at(v: &Vec<char>, from: usize) -> (b: bool)
    requires
        from <= v.len(),
    ensures
        b == is_exponent(v@.skip(from as int)),
{
    let ghost s = v@.skip(from as int);
    if v.len() - from < 2 {
        return false;
    }
    if !(v[from] == 'e' || v[from] == 'E') {
        return false;
    }
    let start = if v[from + 1] == '+' || v[from + 1] == '-' {
        from + 2
    } else {
        from + 1
    };
    assert(s.skip(2) =~= v@.skip(from + 2));
    assert(s.skip(1) =~= v@.skip(from + 1));
    start < v.len() && digits_to_end(v, start)
}

/// Whether `v` from `from` on spells the lower-case `word` in any case.
fn spells_at(v: &Vec<char>, from: usize, word: &Vec<char>) -> (b: bool)
    requires
        from <= v.len(),
    ensures
        b == spells(v@.skip(from as int), word@),
{
    let ghost s = v@.skip(from as int);
    if v.len() - from != word.len() {
        return false;
    }
    let mut i: usize = 0;
    while i < word.len()
        invariant
            s == v@.skip(from as int),
            from <= v.len(),
            v.len() - from == word.len(),
            s.len() == word.len(),
            i <= word.len(),
            forall|j: int| 0 <= j < i ==> ascii_lower(#[trigger] s[j]) == word@[j],
        decreases word.len() - i,
    {
        let c = v[from + i];
        let lower = if 'A' <= c && c <= 'Z' {
            ((c as u32) + 32) as u8 as char
        } else {
            c
        };
        assert(s[i as int] == c);
        assert(lower == ascii_lower(c)) by {
            if 'A' <= c && c <= 'Z' {
                assert((c as u32) + 32 < 128);
            }
        }
        if lower != word[i] {
            return false;
        }
        i = i + 1;
    }
    true
}

fn is_decimal_at(v: &Vec<char>, from: usize) -> (b: bool)
    requires
        from <= v.len(),
    ensures
        b == is_decimal(v@.skip(from as int)),
{
    let ghost s = v@.skip(from as int);
    let int_digits = count_digits(v, from);
    let after = from + int_digits;
    assert(s.skip(int_digits as int) =~= v@.skip(after as int));
    let has_point = after < v.len() && v[after] == '.';
    let mut frac_digits: usize = 0;
    let mut rest = after;
    if has_point {
        frac_digits = count_digits(v, after + 1);
        rest = after + 1 + frac_digits;
        assert(v@.skip(after as int).skip(1) =~= v@.skip(after + 1));
        assert(v@.skip(after as int).skip(1 + frac_digits) =~= v@.skip(rest as int));
    }
    if int_digits + frac_digits < 1 {
        return false;
    }
    rest == v.len() || is_exponent_at(v, rest)
}

/// Whether `s` is a literal that `f32::from_str` accepts.
pub fn is_float_literal_exec(s: &str) -> (b: bool)
    ensures
        b == is_float_literal(s@),
{
    let v = chars_of(s);
    let from: usize = if v.len() > 0 && (v[0] == '+' || v[0] == '-') {
        1
    } else {
        0
    };
    assert(v@.skip(0) =~= v@);
    assert(v@.skip(1) =~= v@.drop_first());
    let inf = vec!['i', 'n', 'f'];
    let infinity = vec!['i', 'n', 'f', 'i', 'n', 'i', 't', 'y'];
    let nan = vec!['n', 'a', 'n'];
    assert(inf@ =~= seq!['i', 'n', 'f']);
    assert(infinity@ =~= seq!['i', 'n', 'f', 'i', 'n', 'i', 't', 'y']);
    assert(nan@ =~= seq!['n', 'a', 'n']);
    spells_at(&v, from, &inf) || spells_at(&v, from, &infinity) || spells_at(&v, from, &nan)
        || is_decimal_at(&v, from)
}

/// Checks a float literal the way `f32::from_str` does, with its message
/// on refusal.
pub fn check_float_literal(s: &str) -> (r: Result<(), String>)
    ensures
        r is Ok <==> is_float_literal(s@),
        r matches Err(m) ==> m@ == float_error_message(s@),
{
    if is_float_literal_exec(s) {
        Ok(())
    } else if s.unicode_len() == 0 {
        Err(String::from_str("cannot parse float from empty string"))
    } else {
        Err(String::from_str("invalid float literal"))
    }
}

/// Parses a decimal `usize` as `usize::from_str` does.
pub fn parse_usize(s: &str) -> (r: Result<usize, LiteralError>)
    ensures
        match r {
            Ok(n) => parse_usize_spec(s@) == Ok::<int, LiteralError>(n as int),
            Err(e) => parse_usize_spec(s@) == Err::<int, LiteralError>(e),
        },
{
    parse_usize_chars(&chars_of(s))
}

/// Parses the characters of a decimal `usize` as `usize::from_str` does.
pub fn parse_usize_chars(v: &Vec<char>) -> (r: Result<usize, LiteralError>)
    ensures
        match r {
            Ok(n) => parse_usize_spec(v@) == Ok::<int, LiteralError>(n as int),
            Err(e) => parse_usize_spec(v@) == Err::<int, LiteralError>(e),
        },
{
    if v.len() == 0 {
        return Err(LiteralError::Empty);
    }
    if v.len() == 1 && (v[0] == '+' || v[0] == '-') {
        return Err(LiteralError::InvalidDigit);
    }
    let start: usize = if v[0] == '+' {
        1
    } else {
        0
    };
    let ghost d = v@.skip(start as int);
    assert(v@.skip(1) =~= v@.drop_first());
    assert(v@.skip(0) =~= v@);
    let mut acc: usize = 0;
    let mut i = start;
    while i < v.len()
        invariant
            start <= i <= v.len(),
            d == v@.skip(start as int),
            parse_usize_spec(v@) == scan_digits(d, 0),
            scan_digits(d, 0) == scan_digits(v@.skip(i as int), acc as int),
        decreases v.len() - i,
    {
        let c = v[i];
        let ghost rest = v@.skip(i as int);
        assert(rest[0] == c);
        assert(rest.drop_first() =~= v@.skip(i + 1));
        if !('0' <= c && c <= '9') {
            return Err(LiteralError::InvalidDigit);
        }
        let digit = (c as u32 - '0' as u32) as usize;
        assert(digit as int == digit_value(c));
        if acc > (usize::MAX - digit) / 10 {
            assert(acc * 10 + digit > usize::MAX) by (nonlinear_arith)
                requires
                    acc > (usize::MAX - digit) / 10,
                    digit <= 9,
            ;
            return Err(LiteralError::Overflow);
        }
        assert(acc * 10 + digit <= usize::MAX) by (nonlinear_arith)
            requires
                acc <= (usize::MAX - digit) / 10,
                digit <= 9,
        ;
        acc = acc * 10 + digit;
        i = i + 1;
    }
    assert(v@.skip(i as int).len() == 0);
    Ok(acc)
}

/// The character of a decimal digit.
pub open spec fn digit_char(d: nat) -> char {
    ((48 + d) as int) as char
}

/// The decimal text of a number, as `Display` writes it.
pub open spec fn decimal(n: nat) -> Seq<char>
    decreases n,
{
    if n < 10 {
        seq![digit_char(n)]
    } else {
        decimal(n / 10).push(digit_char(n % 10))
    }
}

fn digit_str(d: usize) -> (r: &'static str)
    requires
        d < 10,
    ensures
        r@ == seq![digit_char(d as nat)],
{
    proof {
        reveal_strlit("0");
        reveal_strlit("1");
        reveal_strlit("2");
        reveal_strlit("3");
        reveal_strlit("4");
        reveal_strlit("5");
        reveal_strlit("6");
        reveal_strlit("7");
        reveal_strlit("8");
        reveal_strlit("9");
    }
    match d {
        0 => "0",
        1 => "1",
        2 => "2",
        3 => "3",
        4 => "4",
        5 => "5",
        6 => "6",
        7 => "7",
        8 => "8",
        _ => "9",
    }
}

/// Writes the decimal text of `n`.
pub fn write_decimal(out: &mut String, n: usize)
    ensures
        final(out)@ == old(out)@ + decimal(n as nat),
    decreases n,
{
    if n >= 10 {
        write_decimal(out, n / 10);
    }
    out.append(digit_str(n % 10));
    proof {
        if n >= 10 {
            assert(old(out)@ + decimal((n / 10) as nat) + seq![digit_char((n % 10) as nat)] =~= old(out)@ + decimal(n as nat));
        } else {
            assert(decimal(n as nat) == seq![digit_char(n as nat)]);
        }
    }
}

proof fn lemma_digit_char(d: nat)
    requires
        d < 10,
    ensures
        is_digit(digit_char(d)),
        digit_value(digit_char(d)) == d,
{
    assert((48 + d) as int as char as int == 48 + d);
}

proof fn lemma_scan_push(s: Seq<char>, c: char, acc: int)
    requires
        0 <= acc,
    ensures
        scan_digits(s.push(c), acc) == (match scan_digits(s, acc) {
            Ok(v) => if !is_digit(c) {
                Err(LiteralError::InvalidDigit)
            } else if v * 10 + digit_value(c) > usize::MAX {
                Err(LiteralError::Overflow)
            } else {
                Ok(v * 10 + digit_value(c))
            },
            Err(e) => Err(e),
        }),
    decreases s.len(),
{
    reveal_with_fuel(scan_digits, 2);
    if s.len() == 0 {
        assert(s.push(c).drop_first() =~= Seq::<char>::empty());
    } else {
        assert(s.push(c).drop_first() =~= s.drop_first().push(c));
        assert(s.push(c)[0] == s[0]);
        if is_digit(s[0]) && acc * 10 + digit_value(s[0]) <= usize::MAX {
            lemma_scan_push(s.drop_first(), c, acc * 10 + digit_value(s[0]));
        }
    }
}

proof fn lemma_scan_decimal(n: nat)
    requires
        n <= usize::MAX,
    ensures
        scan_digits(decimal(n), 0) == Ok::<int, LiteralError>(n as int),
        decimal(n).len() > 0,
        is_digit(decimal(n)[0]),
    decreases n,
{
    if n < 10 {
        reveal_with_fuel(scan_digits, 2);
        lemma_digit_char(n);
        assert(decimal(n).drop_first() =~= Seq::<char>::empty());
    } else {
        lemma_scan_decimal(n / 10);
        lemma_digit_char(n % 10);
        lemma_scan_push(decimal(n / 10), digit_char(n % 10), 0);
        assert(decimal(n)[0] == decimal(n / 10)[0]);
    }
}

/// What the library writes as a decimal number, `usize::from_str` reads
/// back as the same number: a `Content-Length` the server writes is the
/// one it reads.
pub proof fn law_decimal_parses_back(n: nat)
    requires
        n <= usize::MAX,
    ensures
        parse_usize_spec(decimal(n)) == Ok::<int, LiteralError>(n as int),
{
    lemma_scan_decimal(n);
    if decimal(n).len() == 1 {
        assert(decimal(n)[0] != '+' && decimal(n)[0] != '-');
    }
}

} // verus!
