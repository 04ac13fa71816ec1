//! Text helpers: what strings mean in contracts, and the few operations of
//! the standard library on strings that the rest of the crate relies on.
use vstd::prelude::*;
use vstd::string::{StrSliceExecFns, StringExecFns};

verus! {

/// The decimal digit for a value below ten.
pub open spec fn digit_char(d: nat) -> char {
    if d == 0 {
        '0'
    } else if d == 1 {
        '1'
    } else if d == 2 {
        '2'
    } else if d == 3 {
        '3'
    } else if d == 4 {
        '4'
    } else if d == 5 {
        '5'
    } else if d == 6 {
        '6'
    } else if d == 7 {
        '7'
    } else if d == 8 {
        '8'
    } else {
        '9'
    }
}

/// The decimal numeral of `n`: no sign, no leading zero, `0` for zero.
pub open spec fn decimal(n: nat) -> Seq<char>
    decreases n,
{
    if n < 10 {
        seq![digit_char(n)]
    } else {
        decimal(n / 10).push(digit_char(n % 10))
    }
}

/// Whether `c` is one of the ten decimal digits.
pub open spec fn is_digit(c: char) -> bool {
    c == '0' || c == '1' || c == '2' || c == '3' || c == '4' || c == '5' || c == '6' || c == '7'
        || c == '8' || c == '9'
}

/// The value of a decimal digit.
pub open spec fn digit_value(c: char) -> int {
    if c == '1' {
        1
    } else if c == '2' {
        2
    } else if c == '3' {
        3
    } else if c == '4' {
        4
    } else if c == '5' {
        5
    } else if c == '6' {
        6
    } else if c == '7' {
        7
    } else if c == '8' {
        8
    } else if c == '9' {
        9
    } else {
        0
    }
}

/// Whether every character of `s` is a decimal digit.
pub open spec fn all_digits(s: Seq<char>) -> bool {
    forall|i: int| 0 <= i < s.len() ==> is_digit(#[trigger] s[i])
}

/// The number that a run of decimal digits denotes.
pub open spec fn digits_value(s: Seq<char>) -> int
    decreases s.len(),
{
    if s.len() == 0 {
        0
    } else {
        digits_value(s.drop_last()) * 10 + digit_value(s.last())
    }
}

/// The integer that `s` denotes as an optional sign followed by one or more
/// decimal digits; `None` for any other text.
pub open spec fn signed_decimal(s: Seq<char>) -> Option<int> {
    if s.len() == 0 {
        None
    } else if s[0] == '-' || s[0] == '+' {
        let digits = s.drop_first();
        if digits.len() > 0 && all_digits(digits) {
            Some(
                if s[0] == '-' {
                    -digits_value(digits)
                } else {
                    digits_value(digits)
                },
            )
        } else {
            None
        }
    } else if all_digits(s) {
        Some(digits_value(s))
    } else {
        None
    }
}

/// The 64-bit signed integer that `s` denotes, if it denotes one that fits.
pub open spec fn parsed_i64(s: Seq<char>) -> Option<i64> {
    match signed_decimal(s) {
        Some(v) => if i64::MIN <= v <= i64::MAX {
            Some(v as i64)
        } else {
            None
        },
        None => None,
    }
}

/// `s` without its longest prefix made of `c` only.
pub open spec fn trim_start(s: Seq<char>, c: char) -> Seq<char>
    decreases s.len(),
{
    if s.len() > 0 && s[0] == c {
        trim_start(s.drop_first(), c)
    } else {
        s
    }
}

/// `s` without its longest suffix made of `c` only.
pub open spec fn trim_end(s: Seq<char>, c: char) -> Seq<char>
    decreases s.len(),
{
    if s.len() > 0 && s.last() == c {
        trim_end(s.drop_last(), c)
    } else {
        s
    }
}

/// `s` with every leading and every trailing `c` removed.
pub open spec fn trimmed(s: Seq<char>, c: char) -> Seq<char> {
    trim_end(trim_start(s, c), c)
}

/// Whether `a` sorts strictly before `b`: at the first place where they
/// differ `a` has the smaller character, or `a` is a proper prefix of `b`.
pub open spec fn lex_lt(a: Seq<char>, b: Seq<char>) -> bool
    decreases a.len(),
{
    if b.len() == 0 {
        false
    } else if a.len() == 0 {
        true
    } else if a[0] != b[0] {
        a[0] < b[0]
    } else {
        lex_lt(a.drop_first(), b.drop_first())
    }
}

/// The characters of a string, one by one.
pub fn chars_of(s: &str) -> (r: Vec<char>)
    ensures
        r@ == s@,
{
    let mut out: Vec<char> = Vec::new();
    for c in it: s.chars()
        invariant
            out@.len() == it.index(),
            it.seq() == s@,
            forall|j: int| 0 <= j < out@.len() ==> out@[j] == it.seq()[j],
    {
        out.push(c);
    }
    assert(out@ =~= s@);
    out
}

/// Whether two strings hold the same characters.
pub fn str_eq(a: &str, b: &str) -> (r: bool)
    ensures
        r == (a@ == b@),
{
    let x = chars_of(a);
    chars_eq(&x, b)
}

/// Whether `b` holds the characters `x`.
pub fn chars_eq(x: &Vec<char>, b: &str) -> (r: bool)
    ensures
        r == (x@ == b@),
{
    let y = chars_of(b);
    if x.len() != y.len() {
        return false;
    }
    let n = x.len();
    let mut i: usize = 0;
    while i < n
        invariant
            i <= n,
            n == x@.len(),
            n == y@.len(),
            y@ == b@,
            forall|k: int| 0 <= k < i ==> x@[k] == y@[k],
        decreases n - i,
    {
        if x[i] != y[i] {
            assert(x@[i as int] != y@[i as int]);
            return false;
        }
        i += 1;
    }
    assert(x@ =~= y@);
    true
}

/// Whether `a` sorts strictly before `b`.
pub fn str_lt(a: &str, b: &str) -> (r: bool)
    ensures
        r == lex_lt(a@, b@),
{
    let x = chars_of(a);
    let y = chars_of(b);
    let mut i: usize = 0;
    proof {
        assert(x@.skip(0) =~= x@);
        assert(y@.skip(0) =~= y@);
    }
    while i < x.len() && i < y.len()
        invariant
            i <= x@.len(),
            i <= y@.len(),
            x@ == a@,
            y@ == b@,
            lex_lt(x@, y@) == lex_lt(x@.skip(i as int), y@.skip(i as int)),
        decreases x@.len() - i,
    {
        if x[i] != y[i] {
            proof {
                assert(x@.skip(i as int)[0] == x@[i as int]);
                assert(y@.skip(i as int)[0] == y@[i as int]);
            }
            return x[i] < y[i];
        }
        proof {
            assert(x@.skip(i as int).drop_first() =~= x@.skip(i + 1));
            assert(y@.skip(i as int).drop_first() =~= y@.skip(i + 1));
        }
        i += 1;
    }
    i < y.len()
}

/// The value of a decimal digit, if `c` is one.
pub fn digit_of(c: char) -> (r: Option<u8>)
    ensures
        match r {
            Some(d) => is_digit(c) && d == digit_value(c) && d < 10,
            None => !is_digit(c),
        },
{
    if c == '0' {
        Some(0)
    } else if c == '1' {
        Some(1)
    } else if c == '2' {
        Some(2)
    } else if c == '3' {
        Some(3)
    } else if c == '4' {
        Some(4)
    } else if c == '5' {
        Some(5)
    } else if c == '6' {
        Some(6)
    } else if c == '7' {
        Some(7)
    } else if c == '8' {
        Some(8)
    } else if c == '9' {
        Some(9)
    } else {
        None
    }
}

/// A run of digits denotes no less than any of its beginnings.
pub proof fn lemma_digits_grow(s: Seq<char>, k: int)
    requires
        0 <= k <= s.len(),
    ensures
        0 <= digits_value(s.take(k)) <= digits_value(s),
    decreases s.len() - k,
{
    lemma_digits_nonnegative(s.take(k));
    if k == s.len() {
        assert(s.take(k) =~= s);
    } else {
        lemma_digits_grow(s, k + 1);
        let next = s.take(k + 1);
        assert(next.drop_last() =~= s.take(k));
    }
}

pub proof fn lemma_digits_nonnegative(s: Seq<char>)
    ensures
        digits_value(s) >= 0,
    decreases s.len(),
{
    if s.len() > 0 {
        lemma_digits_nonnegative(s.drop_last());
    }
}

/// The number that the digits `chars[from..]` denote, if they are digits, at
/// least one, and denote no more than `limit`.
#[verifier::rlimit(40)]
pub fn digits_upto(chars: &Vec<char>, from: usize, limit: u64) -> (r: Option<u64>)
    requires
        from <= chars@.len(),
    ensures
        match r {
            Some(v) => chars@.len() > from && all_digits(chars@.skip(from as int)) && v
                == digits_value(chars@.skip(from as int)) && v <= limit,
            None => chars@.len() == from || !all_digits(chars@.skip(from as int)) || digits_value(
                chars@.skip(from as int),
            ) > limit,
        },
{
    let n = chars.len();
    if from == n {
        return None;
    }
    let ghost digits = chars@.skip(from as int);
    let mut acc: u64 = 0;
    let mut i: usize = from;
    proof {
        assert(digits.take(0) =~= Seq::<char>::empty());
    }
    while i < n
        invariant
            from <= i <= n,
            n == chars@.len(),
            digits == chars@.skip(from as int),
            all_digits(digits.take(i - from)),
            acc == digits_value(digits.take(i - from)),
            acc <= limit,
        decreases n - i,
    {
        let ghost seen = digits.take(i - from);
        let ghost next = digits.take(i - from + 1);
        proof {
            assert(next.drop_last() =~= seen);
            assert(next.last() == chars@[i as int]);
        }
        let d = match digit_of(chars[i]) {
            Some(d) => d,
            None => {
                proof {
                    assert(digits[i - from] == chars@[i as int]);
                }
                return None;
            },
        };
        proof {
            assert forall|k: int| 0 <= k < next.len() implies is_digit(#[trigger] next[k]) by {
                if k < seen.len() {
                    assert(next[k] == seen[k]);
                }
            }
        }
        if limit < d as u64 || acc > (limit - d as u64) / 10 {
            proof {
                assert(digits_value(next) > limit);
                lemma_digits_grow(digits, i - from + 1);
            }
            return None;
        }
        acc = acc * 10 + d as u64;
        i += 1;
    }
    proof {
        assert(digits.take(n - from) =~= digits);
    }
    Some(acc)
}

/// Parses a decimal integer: an optional sign and at least one digit,
/// nothing else. Text that is not of that form, or whose value does not fit
/// 64 bits, gives `None`.
pub fn parse_i64(s: &str) -> (r: Option<i64>)
    ensures
        r == parsed_i64(s@),
{
    let chars = chars_of(s);
    if chars.len() == 0 {
        return None;
    }
    let first = chars[0];
    proof {
        assert(chars@.skip(1) =~= chars@.drop_first());
        assert(chars@.skip(0) =~= chars@);
        lemma_digits_nonnegative(chars@.drop_first());
        lemma_digits_nonnegative(chars@);
    }
    if first == '-' {
        match digits_upto(&chars, 1, 9223372036854775808u64) {
            Some(v) => {
                if v == 9223372036854775808u64 {
                    Some(i64::MIN)
                } else {
                    Some(-(v as i64))
                }
            },
            None => None,
        }
    } else if first == '+' {
        match digits_upto(&chars, 1, 9223372036854775807u64) {
            Some(v) => Some(v as i64),
            None => None,
        }
    } else {
        match digits_upto(&chars, 0, 9223372036854775807u64) {
            Some(v) => Some(v as i64),
            None => None,
        }
    }
}

/// The number that `s` denotes as an optional plus sign followed by one or
/// more decimal digits, if it fits a machine word.
pub open spec fn parsed_usize(s: Seq<char>) -> Option<usize> {
    if s.len() == 0 || s[0] == '-' {
        None
    } else {
        match signed_decimal(s) {
            Some(v) => if 0 <= v <= usize::MAX {
                Some(v as usize)
            } else {
                None
            },
            None => None,
        }
    }
}

/// Parses an unsigned decimal integer: an optional plus sign and at least
/// one digit, nothing else. Text that is not of that form, or whose value
/// does not fit a machine word, gives `None`.
pub fn parse_usize(s: &str) -> (r: Option<usize>)
    ensures
        r == parsed_usize(s@),
{
    let chars = chars_of(s);
    if chars.len() == 0 {
        return None;
    }
    let first = chars[0];
    proof {
        assert(chars@.skip(1) =~= chars@.drop_first());
        assert(chars@.skip(0) =~= chars@);
        lemma_digits_nonnegative(chars@.drop_first());
        lemma_digits_nonnegative(chars@);
    }
    if first == '-' {
        None
    } else if first == '+' {
        match digits_upto(&chars, 1, usize::MAX as u64) {
            Some(v) => Some(v as usize),
            None => None,
        }
    } else {
        match digits_upto(&chars, 0, usize::MAX as u64) {
            Some(v) => Some(v as usize),
            None => None,
        }
    }
}

/// The digit for a value below ten, as a string.
pub fn digit_str(d: u8) -> (r: &'static str)
    requires
        d < 10,
    ensures
        r@ == seq![digit_char(d as nat)],
{
    proof {
        reveal_strlit("0");
        reveal_strlit("1");
        reveal_strlit("2");
        reveal_strlit("3");
        reveal_strlit("4");
        reveal_strlit("5");
        reveal_strlit("6");
        reveal_strlit("7");
        reveal_strlit("8");
        reveal_strlit("9");
    }
    let r = if d == 0 {
        "0"
    } else if d == 1 {
        "1"
    } else if d == 2 {
        "2"
    } else if d == 3 {
        "3"
    } else if d == 4 {
        "4"
    } else if d == 5 {
        "5"
    } else if d == 6 {
        "6"
    } else if d == 7 {
        "7"
    } else if d == 8 {
        "8"
    } else {
        "9"
    };
    assert(r@ =~= seq![digit_char(d as nat)]);
    r
}

/// The digits `ds`, the last of them first.
pub open spec fn digits_text(ds: Seq<u8>) -> Seq<char> {
    Seq::new(ds.len(), |i: int| digit_char(ds[ds.len() - 1 - i] as nat))
}

/// Writes an unsigned integer as its decimal numeral.
#[verifier::rlimit(40)]
pub fn usize_to_string(n: usize) -> (r: String)
    ensures
        r@ == decimal(n as nat),
{
    let mut digits: Vec<u8> = Vec::new();
    let mut m: usize = n;
    proof {
        assert(decimal(m as nat) + digits_text(digits@) =~= decimal(n as nat));
    }
    while m >= 10
        invariant
            decimal(n as nat) == decimal(m as nat) + digits_text(digits@),
            forall|k: int| 0 <= k < digits@.len() ==> digits@[k] < 10,
        decreases m,
    {
        let d = (m % 10) as u8;
        proof {
            let after = digits@.push(d);
            assert(digits_text(after) =~= seq![digit_char(d as nat)] + digits_text(digits@));
            assert(decimal(m as nat) == decimal((m / 10) as nat).push(digit_char((m % 10) as nat)));
            assert(decimal((m / 10) as nat).push(digit_char(d as nat)) + digits_text(digits@)
                =~= decimal((m / 10) as nat) + digits_text(after));
        }
        digits.push(d);
        m = m / 10;
    }
    proof {
        let d = m as u8;
        let after = digits@.push(d);
        assert(digits_text(after) =~= seq![digit_char(d as nat)] + digits_text(digits@));
        assert(decimal(m as nat) =~= seq![digit_char(m as nat)]);
    }
    digits.push(m as u8);
    let mut out = String::new();
    let count = digits.len();
    let mut k: usize = count;
    proof {
        assert(digits_text(digits@).take(0) =~= out@);
    }
    while k > 0
        invariant
            k <= count,
            count == digits@.len(),
            forall|j: int| 0 <= j < digits@.len() ==> digits@[j] < 10,
            out@ == digits_text(digits@).take(count - k),
        decreases k,
    {
        k -= 1;
        let ghost before = out@;
        out.append(digit_str(digits[k]));
        proof {
            let all = digits_text(digits@);
            assert(all[count - 1 - k] == digit_char(digits@[k as int] as nat));
            assert(all.take(count - k) =~= before + seq![digit_char(digits@[k as int] as nat)]);
        }
    }
    proof {
        assert(digits_text(digits@).take(count as int) =~= digits_text(digits@));
    }
    out
}

/// The text `line <line>, column <column>`.
pub open spec fn position_text(line: usize, column: usize) -> Seq<char> {
    "line "@ + decimal(line as nat) + ", column "@ + decimal(column as nat)
}

/// Writes a position as `line <line>, column <column>`.
pub fn position_to_text(line: usize, column: usize) -> (r: String)
    ensures
        r@ == position_text(line, column),
{
    let mut out = String::from_str("line ");
    let l = usize_to_string(line);
    out.append(l.as_str());
    out.append(", column ");
    let c = usize_to_string(column);
    out.append(c.as_str());
    out
}

/// What follows the headline of an error report: ` at <position>` where
/// there is a position, then a new line and `Source: <source>` where there is
/// a source.
pub open spec fn report_tail(position: Option<Seq<char>>, source: Option<Seq<char>>) -> Seq<char> {
    (match position {
        Some(p) => " at "@ + p,
        None => Seq::empty(),
    }) + (match source {
        Some(s) => "\nSource: "@ + s,
        None => Seq::empty(),
    })
}

/// Appends to `out` what follows the headline of an error report.
pub fn append_report_tail(out: &mut String, position: Option<&str>, source: Option<&str>)
    ensures
        final(out)@ == old(out)@ + report_tail(
            match position {
                Some(p) => Some(p@),
                None => None,
            },
            match source {
                Some(s) => Some(s@),
                None => None,
            },
        ),
{
    let ghost before = out@;
    match position {
        Some(p) => {
            out.append(" at ");
            out.append(p);
            assert(out@ =~= before + (" at "@ + p@));
        },
        None => {
            assert(out@ =~= before + Seq::<char>::empty());
        },
    }
    let ghost middle = out@;
    match source {
        Some(s) => {
            out.append("\nSource: ");
            out.append(s);
            assert(out@ =~= middle + ("\nSource: "@ + s@));
        },
        None => {
            assert(out@ =~= middle + Seq::<char>::empty());
        },
    }
    proof {
        let p = match position {
            Some(p) => Some(p@),
            None => None,
        };
        let s = match source {
            Some(s) => Some(s@),
            None => None,
        };
        assert(out@ =~= before + report_tail(p, s));
    }
}

// ---------------------------------------------------------------------------
// Searching and trimming, character by character
// ---------------------------------------------------------------------------

/// Whether `pat` stands in `hay` at position `i`.
pub open spec fn occurs_at(hay: Seq<char>, pat: Seq<char>, i: int) -> bool {
    0 <= i && i + pat.len() <= hay.len() && hay.subrange(i, i + pat.len()) == pat
}

/// The first position at or after `from` at which `pat` stands in `hay`.
pub open spec fn first_match(hay: Seq<char>, pat: Seq<char>, from: int) -> Option<int>
    decreases hay.len() - from,
{
    if from < 0 || from + pat.len() > hay.len() {
        None
    } else if occurs_at(hay, pat, from) {
        Some(from)
    } else if from >= hay.len() {
        None
    } else {
        first_match(hay, pat, from + 1)
    }
}

/// Whether `pat` stands somewhere in `hay`.
pub open spec fn contains_text(hay: Seq<char>, pat: Seq<char>) -> bool {
    first_match(hay, pat, 0) is Some
}

/// Whether `hay` begins with `pat`.
pub open spec fn has_prefix(hay: Seq<char>, pat: Seq<char>) -> bool {
    occurs_at(hay, pat, 0)
}

/// Whether `hay` ends with `pat`.
pub open spec fn has_suffix(hay: Seq<char>, pat: Seq<char>) -> bool {
    occurs_at(hay, pat, hay.len() - pat.len())
}

/// The last position before `upto` at which `hay` holds `c`.
pub open spec fn last_index_of(hay: Seq<char>, c: char, upto: int) -> Option<int>
    decreases upto,
{
    if upto <= 0 || upto > hay.len() {
        None
    } else if hay[upto - 1] == c {
        Some(upto - 1)
    } else {
        last_index_of(hay, c, upto - 1)
    }
}

/// Whether `pat` stands in `hay` at position `i`.
pub fn matches_at(hay: &Vec<char>, pat: &Vec<char>, i: usize) -> (r: bool)
    ensures
        r == occurs_at(hay@, pat@, i as int),
{
    let n = hay.len();
    let m = pat.len();
    if i > n || m > n - i {
        return false;
    }
    let mut j: usize = 0;
    while j < m
        invariant
            j <= m,
            m == pat@.len(),
            n == hay@.len(),
            i + m <= n,
            forall|k: int| 0 <= k < j ==> hay@[i + k] == pat@[k],
        decreases m - j,
    {
        if hay[i + j] != pat[j] {
            proof {
                assert(hay@.subrange(i as int, i + m)[j as int] == hay@[i + j]);
            }
            return false;
        }
        j += 1;
    }
    proof {
        assert(hay@.subrange(i as int, i + m) =~= pat@);
    }
    true
}

/// The first position at or after `from` at which `pat` stands in `hay`.
pub fn find(hay: &Vec<char>, pat: &Vec<char>, from: usize) -> (r: Option<usize>)
    ensures
        match r {
            Some(i) => first_match(hay@, pat@, from as int) == Some(i as int) && from <= i && i
                + pat@.len() <= hay@.len(),
            None => first_match(hay@, pat@, from as int) is None,
        },
{
    let n = hay.len();
    let m = pat.len();
    if m > n {
        return None;
    }
    if from > n - m {
        return None;
    }
    let mut i: usize = from;
    loop
        invariant
            from <= i <= n - m,
            n == hay@.len(),
            m == pat@.len(),
            m <= n,
            first_match(hay@, pat@, from as int) == first_match(hay@, pat@, i as int),
        decreases n - m - i,
    {
        if matches_at(hay, pat, i) {
            return Some(i);
        }
        if i == n - m {
            proof {
                assert(first_match(hay@, pat@, i + 1) is None);
            }
            return None;
        }
        i += 1;
    }
}

/// The last position before `upto` at which `hay` holds `c`.
pub fn rfind_char(hay: &Vec<char>, c: char, upto: usize) -> (r: Option<usize>)
    requires
        upto <= hay@.len(),
    ensures
        match r {
            Some(i) => last_index_of(hay@, c, upto as int) == Some(i as int) && i < upto,
            None => last_index_of(hay@, c, upto as int) is None,
        },
{
    let mut i: usize = upto;
    while i > 0
        invariant
            i <= upto <= hay@.len(),
            last_index_of(hay@, c, upto as int) == last_index_of(hay@, c, i as int),
        decreases i,
    {
        if hay[i - 1] == c {
            return Some(i - 1);
        }
        i -= 1;
    }
    None
}

/// Whether `pat` stands somewhere in `s`.
pub fn str_contains(s: &str, pat: &str) -> (r: bool)
    ensures
        r == contains_text(s@, pat@),
{
    let hay = chars_of(s);
    let needle = chars_of(pat);
    find(&hay, &needle, 0).is_some()
}

/// Whether `s` begins with `pat`.
pub fn str_starts_with(s: &str, pat: &str) -> (r: bool)
    ensures
        r == has_prefix(s@, pat@),
{
    let hay = chars_of(s);
    let needle = chars_of(pat);
    matches_at(&hay, &needle, 0)
}

/// Whether `s` ends with `pat`.
pub fn str_ends_with(s: &str, pat: &str) -> (r: bool)
    ensures
        r == has_suffix(s@, pat@),
{
    let hay = chars_of(s);
    let needle = chars_of(pat);
    if needle.len() > hay.len() {
        false
    } else {
        matches_at(&hay, &needle, hay.len() - needle.len())
    }
}

/// `s` without its leading and trailing occurrences of `c`.
pub fn trim_matches<'a>(s: &'a str, c: char) -> (r: &'a str)
    ensures
        r@ == trimmed(s@, c),
{
    let chars = chars_of(s);
    let n = chars.len();
    let mut a: usize = 0;
    proof {
        assert(chars@.skip(0) =~= chars@);
    }
    while a < n && chars[a] == c
        invariant
            a <= n,
            n == chars@.len(),
            trim_start(chars@, c) == trim_start(chars@.skip(a as int), c),
        decreases n - a,
    {
        proof {
            assert(chars@.skip(a as int).drop_first() =~= chars@.skip(a + 1));
        }
        a += 1;
    }
    let mut b: usize = n;
    proof {
        assert(chars@.subrange(a as int, n as int) =~= chars@.skip(a as int));
        assert(trim_start(chars@.skip(a as int), c) == chars@.skip(a as int));
    }
    while b > a && chars[b - 1] == c
        invariant
            a <= b <= n,
            n == chars@.len(),
            trimmed(chars@, c) == trim_end(chars@.subrange(a as int, b as int), c),
        decreases b,
    {
        proof {
            assert(chars@.subrange(a as int, b as int).drop_last() =~= chars@.subrange(
                a as int,
                b - 1,
            ));
        }
        b -= 1;
    }
    proof {
        let part = chars@.subrange(a as int, b as int);
        if part.len() > 0 {
            assert(part.last() == chars@[b - 1]);
        }
        assert(trim_end(part, c) == part);
    }
    s.substring_char(a, b)
}

/// `s` without its trailing occurrences of `c`.
pub fn trim_end_matches<'a>(s: &'a str, c: char) -> (r: &'a str)
    ensures
        r@ == trim_end(s@, c),
{
    let chars = chars_of(s);
    let n = chars.len();
    let mut b: usize = n;
    proof {
        assert(chars@.subrange(0, n as int) =~= chars@);
    }
    while b > 0 && chars[b - 1] == c
        invariant
            b <= n,
            n == chars@.len(),
            trim_end(chars@, c) == trim_end(chars@.subrange(0, b as int), c),
        decreases b,
    {
        proof {
            assert(chars@.subrange(0, b as int).drop_last() =~= chars@.subrange(0, b - 1));
        }
        b -= 1;
    }
    proof {
        let part = chars@.subrange(0, b as int);
        if part.len() > 0 {
            assert(part.last() == chars@[b - 1]);
        }
        assert(trim_end(part, c) == part);
    }
    s.substring_char(0, b)
}

/// Whether `c` is white space, as `char::is_whitespace` tells.
pub uninterp spec fn white_space(c: char) -> bool;

/// Asks `char::is_whitespace` whether a character is white space in the
/// sense of Unicode.
#[verifier::external_body]
pub(crate) fn is_whitespace(c: char) -> (r: bool)
    ensures
        r == white_space(c),
{
    c.is_whitespace()
}

/// `s` without its leading white space.
pub open spec fn skip_space(s: Seq<char>) -> Seq<char>
    decreases s.len(),
{
    if s.len() > 0 && white_space(s[0]) {
        skip_space(s.drop_first())
    } else {
        s
    }
}

/// `s` without its trailing white space.
pub open spec fn drop_space(s: Seq<char>) -> Seq<char>
    decreases s.len(),
{
    if s.len() > 0 && white_space(s.last()) {
        drop_space(s.drop_last())
    } else {
        s
    }
}

/// `s` without leading and trailing white space.
pub open spec fn trim_space(s: Seq<char>) -> Seq<char> {
    drop_space(skip_space(s))
}

/// `s` without leading and trailing white space.
pub fn trim<'a>(s: &'a str) -> (r: &'a str)
    ensures
        r@ == trim_space(s@),
{
    let chars = chars_of(s);
    let n = chars.len();
    let mut a: usize = 0;
    proof {
        assert(chars@.skip(0) =~= chars@);
    }
    while a < n && is_whitespace(chars[a])
        invariant
            a <= n,
            n == chars@.len(),
            skip_space(chars@) == skip_space(chars@.skip(a as int)),
        decreases n - a,
    {
        proof {
            assert(chars@.skip(a as int).drop_first() =~= chars@.skip(a + 1));
        }
        a += 1;
    }
    let mut b: usize = n;
    proof {
        assert(chars@.subrange(a as int, n as int) =~= chars@.skip(a as int));
        assert(skip_space(chars@.skip(a as int)) == chars@.skip(a as int));
    }
    while b > a && is_whitespace(chars[b - 1])
        invariant
            a <= b <= n,
            n == chars@.len(),
            trim_space(chars@) == drop_space(chars@.subrange(a as int, b as int)),
        decreases b,
    {
        proof {
            assert(chars@.subrange(a as int, b as int).drop_last() =~= chars@.subrange(
                a as int,
                b - 1,
            ));
        }
        b -= 1;
    }
    proof {
        let part = chars@.subrange(a as int, b as int);
        if part.len() > 0 {
            assert(part.last() == chars@[b - 1]);
        }
        assert(drop_space(part) == part);
    }
    s.substring_char(a, b)
}

/// The lines of `lines` with `sep` between them.
pub open spec fn joined(lines: Seq<Seq<char>>, sep: Seq<char>) -> Seq<char>
    decreases lines.len(),
{
    if lines.len() == 0 {
        Seq::empty()
    } else if lines.len() == 1 {
        lines[0]
    } else {
        joined(lines.drop_last(), sep) + sep + lines.last()
    }
}

/// The texts of a run of strings.
pub open spec fn lines_view(lines: Seq<String>) -> Seq<Seq<char>> {
    lines.map_values(|l: String| l@)
}

/// Joins the lines with `sep` between them.
pub fn join(lines: &Vec<String>, sep: &str) -> (r: String)
    ensures
        r@ == joined(lines_view(lines@), sep@),
{
    let ghost all = lines_view(lines@);
    let mut out = String::new();
    let mut i: usize = 0;
    proof {
        assert(all.take(0) =~= Seq::<Seq<char>>::empty());
    }
    while i < lines.len()
        invariant
            i <= lines@.len(),
            all == lines_view(lines@),
            out@ == joined(all.take(i as int), sep@),
        decreases lines@.len() - i,
    {
        proof {
            let next = all.take(i + 1);
            assert(next.drop_last() =~= all.take(i as int));
            assert(next.last() == lines@[i as int]@);
            if i == 0 {
                assert(Seq::<char>::empty() + lines@[i as int]@ =~= lines@[i as int]@);
            }
        }
        if i > 0 {
            out.append(sep);
        }
        out.append(lines[i].as_str());
        i += 1;
    }
    proof {
        assert(all.take(i as int) =~= all);
    }
    out
}

/// How `{:?}` writes a list of strings: in square brackets, each string in
/// double quotes with its special characters escaped.
pub uninterp spec fn debug_text(lines: Seq<Seq<char>>) -> Seq<char>;

/// Formats a list of strings with `format!` and `{:?}`.
#[verifier::external_body]
pub(crate) fn debug_lines(lines: &Vec<String>) -> (r: String)
    ensures
        r@ == debug_text(lines_view(lines@)),
{
    format!("{:?}", lines)
}

} // verus!
