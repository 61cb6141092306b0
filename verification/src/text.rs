//! The settings text format at the level of single lines.
//!
//! A settings file is a sequence of lines. A line that holds an equals sign is
//! a field, `key = value`; it is cut at its last equals sign and both halves
//! are trimmed. A line without one that trims to `---` closes a record. Any
//! other line is malformed. Unsigned values are written in decimal.
use vstd::prelude::*;
use vstd::string::*;

verus! {

/// The characters that count as white space when a line is trimmed: the
/// Unicode `White_Space` code points.
pub open spec fn is_space(c: char) -> bool {
    let n = c as u32;
    ||| 0x09 <= n <= 0x0D
    ||| n == 0x20
    ||| n == 0x85
    ||| n == 0xA0
    ||| n == 0x1680
    ||| 0x2000 <= n <= 0x200A
    ||| n == 0x2028
    ||| n == 0x2029
    ||| n == 0x202F
    ||| n == 0x205F
    ||| n == 0x3000
}

/// `s` without its leading white space.
pub open spec fn trim_start(s: Seq<char>) -> Seq<char>
    decreases s.len(),
{
    if s.len() > 0 && is_space(s.first()) {
        trim_start(s.drop_first())
    } else {
        s
    }
}

/// `s` without its trailing white space.
pub open spec fn trim_end(s: Seq<char>) -> Seq<char>
    decreases s.len(),
{
    if s.len() > 0 && is_space(s.last()) {
        trim_end(s.drop_last())
    } else {
        s
    }
}

/// `s` without leading and trailing white space.
pub open spec fn trim(s: Seq<char>) -> Seq<char> {
    trim_end(trim_start(s))
}

/// The position of the last equals sign in `s`, if it has one.
pub open spec fn last_equals(s: Seq<char>) -> Option<int>
    decreases s.len(),
{
    if s.len() == 0 {
        None
    } else if s.last() == '=' {
        Some(s.len() - 1)
    } else {
        last_equals(s.drop_last())
    }
}

/// The key and the value text of a field line: the trimmed text before and
/// after the last equals sign. `None` for a line without an equals sign.
pub open spec fn field_of(line: Seq<char>) -> Option<(Seq<char>, Seq<char>)> {
    match last_equals(line) {
        Some(at) => Some(
            (trim(line.subrange(0, at)), trim(line.subrange(at + 1, line.len() as int))),
        ),
        None => None,
    }
}

/// The text that closes a record.
pub open spec fn separator() -> Seq<char> {
    seq!['-', '-', '-']
}

/// Whether `line` closes a record.
pub open spec fn is_separator(line: Seq<char>) -> bool {
    last_equals(line) is None && trim(line) == separator()
}

/// The line written for a field.
pub open spec fn field_line(key: Seq<char>, value: Seq<char>) -> Seq<char> {
    key + seq![' ', '=', ' '] + value
}

/// The value of a decimal digit.
pub open spec fn digit_value(c: char) -> Option<nat> {
    if 48 <= c as u32 <= 57 {
        Some((c as u32 - 48) as nat)
    } else {
        None
    }
}

/// The character for a digit below ten.
pub open spec fn digit_char(d: nat) -> char {
    if d == 0 {
        '0'
    } else if d == 1 {
        '1'
    } else if d == 2 {
        '2'
    } else if d == 3 {
        '3'
    } else if d == 4 {
        '4'
    } else if d == 5 {
        '5'
    } else if d == 6 {
        '6'
    } else if d == 7 {
        '7'
    } else if d == 8 {
        '8'
    } else {
        '9'
    }
}

/// The number that a run of decimal digits denotes; `None` where `s` holds
/// anything but digits. The empty run denotes zero.
pub open spec fn digits_value(s: Seq<char>) -> Option<nat>
    decreases s.len(),
{
    if s.len() == 0 {
        Some(0)
    } else {
        match (digits_value(s.drop_last()), digit_value(s.last())) {
            (Some(high), Some(low)) => Some(high * 10 + low),
            _ => None,
        }
    }
}

/// What an unsigned decimal text denotes: an optional plus sign, then one or
/// more digits whose value fits in 32 bits. `None` for every other text.
pub open spec fn parse_unsigned(s: Seq<char>) -> Option<u32> {
    let digits = if s.len() > 0 && s.first() == '+' {
        s.drop_first()
    } else {
        s
    };
    if digits.len() == 0 {
        None
    } else {
        match digits_value(digits) {
            Some(n) => if n <= u32::MAX {
                Some(n as u32)
            } else {
                None
            },
            None => None,
        }
    }
}

/// The decimal text of `n`, without sign or leading zeros.
pub open spec fn decimal(n: nat) -> Seq<char>
    decreases n,
{
    if n < 10 {
        seq![digit_char(n)]
    } else {
        decimal(n / 10).push(digit_char(n % 10))
    }
}

/// A text that trimming leaves as it is and that holds no equals sign: what a
/// key or a value must be for a field line to be read back as written.
pub open spec fn is_plain(s: Seq<char>) -> bool {
    &&& trim(s) == s
    &&& last_equals(s) is None
}

/// Executable form of [`is_space`].
pub fn char_is_space(c: char) -> (b: bool)
    ensures
        b == is_space(c),
{
    let n: u32 = c as u32;
    (0x09 <= n && n <= 0x0D) || n == 0x20 || n == 0x85 || n == 0xA0 || n == 0x1680 || (0x2000 <= n
        && n <= 0x200A) || n == 0x2028 || n == 0x2029 || n == 0x202F || n == 0x205F || n == 0x3000
}

/// The characters of `s`, in order.
pub fn chars_of(s: &str) -> (v: Vec<char>)
    ensures
        v@ == s@,
{
    let mut v: Vec<char> = Vec::new();
    for c in it: s.chars()
        invariant
            v@ == it.seq().take(it.index() as int),
            it.seq() == s@,
    {
        v.push(c);
    }
    v
}

/// The bounds of the trimmed part of `v[from..to]`.
pub fn trim_bounds(v: &Vec<char>, from: usize, to: usize) -> (r: (usize, usize))
    requires
        from <= to <= v.len(),
    ensures
        from <= r.0 <= r.1 <= to,
        v@.subrange(r.0 as int, r.1 as int) == trim(v@.subrange(from as int, to as int)),
{
    let mut a: usize = from;
    while a < to && char_is_space(v[a])
        invariant
            from <= a <= to <= v.len(),
            trim_start(v@.subrange(from as int, to as int)) == trim_start(
                v@.subrange(a as int, to as int),
            ),
        decreases to - a,
    {
        assert(v@.subrange(a as int, to as int).drop_first() == v@.subrange(a + 1, to as int));
        a = a + 1;
    }
    assert(trim_start(v@.subrange(a as int, to as int)) == v@.subrange(a as int, to as int));
    let mut b: usize = to;
    while a < b && char_is_space(v[b - 1])
        invariant
            a <= b <= to <= v.len(),
            trim_end(v@.subrange(a as int, to as int)) == trim_end(v@.subrange(a as int, b as int)),
        decreases b - a,
    {
        assert(v@.subrange(a as int, b as int).drop_last() == v@.subrange(a as int, b - 1));
        b = b - 1;
    }
    assert(trim_end(v@.subrange(a as int, b as int)) == v@.subrange(a as int, b as int));
    (a, b)
}

/// The position of the last equals sign in `v`.
pub fn find_last_equals(v: &Vec<char>) -> (r: Option<usize>)
    ensures
        match r {
            Some(at) => last_equals(v@) == Some(at as int) && at < v.len(),
            None => last_equals(v@) is None,
        },
{
    let mut n: usize = v.len();
    assert(v@.take(n as int) == v@);
    while n > 0
        invariant
            n <= v.len(),
            last_equals(v@) == last_equals(v@.take(n as int)),
        decreases n,
    {
        if v[n - 1] == '=' {
            return Some(n - 1);
        }
        assert(v@.take(n as int).drop_last() == v@.take(n - 1));
        n = n - 1;
    }
    None
}

/// Splits a field line into its key and its value text.
pub fn split_field(line: &str) -> (r: Option<(String, String)>)
    ensures
        match r {
            Some(pair) => field_of(line@) == Some((pair.0@, pair.1@)),
            None => field_of(line@) is None,
        },
{
    let v = chars_of(line);
    match find_last_equals(&v) {
        None => None,
        Some(at) => {
            let (key_from, key_to) = trim_bounds(&v, 0, at);
            let (value_from, value_to) = trim_bounds(&v, at + 1, v.len());
            let key = line.substring_char(key_from, key_to).to_owned();
            let value = line.substring_char(value_from, value_to).to_owned();
            Some((key, value))
        },
    }
}

/// Whether `line` closes a record.
pub fn closes_record(line: &str) -> (b: bool)
    ensures
        b == is_separator(line@),
{
    let v = chars_of(line);
    if find_last_equals(&v).is_some() {
        return false;
    }
    let (from, to) = trim_bounds(&v, 0, v.len());
    assert(v@.subrange(0, v.len() as int) == v@);
    let ghost trimmed = v@.subrange(from as int, to as int);
    assert(separator().len() == 3);
    if to - from != 3 {
        assert(trimmed.len() != 3);
        return false;
    }
    let b = v[from] == '-' && v[from + 1] == '-' && v[from + 2] == '-';
    proof {
        assert(trimmed[0] == v[from as int]);
        assert(trimmed[1] == v[from + 1]);
        assert(trimmed[2] == v[from + 2]);
        if b {
            assert(trimmed =~= separator());
        } else {
            assert(separator()[0] == '-' && separator()[1] == '-' && separator()[2] == '-');
        }
    }
    b
}

/// A prefix of a run of digits is a run of digits, and denotes no more.
pub proof fn lemma_digits_prefix(s: Seq<char>, n: int)
    requires
        0 <= n <= s.len(),
        digits_value(s) is Some,
    ensures
        digits_value(s.take(n)) is Some,
        digits_value(s.take(n))->0 <= digits_value(s)->0,
    decreases s.len(),
{
    if n == s.len() {
        assert(s.take(n) == s);
    } else {
        assert(s.drop_last().take(n) == s.take(n));
        lemma_digits_prefix(s.drop_last(), n);
    }
}

/// Reads an unsigned decimal number.
pub fn parse_u32(text: &str) -> (r: Option<u32>)
    ensures
        r == parse_unsigned(text@),
{
    let v = chars_of(text);
    let start: usize = if v.len() > 0 && v[0] == '+' {
        1
    } else {
        0
    };
    let ghost digits = v@.subrange(start as int, v.len() as int);
    assert(digits == if v@.len() > 0 && v@.first() == '+' {
        v@.drop_first()
    } else {
        v@
    });
    if start == v.len() {
        return None;
    }
    let mut acc: u64 = 0;
    let mut i: usize = start;
    assert(digits.take(0) == Seq::<char>::empty());
    while i < v.len()
        invariant
            start <= i <= v.len(),
            digits == v@.subrange(start as int, v.len() as int),
            parse_unsigned(text@) == match digits_value(digits) {
                Some(n) => if n <= u32::MAX {
                    Some(n as u32)
                } else {
                    None
                },
                None => None,
            },
            digits_value(digits.take(i - start)) == Some(acc as nat),
            acc <= u32::MAX,
        decreases v.len() - i,
    {
        let code: u32 = v[i] as u32;
        let ghost upto = digits.take(i - start + 1);
        assert(upto.drop_last() == digits.take(i - start));
        assert(upto.last() == v[i as int]);
        if code < 48 || code > 57 {
            proof {
                assert(digit_value(upto.last()) is None);
                assert(digits_value(upto) is None);
                if digits_value(digits) is Some {
                    lemma_digits_prefix(digits, i - start + 1);
                }
            }
            return None;
        }
        let next: u64 = acc * 10 + (code - 48) as u64;
        assert(digit_value(upto.last()) == Some((code - 48) as nat));
        assert(digits_value(upto) == Some(next as nat));
        if next > u32::MAX as u64 {
            proof {
                if digits_value(digits) is Some {
                    lemma_digits_prefix(digits, i - start + 1);
                }
            }
            return None;
        }
        acc = next;
        i = i + 1;
    }
    assert(digits.take(i - start) == digits);
    Some(acc as u32)
}

/// The text of one digit.
fn digit_text(d: u32) -> (r: &'static str)
    requires
        d < 10,
    ensures
        r@ == seq![digit_char(d as nat)],
{
    proof {
        reveal_strlit("0");
        reveal_strlit("1");
        reveal_strlit("2");
        reveal_strlit("3");
        reveal_strlit("4");
        reveal_strlit("5");
        reveal_strlit("6");
        reveal_strlit("7");
        reveal_strlit("8");
        reveal_strlit("9");
    }
    let r = if d == 0 {
        "0"
    } else if d == 1 {
        "1"
    } else if d == 2 {
        "2"
    } else if d == 3 {
        "3"
    } else if d == 4 {
        "4"
    } else if d == 5 {
        "5"
    } else if d == 6 {
        "6"
    } else if d == 7 {
        "7"
    } else if d == 8 {
        "8"
    } else {
        "9"
    };
    assert(r@ =~= seq![digit_char(d as nat)]);
    r
}

/// Writes an unsigned number in decimal.
pub fn format_u32(n: u32) -> (r: String)
    ensures
        r@ == decimal(n as nat),
    decreases n,
{
    if n < 10 {
        digit_text(n).to_owned()
    } else {
        let mut r = format_u32(n / 10);
        r.append(digit_text(n % 10));
        assert(r@ =~= decimal(n as nat / 10).push(digit_char(n as nat % 10)));
        r
    }
}

/// The decimal text of a number is a non-empty run of digits that denotes it.
pub proof fn lemma_decimal_digits(n: nat)
    ensures
        decimal(n).len() > 0,
        digits_value(decimal(n)) == Some(n),
        forall|i: int| 0 <= i < decimal(n).len() ==> digit_value(#[trigger] decimal(n)[i]) is Some,
    decreases n,
{
    if n < 10 {
        assert(decimal(n).drop_last() == Seq::<char>::empty());
        assert(digits_value(decimal(n).drop_last()) == Some(0nat));
        assert(digit_value(digit_char(n)) == Some(n));
    } else {
        lemma_decimal_digits(n / 10);
        assert(decimal(n).drop_last() == decimal(n / 10));
        assert(digit_value(digit_char(n % 10)) == Some(n % 10));
    }
}

/// Reading the decimal text of a number gives the number back.
pub proof fn lemma_decimal_roundtrip(n: u32)
    ensures
        parse_unsigned(decimal(n as nat)) == Some(n),
{
    lemma_decimal_digits(n as nat);
    assert(digit_value(decimal(n as nat)[0]) is Some);
}

/// A text without an equals sign has no last one.
pub proof fn lemma_no_equals(s: Seq<char>)
    requires
        forall|i: int| 0 <= i < s.len() ==> s[i] != '=',
    ensures
        last_equals(s) is None,
    decreases s.len(),
{
    if s.len() > 0 {
        lemma_no_equals(s.drop_last());
    }
}

/// Trimming leaves a text as it is exactly when the text neither starts nor
/// ends with white space.
pub proof fn lemma_trim_fixed(s: Seq<char>)
    ensures
        trim(s) == s <==> (s.len() == 0 || (!is_space(s.first()) && !is_space(s.last()))),
{
    lemma_trim_shorter(s);
    lemma_trim_shorter(trim_start(s));
    if s.len() > 0 && is_space(s.first()) {
        lemma_trim_shorter(s.drop_first());
    }
    if s.len() > 0 && !is_space(s.first()) && is_space(s.last()) {
        lemma_trim_shorter(s.drop_last());
    }
}

/// Trimming at either end never lengthens a text.
pub proof fn lemma_trim_shorter(s: Seq<char>)
    ensures
        trim_start(s).len() <= s.len(),
        trim_end(s).len() <= s.len(),
    decreases s.len(),
{
    if s.len() > 0 {
        lemma_trim_shorter(s.drop_first());
        lemma_trim_shorter(s.drop_last());
    }
}

/// The decimal text of a number is plain.
pub proof fn lemma_decimal_plain(n: nat)
    ensures
        is_plain(decimal(n)),
{
    lemma_decimal_digits(n);
    let s = decimal(n);
    assert forall|i: int| 0 <= i < s.len() implies s[i] != '=' && !is_space(s[i]) by {
        assert(digit_value(s[i]) is Some);
    }
    lemma_no_equals(s);
    lemma_trim_fixed(s);
}

/// In a text that ends with an equals sign followed by a text without one,
/// that sign is the last.
pub proof fn lemma_last_equals_append(head: Seq<char>, rest: Seq<char>)
    requires
        last_equals(rest) is None,
    ensures
        last_equals(head + seq!['='] + rest) == Some(head.len() as int),
    decreases rest.len(),
{
    let line = head + seq!['='] + rest;
    if rest.len() == 0 {
        assert(line.last() == '=');
    } else {
        assert(line.drop_last() == head + seq!['='] + rest.drop_last());
        assert(line.last() == rest.last());
        lemma_last_equals_append(head, rest.drop_last());
    }
}

/// A field line is read back as the key and the value it was written from,
/// provided trimming leaves the key as it is and the value is plain.
pub proof fn lemma_field_line_roundtrip(key: Seq<char>, value: Seq<char>)
    requires
        trim(key) == key,
        is_plain(value),
    ensures
        field_of(field_line(key, value)) == Some((key, value)),
        !is_separator(field_line(key, value)),
{
    let line = field_line(key, value);
    let head = key + seq![' '];
    let rest = seq![' '] + value;
    assert(line == head + seq!['='] + rest);
    assert(last_equals(rest) is None) by {
        assert forall|i: int| 0 <= i < rest.len() implies rest[i] != '=' by {
            if i > 0 {
                lemma_has_no_equals(value, i - 1);
            }
        }
        lemma_no_equals(rest);
    }
    lemma_last_equals_append(head, rest);
    let at = head.len() as int;
    assert(line.subrange(0, at) == head);
    assert(line.subrange(at + 1, line.len() as int) == rest);
    lemma_trim_fixed(key);
    lemma_trim_fixed(value);
    assert(is_space(' '));
    assert(trim(head) == key) by {
        assert(head.drop_last() == key);
        assert(head.last() == ' ');
        if key.len() == 0 {
            assert(head.first() == ' ');
            assert(head.drop_first() == Seq::<char>::empty());
            assert(trim_start(Seq::<char>::empty()) == Seq::<char>::empty());
            assert(trim_start(head) == Seq::<char>::empty());
        } else {
            assert(head.first() == key.first());
            assert(trim_start(head) == head);
            assert(trim_end(head) == trim_end(key));
            assert(trim_start(key) == key);
        }
    }
    assert(trim(rest) == value) by {
        assert(rest.first() == ' ');
        assert(rest.drop_first() == value);
        assert(trim_start(rest) == trim_start(value));
        if value.len() > 0 {
            assert(trim_start(value) == value);
        }
    }
}

/// A text with no last equals sign holds none at any position.
pub proof fn lemma_has_no_equals(s: Seq<char>, i: int)
    requires
        last_equals(s) is None,
        0 <= i < s.len(),
    ensures
        s[i] != '=',
    decreases s.len(),
{
    if i < s.len() - 1 {
        lemma_has_no_equals(s.drop_last(), i);
    }
}

} // verus!
