//! Text as sequences of characters: numbers in decimal, white space, lines.

use vstd::prelude::*;

verus! {

/// The character that writes the digit `d`.
pub open spec fn digit(d: nat) -> char {
    (48 + d) as char
}

/// `n` in decimal, without leading zeros.
pub open spec fn decimal(n: nat) -> Seq<char>
    decreases n,
{
    if n < 10 {
        seq![digit(n)]
    } else {
        decimal(n / 10).push(digit(n % 10))
    }
}

/// `n` in decimal, with a minus sign in front when it is negative.
pub open spec fn signed_decimal(n: int) -> Seq<char> {
    if n < 0 {
        seq!['-'] + decimal((-n) as nat)
    } else {
        decimal(n as nat)
    }
}

fn digit_text(d: u64) -> (r: &'static str)
    requires
        d < 10,
    ensures
        r@ == seq![digit(d as nat)],
{
    proof {
        reveal_strlit("0");
        reveal_strlit("1");
        reveal_strlit("2");
        reveal_strlit("3");
        reveal_strlit("4");
        reveal_strlit("5");
        reveal_strlit("6");
        reveal_strlit("7");
        reveal_strlit("8");
        reveal_strlit("9");
    }
    match d {
        0 => "0",
        1 => "1",
        2 => "2",
        3 => "3",
        4 => "4",
        5 => "5",
        6 => "6",
        7 => "7",
        8 => "8",
        _ => "9",
    }
}

/// Writes `n` in decimal.
pub fn decimal_text(n: u64) -> (r: String)
    ensures
        r@ == decimal(n as nat),
    decreases n,
{
    if n < 10 {
        digit_text(n).to_owned()
    } else {
        decimal_text(n / 10).concat(digit_text(n % 10))
    }
}

/// Writes `n` in decimal, with its sign when it is negative.
pub fn signed_decimal_text(n: i32) -> (r: String)
    ensures
        r@ == signed_decimal(n as int),
{
    if n < 0 {
        proof {
            reveal_strlit("-");
        }
        let size: u64 = (-(n as i64)) as u64;
        let digits = decimal_text(size);
        "-".to_owned().concat(digits.as_str())
    } else {
        decimal_text(n as u64)
    }
}

/// The characters of `s`, one by one.
pub fn chars_of(s: &str) -> (v: Vec<char>)
    ensures
        v@ == s@,
{
    let mut v: Vec<char> = Vec::new();
    for c in it: s.chars()
        invariant
            v@ == it.seq().take(it.index()),
            it.seq() == s@,
    {
        v.push(c);
    }
    assert(s@.take(s@.len() as int) == s@);
    v
}

/// The contents of a list of strings.
pub open spec fn texts(list: Seq<String>) -> Seq<Seq<char>> {
    Seq::new(list.len(), |i: int| list[i]@)
}

/// The contents of an optional string.
pub open spec fn text_option(value: Option<String>) -> Option<Seq<char>> {
    match value {
        Some(text) => Some(text@),
        None => None,
    }
}

/// The parts one after another with `separator` between them.
pub open spec fn joined(parts: Seq<Seq<char>>, separator: Seq<char>) -> Seq<char>
    decreases parts.len(),
{
    if parts.len() == 0 {
        Seq::empty()
    } else if parts.len() == 1 {
        parts[0]
    } else {
        joined(parts.drop_last(), separator) + separator + parts.last()
    }
}

/// `count` times the character `c`.
pub open spec fn repeated(c: char, count: nat) -> Seq<char> {
    Seq::new(count, |i: int| c)
}

/// Whether two texts are the same.
pub fn same_text(a: &str, b: &str) -> (r: bool)
    ensures
        r == (a@ == b@),
{
    a.to_owned() == b.to_owned()
}

/// Whether `s` begins with `prefix`.
pub fn begins_with(s: &str, prefix: &str) -> (r: bool)
    ensures
        r == prefix@.is_prefix_of(s@),
{
    let size: usize = prefix.unicode_len();
    if s.unicode_len() < size {
        return false;
    }
    let head = s.substring_char(0, size);
    assert(head@ == s@.take(size as int));
    let r = same_text(head, prefix);
    proof {
        if prefix@.is_prefix_of(s@) {
            assert(head@ == prefix@);
        }
    }
    r
}

/// Writes the parts one after another with `separator` between them.
pub fn join_text(parts: &Vec<String>, separator: &str) -> (r: String)
    ensures
        r@ == joined(texts(parts@), separator@),
{
    let mut r = String::new();
    let ghost all = texts(parts@);
    for i in 0..parts.len()
        invariant
            all == texts(parts@),
            r@ == joined(all.take(i as int), separator@),
    {
        if i > 0 {
            r.append(separator);
        }
        r.append(parts[i].as_str());
        assert(all.take(i + 1).drop_last() == all.take(i as int));
        assert(all.take(i + 1).last() == parts[i as int]@);
        assert(r@ == joined(all.take(i + 1), separator@));
    }
    assert(all.take(parts.len() as int) == all);
    r
}

/// Writes `unit`, which is one character, `count` times.
pub fn repeat_text(unit: &str, count: usize) -> (r: String)
    requires
        unit@.len() == 1,
    ensures
        r@ == repeated(unit@[0], count as nat),
{
    let mut r = String::new();
    for i in 0..count
        invariant
            unit@.len() == 1,
            r@ == repeated(unit@[0], i as nat),
    {
        r.append(unit);
        assert(r@ == repeated(unit@[0], (i + 1) as nat));
    }
    r
}

/// `count` spaces.
pub fn blank_text(count: usize) -> (r: String)
    ensures
        r@ == repeated(' ', count as nat),
{
    proof {
        reveal_strlit(" ");
    }
    repeat_text(" ", count)
}

/// The characters with the Unicode property White_Space.
pub open spec fn is_white_space(c: char) -> bool {
    ||| '\u{9}' <= c <= '\u{d}'
    ||| c == ' '
    ||| c == '\u{85}'
    ||| c == '\u{a0}'
    ||| c == '\u{1680}'
    ||| '\u{2000}' <= c <= '\u{200a}'
    ||| c == '\u{2028}'
    ||| c == '\u{2029}'
    ||| c == '\u{202f}'
    ||| c == '\u{205f}'
    ||| c == '\u{3000}'
}

/// Whether `c` is white space.
pub fn white_space(c: char) -> (r: bool)
    ensures
        r == is_white_space(c),
{
    ('\u{9}' <= c && c <= '\u{d}') || c == ' ' || c == '\u{85}' || c == '\u{a0}' || c == '\u{1680}'
        || ('\u{2000}' <= c && c <= '\u{200a}') || c == '\u{2028}' || c == '\u{2029}'
        || c == '\u{202f}' || c == '\u{205f}' || c == '\u{3000}'
}

/// `s` without the white space it begins with.
pub open spec fn trimmed_start(s: Seq<char>) -> Seq<char>
    decreases s.len(),
{
    if s.len() > 0 && is_white_space(s[0]) {
        trimmed_start(s.skip(1))
    } else {
        s
    }
}

/// `s` without the white space it ends with.
pub open spec fn trimmed_end(s: Seq<char>) -> Seq<char>
    decreases s.len(),
{
    if s.len() > 0 && is_white_space(s.last()) {
        trimmed_end(s.drop_last())
    } else {
        s
    }
}

/// `s` without the white space at either end.
pub open spec fn trimmed(s: Seq<char>) -> Seq<char> {
    trimmed_end(trimmed_start(s))
}

/// Whether `s` holds nothing but white space.
pub open spec fn is_blank(s: Seq<char>) -> bool {
    trimmed(s).len() == 0
}

/// Cuts the white space off both ends of `s`.
pub fn trim_text(s: &str) -> (r: String)
    ensures
        r@ == trimmed(s@),
{
    let chars = chars_of(s);
    let mut start: usize = 0;
    let mut end: usize = chars.len();
    assert(chars@.skip(0) == chars@);
    while start < end && white_space(chars[start])
        invariant
            start <= end,
            end == chars@.len(),
            trimmed_start(chars@) == trimmed_start(chars@.skip(start as int)),
        decreases end - start,
    {
        assert(chars@.skip(start as int).skip(1) == chars@.skip(start + 1));
        start = start + 1;
    }
    let ghost rest = chars@.skip(start as int);
    assert(trimmed_start(chars@) == rest);
    assert(chars@.subrange(start as int, end as int) == rest);
    while start < end && white_space(chars[end - 1])
        invariant
            start <= end <= chars@.len(),
            trimmed_end(rest) == trimmed_end(chars@.subrange(start as int, end as int)),
        decreases end,
    {
        assert(chars@.subrange(start as int, end as int).drop_last() == chars@.subrange(
            start as int,
            end - 1,
        ));
        end = end - 1;
    }
    s.substring_char(start, end).to_owned()
}

/// Whether nothing but white space is in `s`.
pub fn blank(s: &str) -> (r: bool)
    ensures
        r == is_blank(s@),
{
    let rest = trim_text(s);
    rest.unicode_len() == 0
}

/// Where the first `c` at or after `from` stands, or the length where none is.
pub open spec fn find_char(s: Seq<char>, c: char, from: int) -> int
    decreases s.len() - from,
{
    if from >= s.len() {
        s.len() as int
    } else if s[from] == c {
        from
    } else {
        find_char(s, c, from + 1)
    }
}

/// What `find_char` finds: nothing before it is `c`, and it is `c` itself.
pub proof fn find_char_is_first(s: Seq<char>, c: char, from: int)
    requires
        0 <= from <= s.len(),
    ensures
        from <= find_char(s, c, from) <= s.len(),
        find_char(s, c, from) < s.len() ==> s[find_char(s, c, from)] == c,
        forall|i: int| from <= i < find_char(s, c, from) ==> s[i] != c,
    decreases s.len() - from,
{
    if from < s.len() && s[from] != c {
        find_char_is_first(s, c, from + 1);
    }
}

/// Finds the first `c` at or after `from`.
pub fn find_in(chars: &Vec<char>, c: char, from: usize) -> (r: usize)
    requires
        from <= chars@.len(),
    ensures
        r == find_char(chars@, c, from as int),
        from <= r <= chars@.len(),
{
    let mut i: usize = from;
    while i < chars.len() && chars[i] != c
        invariant
            from <= i <= chars@.len(),
            find_char(chars@, c, i as int) == find_char(chars@, c, from as int),
        decreases chars@.len() - i,
    {
        i = i + 1;
    }
    i
}

/// A line without the carriage return that stood before its newline.
pub open spec fn without_return(line: Seq<char>) -> Seq<char> {
    if line.len() > 0 && line.last() == '\r' {
        line.drop_last()
    } else {
        line
    }
}

/// The lines of `s` from `from` on. A line ends at a newline, or at a carriage
/// return and a newline; the ending is not part of it, and the last line may
/// have none.
pub open spec fn lines_from(s: Seq<char>, from: int) -> Seq<Seq<char>>
    decreases s.len() - from,
    when 0 <= from
{
    if from >= s.len() {
        Seq::empty()
    } else {
        let end = find_char(s, '\n', from);
        if end < from || end >= s.len() {
            seq![s.skip(from)]
        } else {
            seq![without_return(s.subrange(from, end))] + lines_from(s, end + 1)
        }
    }
}

/// The lines of `s`.
pub open spec fn lines(s: Seq<char>) -> Seq<Seq<char>> {
    lines_from(s, 0)
}

/// Splits `s` into its lines.
pub fn lines_of(s: &str) -> (r: Vec<String>)
    ensures
        texts(r@) == lines(s@),
{
    let chars = chars_of(s);
    let mut r: Vec<String> = Vec::new();
    let mut from: usize = 0;
    assert(texts(r@) + lines_from(chars@, 0) == lines_from(chars@, 0));
    while from < chars.len()
        invariant
            from <= chars@.len(),
            chars@ == s@,
            texts(r@) + lines_from(chars@, from as int) == lines(s@),
        decreases chars@.len() - from,
    {
        let ghost before = r@;
        let end = find_in(&chars, '\n', from);
        if end == chars.len() {
            r.push(s.substring_char(from, end).to_owned());
            assert(r@.last()@ == chars@.skip(from as int));
            assert(texts(r@) == texts(before) + seq![chars@.skip(from as int)]);
            assert(lines_from(chars@, end as int) == Seq::<Seq<char>>::empty());
            assert(texts(r@) + lines_from(chars@, end as int) == lines(s@));
            from = end;
        } else {
            let stop: usize = if end > from && chars[end - 1] == '\r' {
                end - 1
            } else {
                end
            };
            r.push(s.substring_char(from, stop).to_owned());
            let ghost line = chars@.subrange(from as int, end as int);
            assert(r@.last()@ == without_return(line)) by {
                if stop < end {
                    assert(line.drop_last() == chars@.subrange(from as int, stop as int));
                }
            }
            assert(texts(r@) == texts(before) + seq![without_return(line)]);
            assert(texts(r@) + lines_from(chars@, end + 1) == texts(before) + lines_from(
                chars@,
                from as int,
            ));
            from = end + 1;
        }
    }
    assert(lines_from(chars@, from as int) == Seq::<Seq<char>>::empty());
    assert(texts(r@) == lines(s@));
    r
}

/// Why a text is not a whole number of sixty-four bits.
#[derive(Debug, Clone, Copy, PartialEq, Eq, Structural)]
pub enum IntegerError {
    Empty,
    InvalidDigit,
    TooLarge,
    TooSmall,
}

impl IntegerError {
    /// The error in words.
    pub open spec fn spoken(self) -> Seq<char> {
        match self {
            IntegerError::Empty => "cannot parse integer from empty string"@,
            IntegerError::InvalidDigit => "invalid digit found in string"@,
            IntegerError::TooLarge => "number too large to fit in target type"@,
            IntegerError::TooSmall => "number too small to fit in target type"@,
        }
    }

    /// Puts the error in words.
    pub fn message(self) -> (r: String)
        ensures
            r@ == self.spoken(),
    {
        match self {
            IntegerError::Empty => "cannot parse integer from empty string".to_owned(),
            IntegerError::InvalidDigit => "invalid digit found in string".to_owned(),
            IntegerError::TooLarge => "number too large to fit in target type".to_owned(),
            IntegerError::TooSmall => "number too small to fit in target type".to_owned(),
        }
    }
}

/// Whether `c` is one of the ten digits.
pub open spec fn is_digit(c: char) -> bool {
    '0' <= c <= '9'
}

/// The value of the digits, read on from `value`, or what first stands in the way.
pub open spec fn digits_value(
    digits: Seq<char>,
    negative: bool,
    value: int,
) -> Result<int, IntegerError>
    decreases digits.len(),
{
    if digits.len() == 0 {
        Ok(value)
    } else if !is_digit(digits[0]) {
        Err(IntegerError::InvalidDigit)
    } else {
        let d = digits[0] as int - '0' as int;
        let next = if negative {
            value * 10 - d
        } else {
            value * 10 + d
        };
        if next > i64::MAX {
            Err(IntegerError::TooLarge)
        } else if next < i64::MIN {
            Err(IntegerError::TooSmall)
        } else {
            digits_value(digits.skip(1), negative, next)
        }
    }
}

/// The number that `s` writes: an optional sign and at least one digit.
pub open spec fn integer_value(s: Seq<char>) -> Result<int, IntegerError> {
    if s.len() == 0 {
        Err(IntegerError::Empty)
    } else if s[0] == '+' || s[0] == '-' {
        if s.len() == 1 {
            Err(IntegerError::InvalidDigit)
        } else {
            digits_value(s.skip(1), s[0] == '-', 0)
        }
    } else {
        digits_value(s, false, 0)
    }
}

/// Reads the number that `s` writes.
pub fn parse_integer(s: &str) -> (r: Result<i64, IntegerError>)
    ensures
        match integer_value(s@) {
            Ok(value) => r is Ok && r->Ok_0 == value,
            Err(error) => r == Err::<i64, IntegerError>(error),
        },
{
    let chars = chars_of(s);
    if chars.len() == 0 {
        return Err(IntegerError::Empty);
    }
    let signed = chars[0] == '+' || chars[0] == '-';
    if signed && chars.len() == 1 {
        return Err(IntegerError::InvalidDigit);
    }
    let negative = chars[0] == '-';
    let mut i: usize = if signed {
        1
    } else {
        0
    };
    let mut value: i128 = 0;
    assert(chars@.skip(0) == chars@);
    while i < chars.len()
        invariant
            i <= chars@.len(),
            i64::MIN <= value <= i64::MAX,
            integer_value(s@) == digits_value(chars@.skip(i as int), negative, value as int),
        decreases chars@.len() - i,
    {
        let c = chars[i];
        let ghost rest = chars@.skip(i as int);
        assert(rest[0] == c);
        if c < '0' || c > '9' {
            return Err(IntegerError::InvalidDigit);
        }
        let d: i128 = (c as u32) as i128 - 48;
        assert(0 <= d <= 9);
        value = if negative {
            value * 10 - d
        } else {
            value * 10 + d
        };
        if value > i64::MAX as i128 {
            return Err(IntegerError::TooLarge);
        }
        if value < i64::MIN as i128 {
            return Err(IntegerError::TooSmall);
        }
        assert(rest.skip(1) == chars@.skip(i + 1));
        i = i + 1;
    }
    Ok(value as i64)
}

/// The text that bytes stand for when every part that is not UTF-8 is shown as
/// a replacement character.
pub uninterp spec fn lossy_utf8(bytes: Seq<u8>) -> Seq<char>;

/// Whether bytes, where they are UTF-8, are read as the text they encode.
pub open spec fn is_read(bytes: Seq<u8>) -> bool {
    vstd::utf8::valid_utf8(bytes) ==> lossy_utf8(bytes) == vstd::utf8::decode_utf8(bytes)
}

/// `String::from_utf8_lossy`. Claimed of it: the text depends on the bytes
/// alone, and bytes that are UTF-8 come out as the text they encode.
#[verifier::external_body]
pub(crate) fn lossy_text(bytes: &[u8]) -> (r: String)
    ensures
        r@ == lossy_utf8(bytes@),
        vstd::utf8::valid_utf8(bytes@) ==> r@ == vstd::utf8::decode_utf8(bytes@),
{
    String::from_utf8_lossy(bytes).into_owned()
}

proof fn lemma_trimmed_start(s: Seq<char>) -> (k: int)
    ensures
        0 <= k <= s.len(),
        trimmed_start(s) == s.skip(k),
        forall|i: int| 0 <= i < k ==> is_white_space(#[trigger] s[i]),
        k < s.len() ==> !is_white_space(s[k]),
    decreases s.len(),
{
    if s.len() > 0 && is_white_space(s[0]) {
        let rest = s.skip(1);
        let k = lemma_trimmed_start(rest);
        assert(rest.skip(k) =~= s.skip(k + 1));
        assert forall|i: int| 0 <= i < k + 1 implies is_white_space(#[trigger] s[i]) by {
            if i > 0 {
                assert(rest[i - 1] == s[i]);
            }
        }
        k + 1
    } else {
        assert(s.skip(0) =~= s);
        0
    }
}

proof fn lemma_trimmed_end(s: Seq<char>) -> (k: int)
    ensures
        0 <= k <= s.len(),
        trimmed_end(s) == s.take(k),
        forall|i: int| k <= i < s.len() ==> is_white_space(#[trigger] s[i]),
        k > 0 ==> !is_white_space(s[k - 1]),
    decreases s.len(),
{
    if s.len() > 0 && is_white_space(s.last()) {
        let rest = s.drop_last();
        let k = lemma_trimmed_end(rest);
        assert(rest.take(k) =~= s.take(k));
        assert forall|i: int| k <= i < s.len() implies is_white_space(#[trigger] s[i]) by {
            if i < rest.len() {
                assert(rest[i] == s[i]);
            }
        }
        k
    } else {
        assert(s.take(s.len() as int) =~= s);
        s.len() as int
    }
}

/// Trimming takes the white space off both ends and nothing else: what is left
/// stands in the text, all around it is white space, and it neither begins nor
/// ends with any.
pub proof fn trimming_takes_white_space_only(s: Seq<char>)
    ensures
        exists|a: int, b: int|
            0 <= a <= b <= s.len() && trimmed(s) == #[trigger] s.subrange(a, b) && (forall|i: int|
                0 <= i < a || b <= i < s.len() ==> is_white_space(#[trigger] s[i])),
        trimmed(s).len() > 0 ==> !is_white_space(trimmed(s)[0]) && !is_white_space(
            trimmed(s).last(),
        ),
{
    let a = lemma_trimmed_start(s);
    let rest = s.skip(a);
    let k = lemma_trimmed_end(rest);
    let b = a + k;
    assert(rest.take(k) =~= s.subrange(a, b));
    assert forall|i: int| 0 <= i < a || b <= i < s.len() implies is_white_space(
        #[trigger] s[i],
    ) by {
        if i >= b {
            assert(rest[i - a] == s[i]);
        }
    }
    if k > 0 {
        assert(trimmed(s)[0] == s[a]);
    }
}

/// A text is blank just when every character of it is white space.
pub proof fn blank_texts_are_white_space(s: Seq<char>)
    ensures
        is_blank(s) <==> forall|i: int| 0 <= i < s.len() ==> is_white_space(#[trigger] s[i]),
{
    trimming_takes_white_space_only(s);
    if trimmed(s).len() > 0 {
        let (a, b) = choose|a: int, b: int|
            0 <= a <= b <= s.len() && trimmed(s) == #[trigger] s.subrange(a, b) && (forall|i: int|
                0 <= i < a || b <= i < s.len() ==> is_white_space(#[trigger] s[i]));
        assert(trimmed(s)[0] == s[a]);
    } else {
        let (a, b) = choose|a: int, b: int|
            0 <= a <= b <= s.len() && trimmed(s) == #[trigger] s.subrange(a, b) && (forall|i: int|
                0 <= i < a || b <= i < s.len() ==> is_white_space(#[trigger] s[i]));
        assert(a == b);
    }
}

/// A text that neither begins nor ends with white space is left as it is, and
/// white space put around a text does not matter to what trimming leaves of it.
pub proof fn white_space_around_does_not_matter(before: Seq<char>, s: Seq<char>, after: Seq<char>)
    requires
        s.len() > 0,
        !is_white_space(s[0]),
        !is_white_space(s.last()),
        forall|i: int| 0 <= i < before.len() ==> is_white_space(#[trigger] before[i]),
        forall|i: int| 0 <= i < after.len() ==> is_white_space(#[trigger] after[i]),
    ensures
        trimmed(before + s + after) == s,
{
    let all = before + s + after;
    let a = lemma_trimmed_start(all);
    assert(all[before.len() as int] == s[0]);
    if a < before.len() {
        assert(all[a] == before[a]);
    }
    assert(a == before.len());
    let rest = all.skip(a);
    assert(rest =~= s + after);
    let k = lemma_trimmed_end(rest);
    assert(rest[s.len() - 1] == s.last());
    if k > s.len() {
        assert(rest[k - 1] == after[k - 1 - s.len()]);
    }
    assert(k == s.len());
    assert(rest.take(k) =~= s);
}

/// A number is written with the digits `0` to `9`, the last for what is left of
/// it over tens, and with no zero in front of another digit.
pub proof fn numbers_are_written_digit_by_digit(n: nat)
    ensures
        decimal(n).len() > 0,
        decimal(n).last() as int == '0' as int + n % 10,
        n < 10 ==> decimal(n).len() == 1,
        n >= 10 ==> decimal(n).drop_last() == decimal(n / 10),
        forall|i: int| 0 <= i < decimal(n).len() ==> '0' <= #[trigger] decimal(n)[i] <= '9',
        decimal(n)[0] == '0' ==> n == 0,
    decreases n,
{
    if n >= 10 {
        numbers_are_written_digit_by_digit(n / 10);
        assert(decimal(n).drop_last() =~= decimal(n / 10));
    }
}

/// What digits read on from `value` come to, one digit more.
proof fn lemma_digits_push(digits: Seq<char>, negative: bool, value: int, d: char)
    requires
        is_digit(d),
    ensures
        digits_value(digits, negative, value) matches Ok(v) ==> ({
            let next = if negative {
                v * 10 - (d as int - 48)
            } else {
                v * 10 + (d as int - 48)
            };
            i64::MIN <= next <= i64::MAX ==> digits_value(digits.push(d), negative, value)
                == Ok::<int, IntegerError>(next)
        }),
    decreases digits.len(),
{
    if digits.len() == 0 {
        let one = digits.push(d);
        assert(one.skip(1) =~= Seq::empty());
        assert(one[0] == d);
        let next = if negative {
            value * 10 - (d as int - 48)
        } else {
            value * 10 + (d as int - 48)
        };
        assert(digits_value(one.skip(1), negative, next) == Ok::<int, IntegerError>(next));
    } else if is_digit(digits[0]) {
        let n = digits[0] as int - '0' as int;
        let next = if negative {
            value * 10 - n
        } else {
            value * 10 + n
        };
        assert(digits.push(d).skip(1) =~= digits.skip(1).push(d));
        assert(digits.push(d)[0] == digits[0]);
        lemma_digits_push(digits.skip(1), negative, next, d);
    }
}

proof fn lemma_decimal_value(n: nat, negative: bool)
    requires
        n <= i64::MAX || negative && n <= i64::MAX + 1,
    ensures
        digits_value(decimal(n), negative, 0) == Ok::<int, IntegerError>(
            if negative {
                -(n as int)
            } else {
                n as int
            },
        ),
    decreases n,
{
    numbers_are_written_digit_by_digit(n);
    if n < 10 {
        let none = Seq::<char>::empty();
        assert(digits_value(none, negative, 0) == Ok::<int, IntegerError>(0));
        lemma_digits_push(none, negative, 0, digit(n));
        assert(decimal(n) =~= none.push(digit(n)));
    } else {
        lemma_decimal_value(n / 10, negative);
        lemma_digits_push(decimal(n / 10), negative, 0, digit(n % 10));
    }
}

/// A number that is written is read back as it was, whatever its sign.
pub proof fn numbers_are_read_back(n: int)
    requires
        i64::MIN <= n <= i64::MAX,
    ensures
        integer_value(signed_decimal(n)) == Ok::<int, IntegerError>(n),
        n >= 0 ==> integer_value(seq!['+'] + decimal(n as nat)) == Ok::<int, IntegerError>(n),
{
    let size = if n < 0 {
        (-n) as nat
    } else {
        n as nat
    };
    numbers_are_written_digit_by_digit(size);
    lemma_decimal_value(size, n < 0);
    assert(decimal(size)[0] != '-' && decimal(size)[0] != '+');
    assert((seq!['-'] + decimal(size)).skip(1) =~= decimal(size));
    assert((seq!['+'] + decimal(size)).skip(1) =~= decimal(size));
}

/// Only digits behind at most one sign are read as a number.
pub proof fn only_digits_are_read(s: Seq<char>, i: int)
    requires
        0 <= i < s.len(),
        !('0' <= s[i] <= '9'),
        i > 0 || s[0] != '+' && s[0] != '-' || s.len() == 1,
    ensures
        integer_value(s) is Err,
{
    if s[0] == '+' || s[0] == '-' {
        if s.len() > 1 {
            assert(s.skip(1)[i - 1] == s[i]);
            lemma_digits_only(s.skip(1), s[0] == '-', 0, i - 1);
        }
    } else {
        lemma_digits_only(s, false, 0, i);
    }
}

proof fn lemma_digits_only(digits: Seq<char>, negative: bool, value: int, i: int)
    requires
        0 <= i < digits.len(),
        !('0' <= digits[i] <= '9'),
    ensures
        digits_value(digits, negative, value) is Err,
    decreases digits.len(),
{
    if i > 0 && is_digit(digits[0]) {
        let n = digits[0] as int - '0' as int;
        let next = if negative {
            value * 10 - n
        } else {
            value * 10 + n
        };
        assert(digits.skip(1)[i - 1] == digits[i]);
        lemma_digits_only(digits.skip(1), negative, next, i - 1);
    }
}

proof fn lemma_find_shifts(s: Seq<char>, c: char, k: int, from: int)
    requires
        0 <= k <= s.len(),
        0 <= from <= s.len() - k,
    ensures
        find_char(s, c, k + from) == k + find_char(s.skip(k), c, from),
    decreases s.len() - k - from,
{
    if k + from < s.len() {
        assert(s.skip(k)[from] == s[k + from]);
        if s[k + from] != c {
            lemma_find_shifts(s, c, k, from + 1);
        }
    }
}

proof fn lemma_lines_shift(s: Seq<char>, k: int, from: int)
    requires
        0 <= k <= s.len(),
        0 <= from <= s.len() - k,
    ensures
        lines_from(s, k + from) == lines_from(s.skip(k), from),
    decreases s.len() - k - from,
{
    let rest = s.skip(k);
    if k + from < s.len() {
        lemma_find_shifts(s, '\n', k, from);
        find_char_is_first(s, '\n', k + from);
        let end = find_char(rest, '\n', from);
        assert(s.skip(k + from) =~= rest.skip(from));
        if end < rest.len() {
            assert(s.subrange(k + from, k + end) =~= rest.subrange(from, end));
            lemma_lines_shift(s, k, end + 1);
        }
    }
}

/// Lines are read one by one: what stands before the first newline is the first
/// line, but for a carriage return right before it, and the rest is read on its
/// own. A text without a newline is one line, unless it is empty.
pub proof fn lines_are_read_one_by_one(line: Seq<char>, rest: Seq<char>)
    requires
        forall|i: int| 0 <= i < line.len() ==> #[trigger] line[i] != '\n',
    ensures
        lines(line + seq!['\n'] + rest) == seq![
            if line.len() > 0 && line.last() == '\r' {
                line.drop_last()
            } else {
                line
            },
        ] + lines(rest),
        line.len() > 0 ==> lines(line) == seq![line],
        lines(Seq::empty()) == Seq::<Seq<char>>::empty(),
{
    let all = line + seq!['\n'] + rest;
    let end = line.len() as int;
    find_char_is_first(all, '\n', 0);
    let found = find_char(all, '\n', 0);
    assert(all[end] == '\n');
    if found < end {
        assert(all[found] == line[found]);
    }
    assert(found == end);
    assert(all.subrange(0, end) =~= line);
    lemma_lines_shift(all, end + 1, 0);
    assert(all.skip(end + 1) =~= rest);
    find_char_is_first(line, '\n', 0);
    if line.len() > 0 {
        let at = find_char(line, '\n', 0);
        assert(at == line.len());
        assert(line.skip(0) =~= line);
    }
}

/// Parts are put together with the separator between any two of them, and with
/// nothing around them.
pub proof fn joining_separates(parts: Seq<Seq<char>>, more: Seq<char>, separator: Seq<char>)
    ensures
        joined(seq![more], separator) == more,
        parts.len() > 0 ==> joined(parts.push(more), separator) == joined(parts, separator)
            + separator + more,
        joined(Seq::empty(), separator) == Seq::<char>::empty(),
{
    assert(parts.push(more).drop_last() =~= parts);
}

/// Digits in two portions are read as in one: the second is read on from what the
/// first comes to.
proof fn lemma_digits_concat(first: Seq<char>, second: Seq<char>, negative: bool, value: int)
    ensures
        digits_value(first + second, negative, value) == match digits_value(
            first,
            negative,
            value,
        ) {
            Ok(v) => digits_value(second, negative, v),
            Err(error) => Err(error),
        },
    decreases first.len(),
{
    let all = first + second;
    if first.len() == 0 {
        assert(all =~= second);
    } else {
        assert(all[0] == first[0]);
        assert(all.skip(1) =~= first.skip(1) + second);
        let d = first[0] as int - '0' as int;
        let next = if negative {
            value * 10 - d
        } else {
            value * 10 + d
        };
        lemma_digits_concat(first.skip(1), second, negative, next);
    }
}

proof fn lemma_decimal_too_far(n: nat, negative: bool)
    requires
        n > i64::MAX,
        negative ==> n > i64::MAX + 1,
    ensures
        digits_value(decimal(n), negative, 0) == Err::<int, IntegerError>(
            if negative {
                IntegerError::TooSmall
            } else {
                IntegerError::TooLarge
            },
        ),
    decreases n,
{
    numbers_are_written_digit_by_digit(n);
    let last = seq![digit(n % 10)];
    assert(decimal(n) =~= decimal(n / 10) + last);
    lemma_digits_concat(decimal(n / 10), last, negative, 0);
    if n / 10 > i64::MAX && (negative ==> n / 10 > i64::MAX + 1) {
        lemma_decimal_too_far(n / 10, negative);
    } else {
        lemma_decimal_value(n / 10, negative);
        assert(last[0] == digit(n % 10));
    }
}

/// A number that does not fit into sixty-four bits is said to be too large, or too
/// small where it is negative.
pub proof fn numbers_out_of_range_are_told_apart(n: int)
    ensures
        n > i64::MAX ==> integer_value(signed_decimal(n)) == Err::<int, IntegerError>(
            IntegerError::TooLarge,
        ),
        n < i64::MIN ==> integer_value(signed_decimal(n)) == Err::<int, IntegerError>(
            IntegerError::TooSmall,
        ),
{
    let size = if n < 0 {
        (-n) as nat
    } else {
        n as nat
    };
    numbers_are_written_digit_by_digit(size);
    assert(decimal(size)[0] != '-' && decimal(size)[0] != '+');
    assert((seq!['-'] + decimal(size)).skip(1) =~= decimal(size));
    if n > i64::MAX || n < i64::MIN {
        lemma_decimal_too_far(size, n < 0);
    }
}

/// What is not a number is told by what first stands in the way: nothing at all, a
/// sign alone, or a character behind a number that is no digit.
pub proof fn what_is_no_number_is_told(n: nat, c: char, rest: Seq<char>)
    requires
        n <= i64::MAX,
        !('0' <= c <= '9'),
    ensures
        integer_value(Seq::empty()) == Err::<int, IntegerError>(IntegerError::Empty),
        integer_value(seq!['+']) == Err::<int, IntegerError>(IntegerError::InvalidDigit),
        integer_value(seq!['-']) == Err::<int, IntegerError>(IntegerError::InvalidDigit),
        integer_value(decimal(n) + (seq![c] + rest)) == Err::<int, IntegerError>(
            IntegerError::InvalidDigit,
        ),
        IntegerError::Empty.spoken() == "cannot parse integer from empty string"@,
        IntegerError::InvalidDigit.spoken() == "invalid digit found in string"@,
        IntegerError::TooLarge.spoken() == "number too large to fit in target type"@,
        IntegerError::TooSmall.spoken() == "number too small to fit in target type"@,
{
    let after = seq![c] + rest;
    numbers_are_written_digit_by_digit(n);
    lemma_decimal_value(n, false);
    lemma_digits_concat(decimal(n), after, false, 0);
    assert(after[0] == c);
    assert((decimal(n) + after)[0] == decimal(n)[0]);
    assert(decimal(n)[0] != '-' && decimal(n)[0] != '+');
}

/// A list of strings is seen as their contents, one by one, and an optional string
/// as its contents, where it is there.
pub proof fn strings_are_seen_by_their_contents(list: Seq<String>, i: int, s: String)
    requires
        0 <= i < list.len(),
    ensures
        texts(list).len() == list.len(),
        texts(list)[i] == list[i]@,
        text_option(Some(s)) == Some(s@),
        text_option(None) is None,
{
}

} // verus!
