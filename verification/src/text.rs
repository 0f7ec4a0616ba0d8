//! Text: decimal numbers, comparison, splitting, and cleaning of names.

use vstd::prelude::*;

verus! {

/// Specifies `String::push`: it appends the character to the end of the text.
pub assume_specification[ String::push ](s: &mut String, c: char)
    ensures
        final(s)@ == old(s)@.push(c),
;

/// The character of a decimal digit.
pub open spec fn digit_char(d: int) -> char {
    ('0' as int + d) as char
}

/// Whether a character is a decimal digit.
pub open spec fn is_digit(c: char) -> bool {
    '0' <= c && c <= '9'
}

/// The decimal text of a number, without leading zeros.
pub open spec fn decimal(n: nat) -> Seq<char>
    decreases n,
{
    if n < 10 {
        seq![digit_char(n as int)]
    } else {
        decimal(n / 10).push(digit_char((n % 10) as int))
    }
}

/// The number that a sequence of digits denotes.
pub open spec fn digits_value(s: Seq<char>) -> nat
    decreases s.len(),
{
    if s.len() == 0 {
        0
    } else {
        (digits_value(s.drop_last()) * 10 + (s.last() as int - '0' as int)) as nat
    }
}

/// Whether every character is a decimal digit.
pub open spec fn all_digits(s: Seq<char>) -> bool {
    forall|i: int| 0 <= i < s.len() ==> is_digit(#[trigger] s[i])
}

/// The number that a text denotes: an optional plus sign, then digits and nothing
/// else, not above the limit.
pub open spec fn parsed_number(s: Seq<char>, limit: nat) -> Option<nat> {
    let digits = if s.len() > 0 && s[0] == '+' {
        s.drop_first()
    } else {
        s
    };
    if digits.len() > 0 && all_digits(digits) && digits_value(digits) <= limit {
        Some(digits_value(digits))
    } else {
        None
    }
}

/// The part of a text before the first separator; all of it where there is none.
pub open spec fn before(s: Seq<char>, separator: char) -> Seq<char>
    decreases s.len(),
{
    if s.len() == 0 || s[0] == separator {
        Seq::empty()
    } else {
        seq![s[0]] + before(s.drop_first(), separator)
    }
}

/// The parts of a text between separators, in order.
pub open spec fn split_on(s: Seq<char>, separator: char) -> Seq<Seq<char>>
    decreases s.len(),
{
    let head = before(s, separator);
    if head.len() < s.len() {
        seq![head] + split_on(s.skip(head.len() as int + 1), separator)
    } else {
        seq![s]
    }
}

/// Parts put together with a separator between each two of them.
pub open spec fn joined(parts: Seq<Seq<char>>, separator: Seq<char>) -> Seq<char>
    decreases parts.len(),
{
    if parts.len() == 0 {
        Seq::empty()
    } else if parts.len() == 1 {
        parts[0]
    } else {
        joined(parts.drop_last(), separator) + separator + parts.last()
    }
}

/// The texts of a list.
pub open spec fn texts(list: Seq<String>) -> Seq<Seq<char>> {
    list.map_values(|s: String| s@)
}

/// A character with an ASCII capital turned into its small letter.
pub open spec fn ascii_lower(c: char) -> char {
    if 'A' <= c && c <= 'Z' {
        (c as int + 32) as char
    } else {
        c
    }
}

/// Whether two texts are the same but for the case of ASCII letters.
pub open spec fn same_ignoring_case(a: Seq<char>, b: Seq<char>) -> bool {
    &&& a.len() == b.len()
    &&& forall|i: int| 0 <= i < a.len() ==> ascii_lower(#[trigger] a[i]) == ascii_lower(b[i])
}

/// Whether a character has the Unicode property White_Space.
pub open spec fn is_white_space(c: char) -> bool {
    let n = c as int;
    ||| 0x9 <= n <= 0xd
    ||| n == 0x20
    ||| n == 0x85
    ||| n == 0xa0
    ||| n == 0x1680
    ||| 0x2000 <= n <= 0x200a
    ||| n == 0x2028
    ||| n == 0x2029
    ||| n == 0x202f
    ||| n == 0x205f
    ||| n == 0x3000
}

/// Whether a text holds nothing but white space.
pub open spec fn is_blank(s: Seq<char>) -> bool {
    forall|i: int| 0 <= i < s.len() ==> is_white_space(#[trigger] s[i])
}

/// A character with tab, line feed and carriage return turned into a space.
pub open spec fn sanitized_char(c: char) -> char {
    if c == '\t' || c == '\n' || c == '\r' {
        ' '
    } else {
        c
    }
}

/// A text with every tab, line feed and carriage return turned into a space.
pub open spec fn sanitized(s: Seq<char>) -> Seq<char> {
    s.map_values(|c: char| sanitized_char(c))
}

/// The characters of a text.
pub fn chars_of(s: &str) -> (chars: Vec<char>)
    ensures
        chars@ == s@,
{
    let mut chars: Vec<char> = Vec::new();
    for c in it: s.chars()
        invariant
            it.seq() == s@,
            chars@ == it.seq().take(it.index() as int),
    {
        chars.push(c);
    }
    chars
}

/// The decimal text of a number.
pub fn decimal_text(n: u128) -> (s: String)
    ensures
        s@ == decimal(n as nat),
    decreases n,
{
    let digit: char = (48u8 + (n % 10) as u8) as char;
    if n < 10 {
        let mut s = String::new();
        s.push(digit);
        s
    } else {
        let mut s = decimal_text(n / 10);
        s.push(digit);
        s
    }
}

/// Whether two texts are the same.
pub fn same_text(a: &str, b: &str) -> (same: bool)
    ensures
        same == (a@ == b@),
{
    let x = a.as_bytes();
    let y = b.as_bytes();
    if x.len() != y.len() {
        return false;
    }
    let mut i: usize = 0;
    while i < x.len()
        invariant
            x@ == vstd::utf8::encode_utf8(a@),
            y@ == vstd::utf8::encode_utf8(b@),
            x@.len() == y@.len(),
            i <= x@.len(),
            forall|j: int| 0 <= j < i ==> x@[j] == y@[j],
        decreases x@.len() - i,
    {
        if x[i] != y[i] {
            return false;
        }
        i += 1;
    }
    proof {
        assert(x@ =~= y@);
        vstd::utf8::encode_utf8_decode_utf8(a@);
        vstd::utf8::encode_utf8_decode_utf8(b@);
    }
    true
}

/// Whether two texts are the same but for the case of ASCII letters.
pub fn eq_ignore_ascii_case(a: &str, b: &str) -> (same: bool)
    ensures
        same == same_ignoring_case(a@, b@),
{
    let x = chars_of(a);
    let y = chars_of(b);
    if x.len() != y.len() {
        return false;
    }
    let mut i: usize = 0;
    while i < x.len()
        invariant
            x@ == a@,
            y@ == b@,
            x.len() == y.len(),
            i <= x.len(),
            forall|j: int| 0 <= j < i ==> ascii_lower(#[trigger] x@[j]) == ascii_lower(y@[j]),
        decreases x.len() - i,
    {
        if lower_char(x[i]) != lower_char(y[i]) {
            assert(ascii_lower(a@[i as int]) != ascii_lower(b@[i as int]));
            return false;
        }
        i += 1;
    }
    true
}

fn lower_char(c: char) -> (lower: char)
    ensures
        lower == ascii_lower(c),
{
    if 'A' <= c && c <= 'Z' {
        (c as u8 + 32) as char
    } else {
        c
    }
}

/// Whether a text holds nothing but white space.
pub fn blank(s: &str) -> (blank: bool)
    ensures
        blank == is_blank(s@),
{
    let chars = chars_of(s);
    let mut i: usize = 0;
    while i < chars.len()
        invariant
            chars@ == s@,
            i <= chars.len(),
            forall|j: int| 0 <= j < i ==> is_white_space(#[trigger] chars@[j]),
        decreases chars.len() - i,
    {
        if !white_space(chars[i]) {
            assert(!is_white_space(s@[i as int]));
            return false;
        }
        i += 1;
    }
    true
}

fn white_space(c: char) -> (white: bool)
    ensures
        white == is_white_space(c),
{
    let n: u32 = c as u32;
    (0x9 <= n && n <= 0xd) || n == 0x20 || n == 0x85 || n == 0xa0 || n == 0x1680 || (0x2000 <= n
        && n <= 0x200a) || n == 0x2028 || n == 0x2029 || n == 0x202f || n == 0x205f || n == 0x3000
}

/// Makes a name safe for a table: every tab, line feed and carriage return becomes
/// a space, so that a stray name cannot break a row.
pub fn sanitize(value: &str) -> (clean: String)
    ensures
        clean@ == sanitized(value@),
{
    let chars = chars_of(value);
    let mut clean = String::new();
    let mut i: usize = 0;
    while i < chars.len()
        invariant
            chars@ == value@,
            i <= chars.len(),
            clean@ == sanitized(value@.take(i as int)),
        decreases chars.len() - i,
    {
        let c = chars[i];
        if c == '\t' || c == '\n' || c == '\r' {
            clean.push(' ');
        } else {
            clean.push(c);
        }
        i += 1;
        assert(value@.take(i as int) == value@.take(i - 1).push(c));
    }
    assert(value@.take(i as int) == value@);
    clean
}

/// Puts texts together with a separator between each two of them.
pub fn join(parts: &Vec<String>, separator: &str) -> (all: String)
    ensures
        all@ == joined(texts(parts@), separator@),
{
    let mut all = String::new();
    let mut i: usize = 0;
    while i < parts.len()
        invariant
            i <= parts.len(),
            all@ == joined(texts(parts@).take(i as int), separator@),
        decreases parts.len() - i,
    {
        let ghost so_far = texts(parts@).take(i as int);
        let ghost with_next = texts(parts@).take(i + 1);
        assert(with_next.drop_last() == so_far);
        if i > 0 {
            all.append(separator);
        }
        all.append(parts[i].as_str());
        i += 1;
    }
    assert(texts(parts@).take(i as int) == texts(parts@));
    all
}

/// Reads a whole number: an optional plus sign, then digits and nothing else.
pub fn parse_u64(chars: &Vec<char>) -> (number: Option<u64>)
    ensures
        match number {
            Some(n) => parsed_number(chars@, u64::MAX as nat) == Some(n as nat),
            None => parsed_number(chars@, u64::MAX as nat) is None,
        },
{
    let start: usize = if chars.len() > 0 && chars[0] == '+' {
        1
    } else {
        0
    };
    let ghost digits = chars@.skip(start as int);
    assert(start == 0 ==> digits == chars@);
    if start == chars.len() {
        return None;
    }
    let mut n: u64 = 0;
    let mut i: usize = start;
    while i < chars.len()
        invariant
            start <= i <= chars.len(),
            digits == chars@.skip(start as int),
            all_digits(digits.take(i - start)),
            n == digits_value(digits.take(i - start)),
            parsed_number(chars@, u64::MAX as nat) == (if digits.len() > 0 && all_digits(digits)
                && digits_value(digits) <= u64::MAX {
                Some(digits_value(digits))
            } else {
                None
            }),
        decreases chars.len() - i,
    {
        let c = chars[i];
        let ghost k = i - start;
        assert(digits[k] == c);
        if !('0' <= c && c <= '9') {
            return None;
        }
        let d: u64 = (c as u64) - 48;
        proof {
            assert(digits.take(k + 1).drop_last() == digits.take(k));
            lemma_digits_value_grows(digits, k + 1);
        }
        if n > (u64::MAX - d) / 10 {
            return None;
        }
        n = n * 10 + d;
        i += 1;
    }
    assert(digits.take(i - start) == digits);
    Some(n)
}

/// A sequence of digits denotes no less than any of its beginnings.
proof fn lemma_digits_value_grows(s: Seq<char>, k: int)
    requires
        0 <= k <= s.len(),
    ensures
        all_digits(s) ==> digits_value(s.take(k)) <= digits_value(s),
    decreases s.len() - k,
{
    if k < s.len() {
        lemma_digits_value_grows(s, k + 1);
        assert(s.take(k + 1).drop_last() == s.take(k));
    } else {
        assert(s.take(k) == s);
    }
}

/// The part of a text before the first separator.
pub fn part_before(s: &str, separator: char) -> (part: Vec<char>)
    ensures
        part@ == before(s@, separator),
{
    let chars = chars_of(s);
    let mut part: Vec<char> = Vec::new();
    let mut i: usize = 0;
    assert(chars@.skip(0) == chars@);
    while i < chars.len()
        invariant
            chars@ == s@,
            i <= chars.len(),
            part@ + before(chars@.skip(i as int), separator) == before(s@, separator),
        decreases chars.len() - i,
    {
        assert(chars@.skip(i as int).drop_first() == chars@.skip(i + 1));
        if chars[i] == separator {
            return part;
        }
        part.push(chars[i]);
        i += 1;
    }
    part
}

/// Whether a text begins with another.
pub fn starts_with(s: &str, beginning: &str) -> (starts: bool)
    ensures
        starts == beginning@.is_prefix_of(s@),
{
    let mut rest = s.chars();
    let ghost mut i: int = 0;
    for c in it: beginning.chars()
        invariant
            it.seq() == beginning@,
            i == it.index(),
            i <= s@.len(),
            vstd::std_specs::iter::IteratorSpec::obeys_prophetic_iter_laws(&rest),
            vstd::std_specs::iter::IteratorSpec::remaining(&rest) == s@.skip(i),
            beginning@.take(i) == s@.take(i),
    {
        assert(beginning@[i] == c);
        match rest.next() {
            Some(d) => {
                assert(s@[i] == d);
                if c != d {
                    return false;
                }
            },
            None => {
                return false;
            },
        }
        proof {
            assert(beginning@.take(i + 1) == beginning@.take(i).push(c));
            assert(s@.take(i + 1) == s@.take(i).push(c));
            i = i + 1;
        }
    }
    assert(beginning@.take(i) == beginning@);
    true
}

/// The decimal text of a number is made of digits, at least one, and denotes the
/// number.
pub proof fn law_decimal_reads_back(n: nat)
    ensures
        decimal(n).len() > 0,
        all_digits(decimal(n)),
        digits_value(decimal(n)) == n,
    decreases n,
{
    if n >= 10 {
        law_decimal_reads_back(n / 10);
        assert(decimal(n).drop_last() == decimal(n / 10));
    } else {
        assert(decimal(n).drop_last() == Seq::<char>::empty());
        assert(digits_value(Seq::<char>::empty()) == 0);
    }
}

/// A text that a separator follows, where it does not hold the separator, is what
/// stands before the first separator.
pub(crate) proof fn lemma_before(x: Seq<char>, y: Seq<char>, separator: char)
    requires
        !x.contains(separator),
    ensures
        before(x + seq![separator] + y, separator) == x,
    decreases x.len(),
{
    let all = x + seq![separator] + y;
    if x.len() > 0 {
        assert(x[0] != separator);
        assert forall|c: char| x.drop_first().contains(c) implies x.contains(c) by {
            let i = choose|i: int| 0 <= i < x.drop_first().len() && x.drop_first()[i] == c;
            assert(x[i + 1] == c);
        }
        lemma_before(x.drop_first(), y, separator);
        assert(all.drop_first() =~= x.drop_first() + seq![separator] + y);
        assert(seq![x[0]] + x.drop_first() =~= x);
    }
}

/// All of a text stands before the first separator where it does not hold it.
pub(crate) proof fn lemma_before_all(x: Seq<char>, separator: char)
    requires
        !x.contains(separator),
    ensures
        before(x, separator) == x,
    decreases x.len(),
{
    if x.len() > 0 {
        assert(x[0] != separator);
        assert forall|c: char| x.drop_first().contains(c) implies x.contains(c) by {
            let i = choose|i: int| 0 <= i < x.drop_first().len() && x.drop_first()[i] == c;
            assert(x[i + 1] == c);
        }
        lemma_before_all(x.drop_first(), separator);
        assert(seq![x[0]] + x.drop_first() =~= x);
    }
}

/// Where a text does not hold the separator, it is the first part of what begins
/// with it and the separator.
pub(crate) proof fn lemma_split(x: Seq<char>, y: Seq<char>, separator: char)
    requires
        !x.contains(separator),
    ensures
        split_on(x + seq![separator] + y, separator) == seq![x] + split_on(y, separator),
{
    let all = x + seq![separator] + y;
    lemma_before(x, y, separator);
    assert(all.skip(x.len() as int + 1) =~= y);
}

/// Digits hold no other character.
pub(crate) proof fn lemma_digits_hold_no_other(s: Seq<char>, c: char)
    requires
        all_digits(s),
        !is_digit(c),
    ensures
        !s.contains(c),
{
    if s.contains(c) {
        let i = choose|i: int| 0 <= i < s.len() && s[i] == c;
        assert(is_digit(s[i]));
    }
}

/// What a list holds after one more part is put at its end.
pub(crate) proof fn lemma_push_contains(list: Seq<Seq<char>>, part: Seq<char>)
    ensures
        forall|p: Seq<char>| #[trigger]
            list.push(part).contains(p) <==> (list.contains(p) || p == part),
{
    assert forall|p: Seq<char>| #[trigger] list.push(part).contains(p) <==> (list.contains(p) || p
        == part) by {
        if list.contains(p) {
            let j = choose|j: int| 0 <= j < list.len() && list[j] == p;
            assert(list.push(part)[j] == p);
        }
        assert(list.push(part)[list.len() as int] == part);
    }
}

/// The decimal text of a number has no leading zero, and the digits of a number above
/// nine are those of its tenth part and one more.
pub proof fn law_decimal_has_no_leading_zero(n: nat)
    ensures
        decimal(n).len() > 1 <==> n >= 10,
        n >= 1 ==> decimal(n)[0] != '0',
    decreases n,
{
    if n >= 10 {
        law_decimal_has_no_leading_zero(n / 10);
        law_decimal_reads_back(n / 10);
        assert(decimal(n)[0] == decimal(n / 10)[0]);
    }
}

/// Each digit that is put at the end of a number makes it ten times as large and adds
/// its own value.
pub proof fn law_digits_count_by_place(s: Seq<char>, c: char)
    requires
        '0' <= c && c <= '9',
    ensures
        digits_value(Seq::empty()) == 0,
        digits_value(s.push(c)) == 10 * digits_value(s) + (c as int - '0' as int),
{
    assert(s.push(c).drop_last() == s);
}

/// A text is read as a number exactly where it holds digits and nothing else, at least
/// one, and the number is not above the limit. One plus sign in front changes nothing.
pub proof fn law_numbers_are_read(s: Seq<char>, limit: nat)
    requires
        s.len() > 0 ==> s[0] != '+',
    ensures
        parsed_number(s, limit) is Some <==> s.len() > 0 && (forall|i: int|
            0 <= i < s.len() ==> '0' <= #[trigger] s[i] && s[i] <= '9') && digits_value(s) <= limit,
        parsed_number(s, limit) is Some ==> parsed_number(s, limit) == Some(digits_value(s)),
        parsed_number(seq!['+'] + s, limit) == parsed_number(s, limit),
{
    assert((seq!['+'] + s).drop_first() =~= s);
    if all_digits(s) {
        assert forall|i: int| 0 <= i < s.len() implies '0' <= #[trigger] s[i] && s[i] <= '9' by {
            assert(is_digit(s[i]));
        }
    }
}

/// What stands before the first separator is a beginning of the text that does not hold
/// the separator, and the separator or the end of the text follows.
pub proof fn law_before_ends_at_the_first_separator(s: Seq<char>, separator: char)
    ensures
        before(s, separator).len() <= s.len(),
        before(s, separator) == s.take(before(s, separator).len() as int),
        !before(s, separator).contains(separator),
        before(s, separator).len() < s.len() ==> s[before(s, separator).len() as int] == separator,
    decreases s.len(),
{
    let head = before(s, separator);
    if s.len() > 0 && s[0] != separator {
        let rest = s.drop_first();
        let tail = before(rest, separator);
        law_before_ends_at_the_first_separator(rest, separator);
        assert(head =~= s.take(head.len() as int)) by {
            assert forall|i: int| 0 <= i < head.len() implies head[i] == s[i] by {
                if i > 0 {
                    assert(tail[i - 1] == rest.take(tail.len() as int)[i - 1]);
                }
            }
        }
        if head.contains(separator) {
            let i = choose|i: int| 0 <= i < head.len() && head[i] == separator;
            assert(tail[i - 1] == separator);
        }
        if head.len() < s.len() {
            assert(rest[tail.len() as int] == s[head.len() as int]);
        }
    }
}

/// To put texts together is to put the first of them together, then a separator, then
/// the rest put together. One text is left as it is, and none give an empty text.
pub proof fn law_texts_are_put_together(
    parts: Seq<Seq<char>>,
    others: Seq<Seq<char>>,
    separator: Seq<char>,
    part: Seq<char>,
)
    ensures
        joined(Seq::empty(), separator) == Seq::<char>::empty(),
        joined(seq![part], separator) == part,
        parts.len() > 0 && others.len() > 0 ==> joined(parts + others, separator) == joined(
            parts,
            separator,
        ) + separator + joined(others, separator),
    decreases others.len(),
{
    if parts.len() > 0 && others.len() > 0 {
        let all = parts + others;
        assert(all.drop_last() =~= parts + others.drop_last());
        assert(all.last() == others.last());
        if others.len() == 1 {
            assert(parts + others.drop_last() =~= parts);
        } else {
            law_texts_are_put_together(parts, others.drop_last(), separator, part);
            assert(joined(all, separator) =~= joined(parts, separator) + separator + (joined(
                others.drop_last(),
                separator,
            ) + separator + others.last()));
        }
    }
}

/// The parts of a text hold no separator, and put together with it they are the text.
pub proof fn law_parts_make_up_the_text(s: Seq<char>, separator: char)
    ensures
        split_on(s, separator).len() > 0,
        joined(split_on(s, separator), seq![separator]) == s,
        forall|i: int|
            0 <= i < split_on(s, separator).len() ==> !(#[trigger] split_on(s, separator)[i]).contains(
                separator,
            ),
    decreases s.len(),
{
    let head = before(s, separator);
    let parts = split_on(s, separator);
    law_before_ends_at_the_first_separator(s, separator);
    if head.len() < s.len() {
        let rest = s.skip(head.len() as int + 1);
        law_parts_make_up_the_text(rest, separator);
        law_texts_are_put_together(seq![head], split_on(rest, separator), seq![separator], head);
        assert(s =~= head + seq![separator] + rest);
        assert forall|i: int| 0 <= i < parts.len() implies !(#[trigger] parts[i]).contains(
            separator,
        ) by {
            if i > 0 {
                assert(parts[i] == split_on(rest, separator)[i - 1]);
            }
        }
    } else {
        assert(head =~= s);
        law_texts_are_put_together(Seq::empty(), Seq::empty(), seq![separator], s);
    }
}

/// Two texts are the same but for the case exactly where they are as long as each other
/// and at each place hold the same character, or the capital and the small form of one
/// letter from A to Z.
pub proof fn law_only_case_is_ignored(a: Seq<char>, b: Seq<char>)
    ensures
        same_ignoring_case(a, b) <==> a.len() == b.len() && forall|i: int|
            0 <= i < a.len() ==> {
                ||| #[trigger] a[i] == b[i]
                ||| 'A' <= a[i] && a[i] <= 'Z' && b[i] as int == a[i] as int + 32
                ||| 'A' <= b[i] && b[i] <= 'Z' && a[i] as int == b[i] as int + 32
            },
{
    if same_ignoring_case(a, b) {
        assert forall|i: int| 0 <= i < a.len() implies {
            ||| #[trigger] a[i] == b[i]
            ||| 'A' <= a[i] && a[i] <= 'Z' && b[i] as int == a[i] as int + 32
            ||| 'A' <= b[i] && b[i] <= 'Z' && a[i] as int == b[i] as int + 32
        } by {
            assert(ascii_lower(a[i]) == ascii_lower(b[i]));
        }
    }
}

/// The code points with the Unicode property White_Space.
pub open spec fn white_space_points() -> Seq<int> {
    seq![
        0x9, 0xa, 0xb, 0xc, 0xd, 0x20, 0x85, 0xa0, 0x1680, 0x2000, 0x2001, 0x2002, 0x2003, 0x2004,
        0x2005, 0x2006, 0x2007, 0x2008, 0x2009, 0x200a, 0x2028, 0x2029, 0x202f, 0x205f, 0x3000,
    ]
}

/// A text is blank exactly where each of its characters is white space, and one that a
/// printed character stands in is not.
pub proof fn law_blank_texts_show_nothing(s: Seq<char>, c: char)
    ensures
        is_blank(s) <==> !exists|i: int| 0 <= i < s.len() && !is_white_space(#[trigger] s[i]),
        is_blank(s.push(c)) <==> is_blank(s) && is_white_space(c),
        is_white_space(c) <==> white_space_points().contains(c as int),
        '!' <= c && c <= '~' ==> !is_white_space(c),
{
    if is_blank(s.push(c)) {
        assert forall|i: int| 0 <= i < s.len() implies is_white_space(#[trigger] s[i]) by {
            assert(s.push(c)[i] == s[i]);
        }
        assert(s.push(c)[s.len() as int] == c);
    }
    let points = white_space_points();
    if is_white_space(c) {
        let n = c as int;
        let k: int = if n <= 0xd {
            n - 0x9
        } else if n == 0x20 {
            5
        } else if n == 0x85 {
            6
        } else if n == 0xa0 {
            7
        } else if n == 0x1680 {
            8
        } else if n <= 0x200a {
            n - 0x2000 + 9
        } else if n == 0x2028 {
            20
        } else if n == 0x2029 {
            21
        } else if n == 0x202f {
            22
        } else if n == 0x205f {
            23
        } else {
            24
        };
        assert(points[k] == n);
    }
}

/// To clean a name is to turn each tab, line feed and carriage return into a space, in
/// its place, and to leave every other character.
pub proof fn law_cleaning_goes_by_character(name: Seq<char>, i: int)
    requires
        0 <= i < name.len(),
    ensures
        sanitized(name).len() == name.len(),
        name[i] == '\t' || name[i] == '\n' || name[i] == '\r' ==> sanitized(name)[i] == ' ',
        name[i] != '\t' && name[i] != '\n' && name[i] != '\r' ==> sanitized(name)[i] == name[i],
{
}

/// The texts of a list are those of its items, one for each, in their order.
pub proof fn law_texts_keep_their_places(list: Seq<String>, i: int)
    requires
        0 <= i < list.len(),
    ensures
        texts(list).len() == list.len(),
        texts(list)[i] == list[i]@,
{
}

} // verus!
