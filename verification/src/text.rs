//! Text as a sequence of characters: decimal numbers, trimming, splitting and byte bounds.

use vstd::prelude::*;
use vstd::utf8::*;

verus! {

/// `String::push` of the standard library: appends one character to the end.
pub assume_specification[ String::push ](s: &mut String, c: char)
    ensures
        final(s)@ == old(s)@.push(c),
;

/// The number of bytes that a text takes in UTF-8.
pub open spec fn utf8_len(s: Seq<char>) -> nat {
    encode_utf8(s).len()
}

/// The number of bytes that one character takes in UTF-8.
pub open spec fn char_len(c: char) -> nat {
    encode_scalar(c as u32).len()
}

/// The longest prefix of `s` that takes at most `bytes` bytes in UTF-8.
pub open spec fn bounded_text(s: Seq<char>, bytes: nat) -> Seq<char>
    decreases s.len(),
{
    if s.len() == 0 || char_len(s[0]) > bytes {
        Seq::empty()
    } else {
        seq![s[0]] + bounded_text(s.drop_first(), (bytes - char_len(s[0])) as nat)
    }
}

pub proof fn lemma_utf8_len_concat(a: Seq<char>, b: Seq<char>)
    ensures
        utf8_len(a + b) == utf8_len(a) + utf8_len(b),
    decreases a.len(),
{
    if a.len() == 0 {
        assert(a + b =~= b);
    } else {
        assert((a + b).drop_first() =~= a.drop_first() + b);
        lemma_utf8_len_concat(a.drop_first(), b);
    }
}

/// A bounded text is a prefix within the bound, and no longer prefix is within it.
pub proof fn lemma_bounded_text(s: Seq<char>, bytes: nat)
    ensures
        bounded_text(s, bytes).len() <= s.len(),
        bounded_text(s, bytes) == s.take(bounded_text(s, bytes).len() as int),
        utf8_len(bounded_text(s, bytes)) <= bytes,
        bounded_text(s, bytes).len() < s.len() ==> utf8_len(
            s.take(bounded_text(s, bytes).len() as int + 1),
        ) > bytes,
    decreases s.len(),
{
    if s.len() == 0 {
        assert(s.take(0) =~= Seq::empty());
    } else if char_len(s[0]) > bytes {
        assert(s.take(0) =~= Seq::empty());
        assert(s.take(1).drop_first() =~= Seq::empty());
        assert(s.take(1)[0] == s[0]);
        assert(encode_utf8(s.take(1)) =~= encode_scalar(s[0] as u32) + encode_utf8(Seq::empty()));
    } else {
        let rest = s.drop_first();
        let left = (bytes - char_len(s[0])) as nat;
        lemma_bounded_text(rest, left);
        let tail = bounded_text(rest, left);
        let whole = bounded_text(s, bytes);
        assert(whole.drop_first() =~= tail);
        assert(whole =~= s.take(whole.len() as int));
        assert(utf8_len(whole) == char_len(s[0]) + utf8_len(tail));
        if whole.len() < s.len() {
            let longer = s.take(whole.len() as int + 1);
            assert(longer.drop_first() =~= rest.take(tail.len() as int + 1));
            assert(longer[0] == s[0]);
        }
    }
}

/// A text within the bound is kept whole.
pub proof fn lemma_bounded_text_whole(s: Seq<char>, bytes: nat)
    requires
        utf8_len(s) <= bytes,
    ensures
        bounded_text(s, bytes) == s,
{
    lemma_bounded_text(s, bytes);
    let n = bounded_text(s, bytes).len() as int;
    if n < s.len() {
        assert(s =~= s.take(n + 1) + s.skip(n + 1));
        lemma_utf8_len_concat(s.take(n + 1), s.skip(n + 1));
    }
    assert(s.take(s.len() as int) =~= s);
}

/// A prefix within the bound stays a prefix of the bounded text.
pub proof fn lemma_bounded_text_keeps_prefix(s: Seq<char>, prefix: int, bytes: nat)
    requires
        0 <= prefix <= s.len(),
        utf8_len(s.take(prefix)) <= bytes,
    ensures
        bounded_text(s, bytes).len() >= prefix,
        bounded_text(s, bytes).take(prefix) == s.take(prefix),
{
    lemma_bounded_text(s, bytes);
    let n = bounded_text(s, bytes).len() as int;
    if n < prefix {
        assert(s.take(prefix) =~= s.take(n + 1) + s.subrange(n + 1, prefix));
        lemma_utf8_len_concat(s.take(n + 1), s.subrange(n + 1, prefix));
    }
    assert(s.take(n).take(prefix) =~= s.take(prefix));
}

/// The last character boundary at or before `bytes` cuts a text where `bounded_text` does.
proof fn lemma_boundary_cut(s: Seq<char>, end: int, bytes: nat)
    requires
        0 <= end <= bytes,
        end <= utf8_len(s),
        is_char_boundary(encode_utf8(s), end),
        forall|j: int|
            end < j <= bytes && j <= utf8_len(s) ==> !is_char_boundary(encode_utf8(s), j),
    ensures
        encode_utf8(s).subrange(0, end) == encode_utf8(bounded_text(s, bytes)),
    decreases s.len(),
{
    encode_utf8_valid_utf8(s);
    let all = encode_utf8(s);
    if s.len() == 0 {
        assert(all.subrange(0, end) =~= Seq::empty());
    } else {
        encode_utf8_first_scalar(s);
        let rest = s.drop_first();
        let width = char_len(s[0]) as int;
        encode_utf8_valid_utf8(rest);
        assert(pop_first_scalar(all) =~= encode_utf8(rest));
        assert(length_of_first_scalar(all) == width);
        if width > bytes {
            if end > 0 {
                assert(is_char_boundary(encode_utf8(rest), end - width));
                assert(false);
            }
            assert(all.subrange(0, 0) =~= Seq::empty());
        } else {
            assert(is_char_boundary(all, width)) by {
                assert(is_char_boundary(encode_utf8(rest), 0));
                assert(width > 0);
            }
            assert(end >= width);
            assert forall|j: int|
                end - width < j <= bytes - width && j <= utf8_len(
                    rest,
                ) implies !is_char_boundary(encode_utf8(rest), j) by {
                assert(!is_char_boundary(all, j + width));
            }
            lemma_boundary_cut(rest, end - width, (bytes - width) as nat);
            let cut = bounded_text(s, bytes);
            assert(cut.drop_first() =~= bounded_text(rest, (bytes - width) as nat));
            assert(all.subrange(0, end) =~= encode_scalar(s[0] as u32) + encode_utf8(rest).subrange(
                0,
                end - width,
            ));
        }
    }
}

/// The longest prefix of `value` that takes at most `bytes` bytes.
pub fn bounded(value: &str, bytes: usize) -> (text: String)
    ensures
        text@ == bounded_text(value@, bytes as nat),
{
    let all: &[u8] = value.as_bytes();
    let mut end: usize = if all.len() < bytes {
        all.len()
    } else {
        bytes
    };
    let ghost start = end as int;
    proof {
        encode_utf8_valid_utf8(value@);
        is_char_boundary_start_end_of_seq(all@);
    }
    while !value.is_char_boundary(end)
        invariant
            0 <= end <= start,
            start <= bytes,
            start <= all@.len(),
            bytes <= start || all@.len() <= start,
            all@ == encode_utf8(value@),
            is_char_boundary(all@, 0),
            forall|j: int| end < j <= start ==> !is_char_boundary(all@, j),
        decreases end,
    {
        end = end - 1;
    }
    proof {
        lemma_boundary_cut(value@, end as int, bytes as nat);
    }
    let (head, _tail) = value.split_at(end);
    proof {
        encode_utf8_decode_utf8(head@);
        encode_utf8_decode_utf8(bounded_text(value@, bytes as nat));
    }
    head.to_owned()
}


/// The decimal digit of a number below ten.
pub open spec fn digit_char(d: nat) -> char {
    (48 + d) as char
}

/// A natural number in decimal, without leading zeros.
pub open spec fn decimal(n: nat) -> Seq<char>
    decreases n,
{
    if n < 10 {
        seq![digit_char(n)]
    } else {
        decimal(n / 10).push(digit_char(n % 10))
    }
}

/// An integer in decimal, with a minus sign where it is negative.
pub open spec fn integer_text(i: int) -> Seq<char> {
    if i < 0 {
        seq!['-'] + decimal((-i) as nat)
    } else {
        decimal(i as nat)
    }
}

/// A natural number in decimal, padded with a zero to two digits.
pub open spec fn two_digits(n: nat) -> Seq<char> {
    if n < 10 {
        seq!['0'] + decimal(n)
    } else {
        decimal(n)
    }
}

/// Appends a natural number in decimal.
pub fn push_decimal(out: &mut String, n: u64)
    ensures
        final(out)@ == old(out)@ + decimal(n as nat),
    decreases n,
{
    if n >= 10 {
        push_decimal(out, n / 10);
    }
    let digit: u8 = 48 + (n % 10) as u8;
    out.push(digit as char);
}

/// A natural number in decimal.
pub fn decimal_text(n: u64) -> (text: String)
    ensures
        text@ == decimal(n as nat),
{
    let mut text = String::new();
    push_decimal(&mut text, n);
    text
}

/// An integer in decimal.
pub fn signed_text(value: i64) -> (text: String)
    ensures
        text@ == integer_text(value as int),
{
    let mut text = String::new();
    if value < 0 {
        text.push('-');
        push_decimal(&mut text, (-(value as i128)) as u64);
    } else {
        push_decimal(&mut text, value as u64);
    }
    text
}

/// Appends a natural number in decimal, padded with a zero to two digits.
pub fn push_two_digits(out: &mut String, n: u64)
    ensures
        final(out)@ == old(out)@ + two_digits(n as nat),
{
    if n < 10 {
        out.push('0');
    }
    push_decimal(out, n);
}

/// The characters with the Unicode property `White_Space`.
pub open spec fn is_space(c: char) -> bool {
    let u = c as u32;
    ||| 0x9 <= u <= 0xd
    ||| u == 0x20
    ||| u == 0x85
    ||| u == 0xa0
    ||| u == 0x1680
    ||| 0x2000 <= u <= 0x200a
    ||| u == 0x2028
    ||| u == 0x2029
    ||| u == 0x202f
    ||| u == 0x205f
    ||| u == 0x3000
}

/// Whether a character has the Unicode property `White_Space`.
pub fn is_whitespace(c: char) -> (space: bool)
    ensures
        space == is_space(c),
{
    let u = c as u32;
    (0x9 <= u && u <= 0xd) || u == 0x20 || u == 0x85 || u == 0xa0 || u == 0x1680 || (0x2000 <= u
        && u <= 0x200a) || u == 0x2028 || u == 0x2029 || u == 0x202f || u == 0x205f || u == 0x3000
}

/// A text without its leading white space.
pub open spec fn trim_start(s: Seq<char>) -> Seq<char>
    decreases s.len(),
{
    if s.len() > 0 && is_space(s[0]) {
        trim_start(s.drop_first())
    } else {
        s
    }
}

/// A text without its trailing white space.
pub open spec fn trim_end(s: Seq<char>) -> Seq<char>
    decreases s.len(),
{
    if s.len() > 0 && is_space(s.last()) {
        trim_end(s.drop_last())
    } else {
        s
    }
}

/// A text without the white space at its ends.
pub open spec fn trimmed(s: Seq<char>) -> Seq<char> {
    trim_end(trim_start(s))
}

/// A text without the run of `c` at its end.
pub open spec fn trim_end_char(s: Seq<char>, c: char) -> Seq<char>
    decreases s.len(),
{
    if s.len() > 0 && s.last() == c {
        trim_end_char(s.drop_last(), c)
    } else {
        s
    }
}

/// Whether `s` begins with `prefix`.
pub open spec fn has_prefix(s: Seq<char>, prefix: Seq<char>) -> bool {
    prefix.len() <= s.len() && s.take(prefix.len() as int) == prefix
}

/// Whether `s` ends with `suffix`.
pub open spec fn has_suffix(s: Seq<char>, suffix: Seq<char>) -> bool {
    suffix.len() <= s.len() && s.skip(s.len() - suffix.len()) == suffix
}

/// Whether `part` stands in `s` at position `at`.
pub open spec fn occurs_at(s: Seq<char>, part: Seq<char>, at: int) -> bool {
    0 <= at && at + part.len() <= s.len() && s.subrange(at, at + part.len()) == part
}

/// The first position at or after `from` at which `part` stands in `s`.
pub open spec fn find_from(s: Seq<char>, part: Seq<char>, from: int) -> Option<int>
    decreases s.len() + 1 - from,
{
    if from + part.len() > s.len() {
        None
    } else if occurs_at(s, part, from) {
        Some(from)
    } else {
        find_from(s, part, from + 1)
    }
}

/// The pieces of `s` between the occurrences of `sep`; one more than there are occurrences.
pub open spec fn split_on(s: Seq<char>, sep: char) -> Seq<Seq<char>>
    decreases s.len(),
{
    if s.len() == 0 {
        seq![Seq::empty()]
    } else {
        let pieces = split_on(s.drop_last(), sep);
        if s.last() == sep {
            pieces.push(Seq::empty())
        } else {
            pieces.drop_last().push(pieces.last().push(s.last()))
        }
    }
}

/// The character sequences that a list of texts stands for.
pub open spec fn pieces_view(pieces: Seq<Vec<char>>) -> Seq<Seq<char>> {
    pieces.map_values(|piece: Vec<char>| piece@)
}

/// The characters of a text.
pub fn chars_of(text: &str) -> (chars: Vec<char>)
    ensures
        chars@ == text@,
{
    let mut chars: Vec<char> = Vec::new();
    for c in it: text.chars()
        invariant
            chars@ =~= it.seq().take(it.index() as int),
            it.seq() == text@,
    {
        chars.push(c);
    }
    chars
}

/// The text made of characters `from..to`.
pub fn string_of(chars: &Vec<char>, from: usize, to: usize) -> (text: String)
    requires
        from <= to <= chars@.len(),
    ensures
        text@ == chars@.subrange(from as int, to as int),
{
    let mut text = String::new();
    let mut i = from;
    while i < to
        invariant
            from <= i <= to <= chars@.len(),
            text@ =~= chars@.subrange(from as int, i as int),
        decreases to - i,
    {
        text.push(chars[i]);
        i = i + 1;
    }
    text
}

/// Characters `from..to`.
pub fn copy_range(chars: &Vec<char>, from: usize, to: usize) -> (copy: Vec<char>)
    requires
        from <= to <= chars@.len(),
    ensures
        copy@ == chars@.subrange(from as int, to as int),
{
    let mut copy: Vec<char> = Vec::new();
    let mut i = from;
    while i < to
        invariant
            from <= i <= to <= chars@.len(),
            copy@ =~= chars@.subrange(from as int, i as int),
        decreases to - i,
    {
        copy.push(chars[i]);
        i = i + 1;
    }
    copy
}

/// The whole of a character list as a text.
pub fn text_of(chars: &Vec<char>) -> (text: String)
    ensures
        text@ == chars@,
{
    proof {
        assert(chars@.subrange(0, chars@.len() as int) =~= chars@);
    }
    string_of(chars, 0, chars.len())
}

/// Removes the white space at both ends.
pub fn trim_chars(chars: &Vec<char>) -> (trim: Vec<char>)
    ensures
        trim@ == trimmed(chars@),
{
    let mut from: usize = 0;
    proof {
        assert(chars@.skip(0) =~= chars@);
    }
    while from < chars.len() && is_whitespace(chars[from])
        invariant
            from <= chars@.len(),
            trim_start(chars@.skip(from as int)) == trim_start(chars@),
        decreases chars@.len() - from,
    {
        proof {
            assert(chars@.skip(from as int).drop_first() =~= chars@.skip(from + 1));
        }
        from = from + 1;
    }
    let mut to: usize = chars.len();
    proof {
        assert(chars@.subrange(from as int, to as int) =~= chars@.skip(from as int));
    }
    while from < to && is_whitespace(chars[to - 1])
        invariant
            from <= to <= chars@.len(),
            trim_end(chars@.subrange(from as int, to as int)) == trim_end(chars@.skip(from as int)),
        decreases to,
    {
        proof {
            assert(chars@.subrange(from as int, to as int).drop_last() =~= chars@.subrange(
                from as int,
                to - 1,
            ));
        }
        to = to - 1;
    }
    copy_range(chars, from, to)
}

/// Removes the white space at both ends of a text.
pub fn trim(text: &str) -> (trim: String)
    ensures
        trim@ == trimmed(text@),
{
    let chars = chars_of(text);
    text_of(&trim_chars(&chars))
}

/// Whether a text holds nothing but white space.
pub fn is_blank(text: &str) -> (blank: bool)
    ensures
        blank == (trimmed(text@).len() == 0),
{
    trim_chars(&chars_of(text)).len() == 0
}

/// Removes every trailing `c`.
pub fn trim_end_matches_char(text: &str, c: char) -> (trim: String)
    ensures
        trim@ == trim_end_char(text@, c),
{
    let chars = chars_of(text);
    let mut to: usize = chars.len();
    proof {
        assert(chars@.subrange(0, to as int) =~= chars@);
    }
    while 0 < to && chars[to - 1] == c
        invariant
            to <= chars@.len(),
            trim_end_char(chars@.subrange(0, to as int), c) == trim_end_char(chars@, c),
        decreases to,
    {
        proof {
            assert(chars@.subrange(0, to as int).drop_last() =~= chars@.subrange(0, to - 1));
        }
        to = to - 1;
    }
    string_of(&chars, 0, to)
}

/// Whether `part` stands in `chars` at `at`.
fn stands_at(chars: &Vec<char>, part: &Vec<char>, at: usize) -> (found: bool)
    requires
        at + part@.len() <= chars@.len(),
    ensures
        found == occurs_at(chars@, part@, at as int),
{
    let total: usize = chars.len();
    let mut i: usize = 0;
    while i < part.len()
        invariant
            i <= part@.len(),
            at + part@.len() <= total,
            total == chars@.len(),
            chars@.subrange(at as int, at + i) =~= part@.take(i as int),
        decreases part@.len() - i,
    {
        if chars[at + i] != part[i] {
            proof {
                assert(chars@.subrange(at as int, at + part@.len())[i as int] != part@[i as int]);
            }
            return false;
        }
        i = i + 1;
    }
    proof {
        assert(part@.take(part@.len() as int) =~= part@);
    }
    true
}

/// The first position at which `part` stands in `chars`.
pub fn find_chars(chars: &Vec<char>, part: &Vec<char>) -> (at: Option<usize>)
    ensures
        match at {
            Some(i) => find_from(chars@, part@, 0) == Some(i as int) && occurs_at(
                chars@,
                part@,
                i as int,
            ),
            None => find_from(chars@, part@, 0) is None,
        },
{
    if part.len() > chars.len() {
        return None;
    }
    let last: usize = chars.len() - part.len();
    let mut i: usize = 0;
    while i <= last
        invariant
            last == chars@.len() - part@.len(),
            i <= last + 1,
            find_from(chars@, part@, 0) == find_from(chars@, part@, i as int),
        decreases last + 1 - i,
    {
        if stands_at(chars, part, i) {
            return Some(i);
        }
        if i == last {
            proof {
                assert(find_from(chars@, part@, i as int) == find_from(chars@, part@, i + 1));
            }
            return None;
        }
        i = i + 1;
    }
    None
}

/// Whether `chars` begins with `prefix`.
pub fn starts_with(chars: &Vec<char>, prefix: &Vec<char>) -> (found: bool)
    ensures
        found == has_prefix(chars@, prefix@),
{
    if prefix.len() > chars.len() {
        return false;
    }
    proof {
        assert(chars@.subrange(0, prefix@.len() as int) =~= chars@.take(prefix@.len() as int));
    }
    stands_at(chars, prefix, 0)
}

/// Whether `chars` ends with `suffix`.
pub fn ends_with(chars: &Vec<char>, suffix: &Vec<char>) -> (found: bool)
    ensures
        found == has_suffix(chars@, suffix@),
{
    if suffix.len() > chars.len() {
        return false;
    }
    let at: usize = chars.len() - suffix.len();
    proof {
        assert(chars@.subrange(at as int, at + suffix@.len()) =~= chars@.skip(at as int));
    }
    stands_at(chars, suffix, at)
}

/// The pieces between the occurrences of `sep`.
pub fn split_chars(chars: &Vec<char>, sep: char) -> (pieces: Vec<Vec<char>>)
    ensures
        pieces_view(pieces@) == split_on(chars@, sep),
        pieces@.len() == split_on(chars@, sep).len(),
        pieces@.len() >= 1,
{
    let mut pieces: Vec<Vec<char>> = Vec::new();
    let mut current: Vec<char> = Vec::new();
    let mut i: usize = 0;
    proof {
        assert(chars@.take(0) =~= Seq::empty());
        assert(pieces_view(pieces@).push(current@) =~= split_on(chars@.take(0), sep));
    }
    while i < chars.len()
        invariant
            i <= chars@.len(),
            pieces_view(pieces@).push(current@) == split_on(chars@.take(i as int), sep),
        decreases chars@.len() - i,
    {
        let ghost before = pieces_view(pieces@).push(current@);
        let ghost done = pieces_view(pieces@);
        let ghost head = current@;
        proof {
            assert(chars@.take(i + 1).drop_last() =~= chars@.take(i as int));
            assert(chars@.take(i + 1).last() == chars@[i as int]);
            assert(before.drop_last() =~= done);
            assert(before.last() == head);
        }
        let c = chars[i];
        if c == sep {
            pieces.push(current);
            current = Vec::new();
            proof {
                assert(pieces_view(pieces@) =~= before);
                assert(pieces_view(pieces@).push(current@) =~= before.push(Seq::empty()));
            }
        } else {
            current.push(c);
            proof {
                assert(pieces_view(pieces@).push(current@) =~= before.drop_last().push(
                    before.last().push(c),
                ));
            }
        }
        i = i + 1;
    }
    let ghost done = pieces_view(pieces@).push(current@);
    pieces.push(current);
    proof {
        assert(chars@.take(chars@.len() as int) =~= chars@);
        assert(pieces_view(pieces@) =~= done);
    }
    pieces
}

/// Whether two texts are the same.
pub fn same_text(a: &str, b: &str) -> (same: bool)
    ensures
        same == (a@ == b@),
{
    let left = chars_of(a);
    let right = chars_of(b);
    if left.len() != right.len() {
        return false;
    }
    let same = stands_at(&left, &right, 0);
    proof {
        assert(left@.subrange(0, right@.len() as int) =~= left@);
    }
    same
}

/// The number that a text of decimal digits stands for.
pub open spec fn value_of_digits(text: Seq<char>) -> nat
    decreases text.len(),
{
    if text.len() == 0 {
        0
    } else {
        value_of_digits(text.drop_last()) * 10 + (text.last() as u32 - '0' as u32) as nat
    }
}

/// A decimal text stands for its number, holds digits only and has no zero in front, unless it is zero.
/// So different numbers have different texts.
pub proof fn lemma_decimal_is_read_back(n: nat)
    ensures
        value_of_digits(decimal(n)) == n,
        decimal(n).len() > 0,
        forall|i: int|
            0 <= i < decimal(n).len() ==> '0' <= #[trigger] decimal(n)[i] && decimal(n)[i] <= '9',
        decimal(n).len() > 1 ==> decimal(n)[0] != '0',
    decreases n,
{
    reveal_with_fuel(value_of_digits, 3);
    if n < 10 {
        assert(decimal(n).drop_last() =~= Seq::empty());
    } else {
        lemma_decimal_is_read_back(n / 10);
        let head = decimal(n / 10);
        assert(decimal(n).drop_last() =~= head);
        assert(decimal(n).last() == digit_char(n % 10));
        assert(decimal(n)[0] == head[0]);
        if head.len() == 1 {
            assert(head.drop_last() =~= Seq::empty());
            assert(value_of_digits(head) == (head[0] as u32 - '0' as u32) as nat);
        }
        assert forall|i: int| 0 <= i < decimal(n).len() implies '0' <= #[trigger] decimal(n)[i]
            && decimal(n)[i] <= '9' by {
            if i < head.len() {
                assert(decimal(n)[i] == head[i]);
            }
        }
    }
}

/// A negative number is its size behind a minus sign.
pub proof fn lemma_integer_texts(n: int)
    ensures
        n >= 0 ==> integer_text(n) == decimal(n as nat),
        n < 0 ==> integer_text(n) == seq!['-'] + decimal((-n) as nat),
{
    if n < 0 {
        assert(integer_text(n) =~= seq!['-'] + decimal((-n) as nat));
    }
}

/// What is left of a trimmed text has no white space at its ends, and what was cut off is white space
/// alone.
pub proof fn lemma_trimmed_is_the_middle(s: Seq<char>)
    ensures
        trimmed(s).len() > 0 ==> !is_space(trimmed(s)[0]) && !is_space(trimmed(s).last()),
        exists|from: int, to: int|
            0 <= from <= to <= s.len() && #[trigger] s.subrange(from, to) == trimmed(s) && (forall|
                i: int,
            |
                0 <= i < from ==> is_space(#[trigger] s[i])) && (forall|i: int|
                to <= i < s.len() ==> is_space(#[trigger] s[i])),
{
    lemma_trim_start_cut(s);
    let head = trim_start(s);
    let from = s.len() - head.len();
    lemma_trim_end_cut(head);
    let to = from + trimmed(s).len();
    assert(s.subrange(from, to) =~= trimmed(s));
    assert forall|i: int| to <= i < s.len() implies is_space(#[trigger] s[i]) by {
        assert(head[i - from] == s[i]);
    }
    if trimmed(s).len() > 0 {
        assert(trimmed(s)[0] == head[0]);
    }
}

proof fn lemma_trim_start_cut(s: Seq<char>)
    ensures
        trim_start(s).len() <= s.len(),
        trim_start(s) == s.skip(s.len() - trim_start(s).len()),
        forall|i: int| 0 <= i < s.len() - trim_start(s).len() ==> is_space(#[trigger] s[i]),
        trim_start(s).len() > 0 ==> !is_space(trim_start(s)[0]),
    decreases s.len(),
{
    if s.len() > 0 && is_space(s[0]) {
        let rest = s.drop_first();
        lemma_trim_start_cut(rest);
        assert(rest.skip(rest.len() - trim_start(rest).len()) =~= s.skip(
            s.len() - trim_start(s).len(),
        ));
        assert forall|i: int| 0 <= i < s.len() - trim_start(s).len() implies is_space(
            #[trigger] s[i],
        ) by {
            if i > 0 {
                assert(rest[i - 1] == s[i]);
            }
        }
    } else {
        assert(s.skip(0) =~= s);
    }
}

proof fn lemma_trim_end_cut(s: Seq<char>)
    ensures
        trim_end(s).len() <= s.len(),
        trim_end(s) == s.take(trim_end(s).len() as int),
        forall|i: int| trim_end(s).len() <= i < s.len() ==> is_space(#[trigger] s[i]),
        trim_end(s).len() > 0 ==> !is_space(trim_end(s).last()),
    decreases s.len(),
{
    if s.len() > 0 && is_space(s.last()) {
        let rest = s.drop_last();
        lemma_trim_end_cut(rest);
        assert(rest.take(trim_end(rest).len() as int) =~= s.take(trim_end(s).len() as int));
        assert forall|i: int| trim_end(s).len() <= i < s.len() implies is_space(
            #[trigger] s[i],
        ) by {
            if i < rest.len() {
                assert(rest[i] == s[i]);
            }
        }
    } else {
        assert(s.take(s.len() as int) =~= s);
    }
}

/// Pieces joined with a separator between them.
pub open spec fn joined_with(pieces: Seq<Seq<char>>, sep: char) -> Seq<char>
    decreases pieces.len(),
{
    if pieces.len() == 0 {
        Seq::empty()
    } else if pieces.len() == 1 {
        pieces[0]
    } else {
        joined_with(pieces.drop_last(), sep).push(sep) + pieces.last()
    }
}

/// The pieces of a text make it up again with the separator between them, and none of them holds the
/// separator.
pub proof fn lemma_pieces_make_up_the_text(s: Seq<char>, sep: char)
    ensures
        split_on(s, sep).len() > 0,
        joined_with(split_on(s, sep), sep) == s,
        forall|i: int|
            0 <= i < split_on(s, sep).len() ==> !(#[trigger] split_on(s, sep)[i]).contains(sep),
    decreases s.len(),
{
    if s.len() == 0 {
        assert(joined_with(split_on(s, sep), sep) =~= s);
    } else {
        let head = s.drop_last();
        let before = split_on(head, sep);
        let pieces = split_on(s, sep);
        lemma_pieces_make_up_the_text(head, sep);
        assert(head.push(s.last()) =~= s);
        if s.last() == sep {
            assert(pieces.drop_last() =~= before);
            assert(joined_with(pieces, sep) =~= s);
        } else {
            let longer = before.last().push(s.last());
            assert(pieces.drop_last() =~= before.drop_last());
            assert(pieces.last() == longer);
            assert(joined_with(pieces, sep) =~= s) by {
                if before.len() > 1 {
                    let front = joined_with(before.drop_last(), sep).push(sep);
                    assert(front + longer =~= (front + before.last()).push(s.last()));
                }
            }
            assert forall|i: int| 0 <= i < pieces.len() implies !(#[trigger] pieces[i]).contains(
                sep,
            ) by {
                if i < pieces.len() - 1 {
                    assert(pieces[i] == before[i]);
                } else {
                    let last = before[before.len() - 1];
                    assert(!last.contains(sep));
                    assert forall|j: int| 0 <= j < longer.len() implies longer[j] != sep by {
                        if j < last.len() {
                            assert(longer[j] == last[j]);
                            assert(last.contains(last[j]));
                        }
                    }
                }
            }
        }
    }
}

/// A part is found at its first position, and not found only where it stands nowhere.
pub proof fn lemma_found_first(s: Seq<char>, part: Seq<char>, from: int)
    requires
        0 <= from,
    ensures
        match find_from(s, part, from) {
            Some(at) => from <= at && at + part.len() <= s.len() && s.subrange(
                at,
                at + part.len(),
            ) == part && forall|before: int|
                from <= before < at ==> !occurs_at(s, part, before),
            None => forall|at: int| from <= at ==> !occurs_at(s, part, at),
        },
    decreases s.len() + 1 - from,
{
    if from + part.len() <= s.len() && !occurs_at(s, part, from) {
        lemma_found_first(s, part, from + 1);
    }
}

/// The run of a character at the end of a text is cut off whole, and nothing else is.
pub proof fn lemma_trim_end_char(s: Seq<char>, c: char)
    ensures
        trim_end_char(s.push(c), c) == trim_end_char(s, c),
        s.len() == 0 || s.last() != c ==> trim_end_char(s, c) == s,
{
    assert(s.push(c).drop_last() =~= s);
}

/// A number below a hundred takes two digits, which stand for it.
pub proof fn lemma_two_digits(n: nat)
    requires
        n < 100,
    ensures
        two_digits(n).len() == 2,
        value_of_digits(two_digits(n)) == n,
{
    lemma_decimal_is_read_back(n);
    reveal_with_fuel(value_of_digits, 3);
    reveal_with_fuel(decimal, 3);
    let text = two_digits(n);
    if n < 10 {
        assert(text.drop_last() =~= seq!['0']);
        assert(seq!['0'].drop_last() =~= Seq::empty());
        assert(text.last() == digit_char(n));
        assert(value_of_digits(seq!['0']) == 0);
        assert(decimal(n) =~= seq![digit_char(n)]);
    } else {
        assert(decimal(n).len() == 2);
    }
}

/// Which characters are white space: the controls from tab to carriage return, the next line, and the
/// blanks and separators of Unicode; no other is.
pub proof fn lemma_white_space(c: char)
    ensures
        is_space(c) <==> (c == '\t' || c == '\n' || c == '\u{b}' || c == '\u{c}' || c == '\r'
            || c == ' ' || c == '\u{85}' || c == '\u{a0}' || c == '\u{1680}' || ('\u{2000}' <= c
            && c <= '\u{200a}') || c == '\u{2028}' || c == '\u{2029}' || c == '\u{202f}' || c
            == '\u{205f}' || c == '\u{3000}'),
{
}

/// A text starts with what it is made of first, and ends with what it is made of last; it starts or
/// ends with nothing else.
pub proof fn lemma_starts_and_ends(s: Seq<char>, first: Seq<char>, rest: Seq<char>)
    ensures
        has_prefix(first + rest, first),
        has_suffix(first + rest, rest),
        has_prefix(s, first) ==> s == first + s.skip(first.len() as int),
        has_suffix(s, rest) ==> s == s.take(s.len() - rest.len()) + rest,
{
    assert((first + rest).take(first.len() as int) =~= first);
    assert((first + rest).skip(first.len() as int) =~= rest);
    if has_prefix(s, first) {
        assert(s =~= first + s.skip(first.len() as int));
    }
    if has_suffix(s, rest) {
        assert(s =~= s.take(s.len() - rest.len()) + rest);
    }
}

} // verus!
