//! Text helpers.

use vstd::prelude::*;

verus! {

/// Decimal digit as a character.
pub open spec fn digit_char(digit: int) -> char {
    (48 + digit) as char
}

/// Decimal text of a number, without leading zeros.
pub open spec fn decimal(number: nat) -> Seq<char>
    decreases number,
{
    if number < 10 {
        seq![digit_char(number as int)]
    } else {
        decimal(number / 10).push(digit_char((number % 10) as int))
    }
}

fn digit_str(digit: u64) -> (text: &'static str)
    requires
        digit < 10,
    ensures
        text@ == seq![digit_char(digit as int)],
{
    proof {
        reveal_strlit("0");
        reveal_strlit("1");
        reveal_strlit("2");
        reveal_strlit("3");
        reveal_strlit("4");
        reveal_strlit("5");
        reveal_strlit("6");
        reveal_strlit("7");
        reveal_strlit("8");
        reveal_strlit("9");
    }
    match digit {
        0 => "0",
        1 => "1",
        2 => "2",
        3 => "3",
        4 => "4",
        5 => "5",
        6 => "6",
        7 => "7",
        8 => "8",
        _ => "9",
    }
}

/// Decimal text of a number.
pub fn decimal_text(number: u64) -> (text: String)
    ensures
        text@ == decimal(number as nat),
    decreases number,
{
    if number < 10 {
        digit_str(number).to_owned()
    } else {
        let head = decimal_text(number / 10);
        let text = head.concat(digit_str(number % 10));
        proof {
            assert(text@ =~= decimal((number / 10) as nat).push(digit_char((number % 10) as int)));
        }
        text
    }
}

/// Two texts one after the other.
pub fn join(head: &str, tail: &str) -> (text: String)
    ensures
        text@ == head@ + tail@,
{
    head.to_owned().concat(tail)
}

/// Characters with the Unicode property White_Space.
pub open spec fn white_space(c: char) -> bool {
    ||| 0x09 <= c as int <= 0x0D
    ||| c as int == 0x20
    ||| c as int == 0x85
    ||| c as int == 0xA0
    ||| c as int == 0x1680
    ||| 0x2000 <= c as int <= 0x200A
    ||| c as int == 0x2028
    ||| c as int == 0x2029
    ||| c as int == 0x202F
    ||| c as int == 0x205F
    ||| c as int == 0x3000
}

/// Text without the white space at its start.
pub open spec fn trimmed_start(text: Seq<char>) -> Seq<char>
    decreases text.len(),
{
    if text.len() > 0 && white_space(text[0]) {
        trimmed_start(text.drop_first())
    } else {
        text
    }
}

/// Text without the white space at its end.
pub open spec fn trimmed_end(text: Seq<char>) -> Seq<char>
    decreases text.len(),
{
    if text.len() > 0 && white_space(text.last()) {
        trimmed_end(text.drop_last())
    } else {
        text
    }
}

/// Text without the white space at its start and at its end.
pub open spec fn trimmed(text: Seq<char>) -> Seq<char> {
    trimmed_end(trimmed_start(text))
}

/// Whether a text holds nothing but white space.
pub open spec fn blank(text: Seq<char>) -> bool {
    trimmed(text).len() == 0
}

/// Whether a character has the Unicode property White_Space.
pub fn is_white_space(c: char) -> (yes: bool)
    ensures
        yes == white_space(c),
{
    let code: u32 = c as u32;
    (0x09 <= code && code <= 0x0D) || code == 0x20 || code == 0x85 || code == 0xA0 || code
        == 0x1680 || (0x2000 <= code && code <= 0x200A) || code == 0x2028 || code == 0x2029
        || code == 0x202F || code == 0x205F || code == 0x3000
}

/// Text without the white space at its start and at its end.
pub fn trim(text: &str) -> (rest: String)
    ensures
        rest@ == trimmed(text@),
{
    let len = text.unicode_len();
    let mut start: usize = 0;
    assert(text@.skip(0) =~= text@);
    while start < len && is_white_space(text.get_char(start))
        invariant
            len == text@.len(),
            start <= len,
            trimmed_start(text@.skip(start as int)) == trimmed_start(text@),
        decreases len - start,
    {
        assert(text@.skip(start as int).drop_first() =~= text@.skip(start + 1));
        start += 1;
    }
    let mut end: usize = len;
    assert(text@.subrange(start as int, end as int) =~= text@.skip(start as int));
    while end > start && is_white_space(text.get_char(end - 1))
        invariant
            len == text@.len(),
            start <= end <= len,
            trimmed_end(text@.subrange(start as int, end as int)) == trimmed(text@),
        decreases end - start,
    {
        assert(text@.subrange(start as int, end as int).drop_last() =~= text@.subrange(
            start as int,
            end - 1,
        ));
        end -= 1;
    }
    text.substring_char(start, end).to_owned()
}

/// Whether a text holds nothing but white space.
pub fn is_blank(text: &str) -> (yes: bool)
    ensures
        yes == blank(text@),
{
    let rest = trim(text);
    rest.as_str().is_empty()
}

/// Character with an ASCII capital letter made small.
pub open spec fn ascii_small(c: char) -> char {
    if 'A' <= c <= 'Z' {
        (c as int + 32) as char
    } else {
        c
    }
}

/// The small letters.
const SMALL_LETTERS: &'static str = "abcdefghijklmnopqrstuvwxyz";

fn small_letter(c: char) -> (letter: &'static str)
    requires
        'A' <= c <= 'Z',
    ensures
        letter@ == seq![ascii_small(c)],
{
    proof {
        reveal_strlit("abcdefghijklmnopqrstuvwxyz");
    }
    let place: usize = (c as u32 - 65) as usize;
    let letter = SMALL_LETTERS.substring_char(place, place + 1);
    assert(letter@ =~= seq![ascii_small(c)]);
    letter
}

/// The text with the letters A to Z made small; every other character stays as it is.
pub fn ascii_lowercase(text: &str) -> (small: String)
    ensures
        small@ == text@.map_values(|c: char| ascii_small(c)),
{
    let ghost whole = text@.map_values(|c: char| ascii_small(c));
    let len = text.unicode_len();
    let mut small = String::new();
    let mut i: usize = 0;
    while i < len
        invariant
            len == text@.len(),
            i <= len,
            whole == text@.map_values(|c: char| ascii_small(c)),
            small@ == whole.take(i as int),
        decreases len - i,
    {
        let c = text.get_char(i);
        if 'A' <= c && c <= 'Z' {
            small.append(small_letter(c));
        } else {
            small.append(text.substring_char(i, i + 1));
        }
        assert(small@ =~= whole.take(i + 1));
        i += 1;
    }
    assert(whole.take(i as int) =~= whole);
    small
}

/// Whether `mark` stands in `text` at `place`.
pub open spec fn stands_at(text: Seq<char>, mark: Seq<char>, place: int) -> bool {
    0 <= place && place + mark.len() <= text.len() && text.subrange(place, place + mark.len())
        == mark
}

/// Whether a text holds the mark between the scheme and the rest of an address.
pub open spec fn names_scheme(text: Seq<char>) -> bool {
    exists|place: int| stands_at(text, seq![':', '/', '/'], place)
}

/// Whether a text holds the mark between the scheme and the rest of an address.
pub fn has_scheme(text: &str) -> (yes: bool)
    ensures
        yes == names_scheme(text@),
{
    let ghost mark = seq![':', '/', '/'];
    let len = text.unicode_len();
    let mut i: usize = 0;
    while i < len
        invariant
            len == text@.len(),
            i <= len,
            mark == seq![':', '/', '/'],
            forall|place: int| 0 <= place < i ==> !stands_at(text@, mark, place),
        decreases len - i,
    {
        if len - i >= 3 && text.get_char(i) == ':' && text.get_char(i + 1) == '/'
            && text.get_char(i + 2) == '/' {
            assert(text@.subrange(i as int, i + 3) =~= mark);
            assert(stands_at(text@, mark, i as int));
            return true;
        }
        assert(!stands_at(text@, mark, i as int)) by {
            if stands_at(text@, mark, i as int) {
                let part = text@.subrange(i as int, i + 3);
                assert(part[0] == text@[i as int] && part[1] == text@[i + 1] && part[2]
                    == text@[i + 2]);
            }
        }
        i += 1;
    }
    assert(!names_scheme(text@)) by {
        assert forall|place: int| !stands_at(text@, mark, place) by {
            if stands_at(text@, mark, place) {
                assert(place < len);
            }
        }
    }
    false
}

/// Whether a character is a decimal digit.
pub open spec fn is_digit(c: char) -> bool {
    '0' <= c <= '9'
}

/// Whether a character occurs in names of hosts: an ASCII letter or digit, a point or a hyphen.
pub open spec fn host_char(c: char) -> bool {
    is_digit(c) || 'a' <= c <= 'z' || 'A' <= c <= 'Z' || c == '.' || c == '-'
}

/// Whether a character occurs in names of hosts.
fn is_host_char(c: char) -> (yes: bool)
    ensures
        yes == host_char(c),
{
    ('0' <= c && c <= '9') || ('a' <= c && c <= 'z') || ('A' <= c && c <= 'Z') || c == '.' || c
        == '-'
}

/// Number that decimal digits stand for.
pub open spec fn number_of(digits: Seq<char>) -> nat
    decreases digits.len(),
{
    if digits.len() == 0 {
        0
    } else {
        number_of(digits.drop_last()) * 10 + (digits.last() as int - 48) as nat
    }
}

proof fn lemma_number_grows(digits: Seq<char>, n: int)
    requires
        0 <= n <= digits.len(),
        forall|i: int| 0 <= i < digits.len() ==> is_digit(#[trigger] digits[i]),
    ensures
        number_of(digits.take(n)) <= number_of(digits),
    decreases digits.len(),
{
    if n == digits.len() {
        assert(digits.take(n) =~= digits);
    } else {
        lemma_number_grows(digits.drop_last(), n);
        assert(digits.drop_last().take(n) =~= digits.take(n));
    }
}

/// Whether a text is the name of a host, a colon and the number of a port, with the colon at
/// `colon`.
pub open spec fn endpoint_at(text: Seq<char>, colon: int) -> bool {
    &&& 0 < colon < text.len() - 1
    &&& text[colon] == ':'
    &&& forall|i: int| 0 <= i < colon ==> host_char(#[trigger] text[i])
    &&& forall|i: int| colon < i < text.len() ==> is_digit(#[trigger] text[i])
    &&& number_of(text.skip(colon + 1)) <= 65535
}

/// Whether a text is the name of a host, a colon and the number of a port.
pub open spec fn names_endpoint(text: Seq<char>) -> bool {
    exists|colon: int| endpoint_at(text, colon)
}

/// Whether a text is the name of a host, a colon and the number of a port.
pub fn is_endpoint(text: &str) -> (yes: bool)
    ensures
        yes == names_endpoint(text@),
{
    let len = text.unicode_len();
    let mut colon: usize = 0;
    while colon < len && is_host_char(text.get_char(colon))
        invariant
            len == text@.len(),
            colon <= len,
            forall|i: int| 0 <= i < colon ==> host_char(#[trigger] text@[i]),
        decreases len - colon,
    {
        colon += 1;
    }
    assert forall|other: int| endpoint_at(text@, other) implies other == colon by {
        if other < colon {
            assert(host_char(text@[other]));
        } else if colon < other {
            assert(host_char(text@[colon as int]));
        }
    }
    if colon == 0 || len - colon < 2 || text.get_char(colon) != ':' {
        return false;
    }
    let ghost digits = text@.skip(colon + 1);
    let mut port: u32 = 0;
    let mut i: usize = colon + 1;
    assert(digits.take(0) =~= Seq::empty());
    while i < len
        invariant
            len == text@.len(),
            0 < colon < i <= len,
            digits == text@.skip(colon + 1),
            port == number_of(digits.take(i - colon - 1)),
            port <= 65535,
            forall|k: int| colon < k < i ==> is_digit(#[trigger] text@[k]),
            forall|other: int| endpoint_at(text@, other) ==> other == colon,
        decreases len - i,
    {
        let c = text.get_char(i);
        if !('0' <= c && c <= '9') {
            assert(!is_digit(text@[i as int]));
            return false;
        }
        let digit: u32 = c as u32 - 48;
        port = port * 10 + digit;
        proof {
            let next = digits.take(i - colon);
            assert(next.drop_last() =~= digits.take(i - colon - 1));
            assert(next.last() == text@[i as int]);
        }
        if port > 65535 {
            proof {
                if endpoint_at(text@, colon as int) {
                    assert forall|k: int| 0 <= k < digits.len() implies is_digit(
                        #[trigger] digits[k],
                    ) by {
                        assert(digits[k] == text@[colon + 1 + k]);
                    }
                    lemma_number_grows(digits, i - colon);
                }
            }
            return false;
        }
        i += 1;
    }
    assert(digits.take(i - colon - 1) =~= digits);
    assert(endpoint_at(text@, colon as int));
    true
}

/// Decimal text of a number with a sign.
pub open spec fn integer(number: int) -> Seq<char> {
    if number < 0 {
        "-"@ + decimal((-number) as nat)
    } else {
        decimal(number as nat)
    }
}

/// Decimal text of a number with a sign.
pub fn integer_text(number: i32) -> (text: String)
    ensures
        text@ == integer(number as int),
{
    if number < 0 {
        let size: u64 = (-(number as i64)) as u64;
        let digits = decimal_text(size);
        join("-", digits.as_str())
    } else {
        decimal_text(number as u64)
    }
}

/// Hexadecimal digit as a character, with small letters.
pub open spec fn hex_char(digit: int) -> char {
    if digit < 10 {
        (48 + digit) as char
    } else {
        (87 + digit) as char
    }
}

/// Last hexadecimal digits of a number.
pub open spec fn hexadecimal(number: nat, digits: nat) -> Seq<char>
    decreases digits,
{
    if digits == 0 {
        Seq::empty()
    } else {
        hexadecimal(number / 16, (digits - 1) as nat).push(hex_char((number % 16) as int))
    }
}

proof fn lemma_trimmed_start(text: Seq<char>) -> (from: int)
    ensures
        0 <= from <= text.len(),
        trimmed_start(text) == text.skip(from),
        forall|i: int| 0 <= i < from ==> white_space(#[trigger] text[i]),
        from < text.len() ==> !white_space(text[from]),
    decreases text.len(),
{
    if text.len() > 0 && white_space(text[0]) {
        let rest = text.drop_first();
        let from = lemma_trimmed_start(rest);
        assert forall|i: int| 0 <= i < from + 1 implies white_space(#[trigger] text[i]) by {
            if i > 0 {
                assert(rest[i - 1] == text[i]);
            }
        }
        assert(rest.skip(from) =~= text.skip(from + 1));
        from + 1
    } else {
        assert(text.skip(0) =~= text);
        0
    }
}

proof fn lemma_trimmed_end(text: Seq<char>) -> (to: int)
    ensures
        0 <= to <= text.len(),
        trimmed_end(text) == text.take(to),
        forall|i: int| to <= i < text.len() ==> white_space(#[trigger] text[i]),
        to > 0 ==> !white_space(text[to - 1]),
    decreases text.len(),
{
    if text.len() > 0 && white_space(text.last()) {
        let rest = text.drop_last();
        let to = lemma_trimmed_end(rest);
        assert forall|i: int| to <= i < text.len() implies white_space(#[trigger] text[i]) by {
            if i < rest.len() {
                assert(rest[i] == text[i]);
            }
        }
        assert(rest.take(to) =~= text.take(to));
        to
    } else {
        assert(text.take(text.len() as int) =~= text);
        text.len() as int
    }
}

/// Trimming cuts off white space and nothing else: what is left is a part of the text with nothing
/// but white space around it, and neither begins nor ends with white space.
pub proof fn law_trimming_cuts_white_space(text: Seq<char>) -> (bounds: (int, int))
    ensures
        0 <= bounds.0 <= bounds.1 <= text.len(),
        trimmed(text) == text.subrange(bounds.0, bounds.1),
        forall|i: int| 0 <= i < bounds.0 ==> white_space(#[trigger] text[i]),
        forall|i: int| bounds.1 <= i < text.len() ==> white_space(#[trigger] text[i]),
        trimmed(text).len() > 0 ==> !white_space(trimmed(text)[0]) && !white_space(
            trimmed(text).last(),
        ),
{
    let from = lemma_trimmed_start(text);
    let rest = text.skip(from);
    let to = lemma_trimmed_end(rest);
    assert forall|i: int| from + to <= i < text.len() implies white_space(#[trigger] text[i]) by {
        assert(rest[i - from] == text[i]);
    }
    assert(rest.take(to) =~= text.subrange(from, from + to));
    if to > 0 {
        assert(rest[0] == text[from]);
    }
    (from, from + to)
}

/// A text is blank exactly where it holds nothing but white space.
pub proof fn law_blank_texts(text: Seq<char>)
    ensures
        blank(text) <==> forall|i: int| 0 <= i < text.len() ==> white_space(#[trigger] text[i]),
{
    let (from, to) = law_trimming_cuts_white_space(text);
    if from < to {
        assert(trimmed(text)[0] == text[from]);
    }
}

/// The decimal text of a number holds only digits, has no leading zero, and stands for the number.
pub proof fn law_decimal_texts(number: nat)
    ensures
        decimal(number).len() > 0,
        forall|i: int| 0 <= i < decimal(number).len() ==> is_digit(#[trigger] decimal(number)[i]),
        number_of(decimal(number)) == number,
        number > 0 ==> decimal(number)[0] != '0',
    decreases number,
{
    if number < 10 {
        assert(decimal(number).drop_last() =~= Seq::empty());
        assert(number_of(Seq::<char>::empty()) == 0);
    } else {
        law_decimal_texts(number / 10);
        let front = decimal(number / 10);
        assert(decimal(number).drop_last() =~= front);
        assert forall|i: int| 0 <= i < decimal(number).len() implies is_digit(
            #[trigger] decimal(number)[i],
        ) by {
            if i < front.len() {
                assert(decimal(number)[i] == front[i]);
            }
        }
        assert(decimal(number)[0] == front[0]);
    }
}

/// Making letters small changes the ASCII capitals and nothing else.
pub proof fn law_small_letters(c: char)
    ensures
        'A' <= c <= 'Z' ==> 'a' <= ascii_small(c) <= 'z' && ascii_small(c) as int - 'a' as int
            == c as int - 'A' as int,
        !('A' <= c <= 'Z') ==> ascii_small(c) == c,
{
}

/// A host and a port make an endpoint: any letters, digits, dots and hyphens, a colon, and any
/// number of up to sixteen bits.
pub proof fn law_endpoints(host: Seq<char>, port: u16)
    requires
        host.len() > 0,
        forall|i: int|
            0 <= i < host.len() ==> {
                let c = #[trigger] host[i];
                'a' <= c <= 'z' || 'A' <= c <= 'Z' || '0' <= c <= '9' || c == '.' || c == '-'
            },
    ensures
        names_endpoint(host + seq![':'] + decimal(port as nat)),
{
    let digits = decimal(port as nat);
    let text = host + seq![':'] + digits;
    let colon = host.len() as int;
    law_decimal_texts(port as nat);
    assert(text.skip(colon + 1) =~= digits);
    assert forall|i: int| 0 <= i < colon implies host_char(#[trigger] text[i]) by {
        assert(text[i] == host[i]);
    }
    assert forall|i: int| colon < i < text.len() implies is_digit(#[trigger] text[i]) by {
        assert(text[i] == digits[i - colon - 1]);
    }
    assert(endpoint_at(text, colon));
}

/// An endpoint begins with a host and ends with a digit. It holds one colon and no other sign.
pub proof fn law_only_endpoints(text: Seq<char>, i: int)
    requires
        names_endpoint(text),
        0 <= i < text.len(),
    ensures
        text.len() >= 3,
        text[0] != ':' && '0' <= text.last() <= '9',
        text[i] == ':' || text[i] == '.' || text[i] == '-' || '0' <= text[i] <= '9' || 'a'
            <= text[i] <= 'z' || 'A' <= text[i] <= 'Z',
        text.contains(':'),
{
    let colon = choose|colon: int| endpoint_at(text, colon);
    assert(text[colon] == ':');
    assert(host_char(text[0]));
    assert(is_digit(text[text.len() - 1]));
    if i < colon {
        assert(host_char(text[i]));
    } else if i > colon {
        assert(is_digit(text[i]));
    }
}

/// A text names a scheme wherever a colon and two slashes stand in it, and never without a slash.
pub proof fn law_schemes(before: Seq<char>, after: Seq<char>, text: Seq<char>)
    ensures
        names_scheme(before + seq![':', '/', '/'] + after),
        !text.contains('/') ==> !names_scheme(text),
{
    let named = before + seq![':', '/', '/'] + after;
    let start = before.len() as int;
    assert(named.subrange(start, start + 3) =~= seq![':', '/', '/']);
    assert(stands_at(named, seq![':', '/', '/'], start));
    if names_scheme(text) {
        let place = choose|place: int| stands_at(text, seq![':', '/', '/'], place);
        assert(text.subrange(place, place + 3)[1] == '/');
        assert(text[place + 1] == '/');
    }
}

/// The text of a number below zero is a minus sign and the number without its sign; every other
/// number has no sign.
pub proof fn law_signs(number: int)
    ensures
        number < 0 ==> integer(number) == seq!['-'] + decimal((-number) as nat),
        number >= 0 ==> integer(number) == decimal(number as nat),
{
    reveal_strlit("-");
    assert("-"@ =~= seq!['-']);
}

} // verus!
