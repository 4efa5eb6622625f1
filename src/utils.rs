use vstd::prelude::*;

verus! {

/// The characters with the Unicode `White_Space` property, which is what
/// `char::is_whitespace` tests.
pub open spec fn is_ws(c: char) -> bool {
    ||| ('\u{9}' <= c && c <= '\u{d}')
    ||| c == ' '
    ||| c == '\u{85}'
    ||| c == '\u{a0}'
    ||| c == '\u{1680}'
    ||| ('\u{2000}' <= c && c <= '\u{200a}')
    ||| c == '\u{2028}'
    ||| c == '\u{2029}'
    ||| c == '\u{202f}'
    ||| c == '\u{205f}'
    ||| c == '\u{3000}'
}

/// Whether `c` is a whitespace character.
pub fn is_whitespace_char(c: char) -> (r: bool)
    ensures
        r == is_ws(c),
{
    ('\u{9}' <= c && c <= '\u{d}') || c == ' ' || c == '\u{85}' || c == '\u{a0}' || c
        == '\u{1680}' || ('\u{2000}' <= c && c <= '\u{200a}') || c == '\u{2028}' || c
        == '\u{2029}' || c == '\u{202f}' || c == '\u{205f}' || c == '\u{3000}'
}

/// Whether the character at index `nth` of `line` is whitespace.
pub fn is_whitespace(line: &Vec<char>, nth: usize) -> (r: bool)
    requires
        nth < line@.len(),
    ensures
        r == is_ws(line@[nth as int]),
{
    is_whitespace_char(line[nth])
}

/// Characters that a colour code may hold around its digits.
pub open spec fn is_hex_noise(c: char) -> bool {
    c == ' ' || c == '#'
}

/// `s` without its spaces and `#` signs.
pub open spec fn hex_digits(s: Seq<char>) -> Seq<char>
    decreases s.len(),
{
    if s.len() == 0 {
        seq![]
    } else if is_hex_noise(s.last()) {
        hex_digits(s.drop_last())
    } else {
        hex_digits(s.drop_last()).push(s.last())
    }
}

/// The value of a hexadecimal digit, of either case.
pub open spec fn hex_digit_value(c: char) -> Option<int> {
    if '0' <= c && c <= '9' {
        Some((c as u32) - ('0' as u32))
    } else if 'a' <= c && c <= 'f' {
        Some((c as u32) - ('a' as u32) + 10)
    } else if 'A' <= c && c <= 'F' {
        Some((c as u32) - ('A' as u32) + 10)
    } else {
        None
    }
}

/// The byte that two characters give as an unsigned hexadecimal number: two
/// digits, or a `+` sign and one digit.
pub open spec fn hex_pair(a: char, b: char) -> Option<int> {
    if a == '+' {
        hex_digit_value(b)
    } else {
        match (hex_digit_value(a), hex_digit_value(b)) {
            (Some(x), Some(y)) => Some(16 * x + y),
            _ => None,
        }
    }
}

/// The red, green and blue bytes of a colour code such as `#ff8000`: after
/// spaces and `#` signs are dropped, six characters in three pairs.
pub open spec fn rgb_of(s: Seq<char>) -> Option<(u8, u8, u8)> {
    let d = hex_digits(s);
    if d.len() == 6 && hex_pair(d[0], d[1]) is Some && hex_pair(d[2], d[3]) is Some && hex_pair(
        d[4],
        d[5],
    ) is Some {
        Some(
            (
                hex_pair(d[0], d[1])->0 as u8,
                hex_pair(d[2], d[3])->0 as u8,
                hex_pair(d[4], d[5])->0 as u8,
            ),
        )
    } else {
        None
    }
}

fn hex_digit(c: char) -> (r: Option<u8>)
    ensures
        match hex_digit_value(c) {
            Some(v) => r == Some(v as u8) && 0 <= v < 16,
            None => r is None,
        },
{
    if '0' <= c && c <= '9' {
        Some(((c as u32) - ('0' as u32)) as u8)
    } else if 'a' <= c && c <= 'f' {
        Some(((c as u32) - ('a' as u32) + 10) as u8)
    } else if 'A' <= c && c <= 'F' {
        Some(((c as u32) - ('A' as u32) + 10) as u8)
    } else {
        None
    }
}

fn parse_hex_pair(a: char, b: char) -> (r: Option<u8>)
    ensures
        match hex_pair(a, b) {
            Some(v) => r == Some(v as u8) && 0 <= v < 256,
            None => r is None,
        },
{
    if a == '+' {
        hex_digit(b)
    } else {
        match (hex_digit(a), hex_digit(b)) {
            (Some(x), Some(y)) => Some(16 * x + y),
            _ => None,
        }
    }
}

/// Reads a colour code such as `#ff8000` into its red, green and blue bytes.
pub fn hex_to_rgb(hex_input: &str) -> (r: Option<(u8, u8, u8)>)
    ensures
        r == rgb_of(hex_input@),
{
    let n = hex_input.unicode_len();
    let mut digits: Vec<char> = Vec::new();
    let mut i: usize = 0;
    while i < n
        invariant
            i <= n,
            n == hex_input@.len(),
            digits@ == hex_digits(hex_input@.take(i as int)),
        decreases n - i,
    {
        let c = hex_input.get_char(i);
        assert(hex_input@.take(i + 1).drop_last() =~= hex_input@.take(i as int));
        if c != ' ' && c != '#' {
            digits.push(c);
        }
        i = i + 1;
    }
    assert(hex_input@.take(n as int) =~= hex_input@);
    if digits.len() != 6 {
        return None;
    }
    let red = parse_hex_pair(digits[0], digits[1]);
    let green = parse_hex_pair(digits[2], digits[3]);
    let blue = parse_hex_pair(digits[4], digits[5]);
    match (red, green, blue) {
        (Some(r), Some(g), Some(b)) => Some((r, g, b)),
        _ => None,
    }
}

} // verus!
