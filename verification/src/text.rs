//! Text and encoding helpers: decimal rendering, UTF-8 decoding, base64,
//! character properties.
use vstd::prelude::*;
use vstd::utf8::{valid_utf8, decode_utf8, encode_scalar, is_scalar};
use base64::Engine as _;
use unicode_width::UnicodeWidthChar as _;

verus! {

/// The ASCII decimal digits of `n` (no sign, no leading zeros; "0" for zero).
pub open spec fn decimal(n: nat) -> Seq<u8>
    decreases n,
{
    if n < 10 {
        seq![(n + 48) as u8]
    } else {
        decimal(n / 10).push(((n % 10) + 48) as u8)
    }
}

/// Append the decimal digits of `n` to `out`.
pub fn push_decimal(out: &mut Vec<u8>, n: u64)
    ensures
        final(out)@ == old(out)@ + decimal(n as nat),
    decreases n,
{
    if n < 10 {
        out.push((n as u8) + 48);
        assert(decimal(n as nat) =~= seq![(n + 48) as u8]);
    } else {
        push_decimal(out, n / 10);
        out.push(((n % 10) as u8) + 48);
    }
}

/// `std::str::from_utf8`: per its documentation the bytes are accepted
/// exactly when they are valid UTF-8, and the string then holds the decoded
/// characters. This states that with vstd's UTF-8 model.
#[verifier::external_body]
pub(crate) fn str_from_utf8(bytes: &[u8]) -> (r: Option<&str>)
    ensures
        r is Some <==> valid_utf8(bytes@),
        r matches Some(s) ==> s@ == decode_utf8(bytes@),
{
    std::str::from_utf8(bytes).ok()
}

/// `String::push`: appends one character.
#[verifier::external_body]
pub(crate) fn push_char(s: &mut String, c: char)
    ensures
        final(s)@ == old(s)@.push(c),
{
    s.push(c)
}

/// An owned copy with the same characters.
pub(crate) fn str_to_string(s: &str) -> (r: String)
    ensures
        r@ == s@,
{
    s.to_owned()
}

/// What `base64`'s STANDARD engine decodes `data` to; `None` when it
/// reports an error.
pub uninterp spec fn base64_standard_decoded(data: Seq<u8>) -> Option<Seq<u8>>;

/// The character of a 6-bit value in the standard base64 alphabet
/// (`A`-`Z`, `a`-`z`, `0`-`9`, `+`, `/`).
pub open spec fn base64_digit(v: int) -> char {
    if v < 26 {
        (65 + v) as char
    } else if v < 52 {
        (97 + v - 26) as char
    } else if v < 62 {
        (48 + v - 52) as char
    } else if v == 62 {
        '+'
    } else {
        '/'
    }
}

/// Standard base64 with padding (RFC 4648, section 4): each group of three
/// bytes gives four characters; a last group of one or two bytes gives two
/// or three characters and `=` up to four.
pub open spec fn base64_padded(data: Seq<u8>) -> Seq<char>
    decreases data.len(),
{
    if data.len() == 0 {
        Seq::empty()
    } else if data.len() == 1 {
        let a = data[0] as int;
        seq![base64_digit(a / 4), base64_digit((a % 4) * 16), '=', '=']
    } else if data.len() == 2 {
        let a = data[0] as int;
        let b = data[1] as int;
        seq![base64_digit(a / 4), base64_digit((a % 4) * 16 + b / 16), base64_digit((b % 16) * 4), '=']
    } else {
        let a = data[0] as int;
        let b = data[1] as int;
        let c = data[2] as int;
        seq![
            base64_digit(a / 4),
            base64_digit((a % 4) * 16 + b / 16),
            base64_digit((b % 16) * 4 + c / 64),
            base64_digit(c % 64),
        ] + base64_padded(data.skip(3))
    }
}

#[verifier::external_type_specification]
#[verifier::external_body]
pub struct ExDecodeError(base64::DecodeError);

/// `base64::engine::general_purpose::STANDARD.decode`: the result is named
/// by `base64_standard_decoded`; nothing further is claimed of it.
#[verifier::external_body]
pub(crate) fn base64_decode(data: &[u8]) -> (r: Result<Vec<u8>, base64::DecodeError>)
    ensures
        r matches Ok(v) ==> base64_standard_decoded(data@) == Some(v@),
        r is Err ==> base64_standard_decoded(data@) is None,
{
    base64::engine::general_purpose::STANDARD.decode(data)
}

/// `base64::engine::general_purpose::STANDARD.encode`: the standard
/// alphabet with padding, as the engine's configuration documents. The crate
/// panics when the encoded length overflows `usize`, which the bound on the
/// input length rules out.
#[verifier::external_body]
pub(crate) fn base64_encode(data: &[u8]) -> (r: String)
    requires
        data@.len() <= usize::MAX / 2,
    ensures
        r@ == base64_padded(data@),
{
    base64::engine::general_purpose::STANDARD.encode(data)
}

/// The display width that `unicode-width` gives a character; `None` for
/// control characters.
pub uninterp spec fn unicode_char_width(c: char) -> Option<usize>;

/// `unicode_width::UnicodeWidthChar::width`: the result is named by
/// `unicode_char_width`; below U+00A0 the crate answers without its tables:
/// printable ASCII is one column wide, C0 and C1 controls and DEL have no
/// width, and every character from U+00A0 on has one.
#[verifier::external_body]
pub(crate) fn char_width(c: char) -> (r: Option<usize>)
    ensures
        r == unicode_char_width(c),
        (c as u32) < 0x20 ==> r is None,
        0x20 <= (c as u32) < 0x7f ==> r == Some(1usize),
        0x7f <= (c as u32) < 0xa0 ==> r is None,
        (c as u32) >= 0xa0 ==> r is Some,
{
    c.width()
}

/// What `str::to_lowercase` returns for a string with characters `s`.
pub uninterp spec fn lowercase_of(s: Seq<char>) -> Seq<char>;

/// Whether every character is ASCII.
pub open spec fn all_ascii(s: Seq<char>) -> bool {
    forall|i: int| 0 <= i < s.len() ==> (#[trigger] s[i] as u32) < 128
}

/// A character with ASCII upper case letters mapped to lower case.
pub open spec fn ascii_lower(c: char) -> char {
    if 'A' <= c && c <= 'Z' { ((c as u32) + 32) as char } else { c }
}

/// A string with ASCII upper case letters mapped to lower case.
pub open spec fn ascii_lowered(s: Seq<char>) -> Seq<char> {
    s.map_values(|c: char| ascii_lower(c))
}

/// The lower case of a string: ASCII letters mapped one for one on ASCII
/// text, Unicode's lower case otherwise.
pub open spec fn lowered(s: Seq<char>) -> Seq<char> {
    if all_ascii(s) {
        ascii_lowered(s)
    } else {
        lowercase_of(s)
    }
}

/// `str::to_lowercase`: the result is named by `lowercase_of`. Lower case is
/// Unicode's mapping, which on ASCII text maps `A`-`Z` to `a`-`z` and keeps
/// every other character; that much is stated, nothing beyond ASCII.
#[verifier::external_body]
pub(crate) fn str_to_lowercase(s: &str) -> (r: String)
    ensures
        r@ == lowercase_of(s@),
        all_ascii(s@) ==> r@ == ascii_lowered(s@),
{
    s.to_lowercase()
}

/// What `char::is_alphanumeric` returns.
pub uninterp spec fn char_is_alphanumeric(c: char) -> bool;

/// `char::is_alphanumeric`: the result is named by `char_is_alphanumeric`.
#[verifier::external_body]
pub(crate) fn is_alphanumeric(c: char) -> (r: bool)
    ensures
        r == char_is_alphanumeric(c),
{
    c.is_alphanumeric()
}

/// The characters of `s`, in order.
pub fn chars_of(s: &str) -> (r: Vec<char>)
    ensures
        r@ == s@,
{
    broadcast use vstd::string::axiom_spec_iter;
    let mut out: Vec<char> = Vec::new();
    for c in it: s.chars()
        invariant
            it.seq() == s@,
            out@ == it.seq().take(it.index() as int),
    {
        out.push(c);
    }
    out
}

/// The value of a string of ASCII decimal digits.
pub open spec fn digits_value(s: Seq<char>) -> nat
    decreases s.len(),
{
    if s.len() == 0 {
        0
    } else {
        digits_value(s.drop_last()) * 10 + ((s.last() as u32) - 48) as nat
    }
}

/// Whether every character is an ASCII decimal digit.
pub open spec fn all_digits(s: Seq<char>) -> bool {
    forall|i: int| 0 <= i < s.len() ==> '0' <= #[trigger] s[i] && s[i] <= '9'
}

/// What `str::parse::<usize>` gives: an optional `+` followed by at least
/// one decimal digit, with a value that fits.
pub open spec fn parsed_usize(s: Seq<char>) -> Option<usize> {
    let digits = if s.len() > 0 && s[0] == '+' { s.skip(1) } else { s };
    if digits.len() > 0 && all_digits(digits) && digits_value(digits) <= usize::MAX {
        Some(digits_value(digits) as usize)
    } else {
        None
    }
}

/// Parse a decimal `usize` as `str::parse` does.
pub fn parse_usize(s: &str) -> (r: Option<usize>)
    ensures
        r == parsed_usize(s@),
{
    let cs = chars_of(s);
    let start: usize = if cs.len() > 0 && cs[0] == '+' { 1 } else { 0 };
    let ghost digits = if s@.len() > 0 && s@[0] == '+' { s@.skip(1) } else { s@ };
    assert(digits =~= cs@.skip(start as int));
    if start >= cs.len() {
        return None;
    }
    let mut value: usize = 0;
    let mut i: usize = start;
    while i < cs.len()
        invariant
            start <= i <= cs@.len(),
            cs@ == s@,
            digits == (if s@.len() > 0 && s@[0] == '+' { s@.skip(1) } else { s@ }),
            digits == cs@.skip(start as int),
            all_digits(cs@.subrange(start as int, i as int)),
            value == digits_value(cs@.subrange(start as int, i as int)),
        decreases cs@.len() - i,
    {
        let c = cs[i];
        if !('0' <= c && c <= '9') {
            assert(!all_digits(digits)) by {
                assert(digits[i - start] == c);
            }
            return None;
        }
        let d = ((c as u32) - 48) as usize;
        assert(cs@.subrange(start as int, i + 1).drop_last() =~= cs@.subrange(start as int, i as int));
        if value > (usize::MAX - d) / 10 {
            proof {
                assert(value * 10 + d > usize::MAX) by (nonlinear_arith)
                    requires
                        value > (usize::MAX - d) / 10,
                        d <= 9,
                ;
                if all_digits(digits) {
                    lemma_digits_value_prefix_bound(digits, (i + 1 - start) as int);
                    assert(digits.subrange(0, (i + 1 - start) as int) =~= cs@.subrange(start as int, i + 1));
                }
            }
            return None;
        }
        value = value * 10 + d;
        i += 1;
        assert(all_digits(cs@.subrange(start as int, i as int))) by {
            assert forall|j: int| 0 <= j < i - start implies '0' <= #[trigger] cs@.subrange(
                start as int,
                i as int,
            )[j] && cs@.subrange(start as int, i as int)[j] <= '9' by {
                if j < i - 1 - start {
                    assert(cs@.subrange(start as int, i as int)[j] == cs@.subrange(start as int, i - 1)[j]);
                }
            }
        }
    }
    assert(cs@.subrange(start as int, cs@.len() as int) =~= digits);
    Some(value)
}

/// A prefix of a digit string never has a larger value than the whole.
proof fn lemma_digits_value_prefix_bound(s: Seq<char>, k: int)
    requires
        0 <= k <= s.len(),
        all_digits(s),
    ensures
        digits_value(s.subrange(0, k)) <= digits_value(s),
    decreases s.len(),
{
    if k < s.len() {
        assert(s.drop_last() =~= s.subrange(0, s.len() - 1));
        lemma_digits_value_prefix_bound(s.drop_last(), k);
        assert(s.drop_last().subrange(0, k) =~= s.subrange(0, k));
        assert('0' <= s[s.len() - 1] <= '9');
    } else {
        assert(s.subrange(0, k) =~= s);
    }
}

/// Append the UTF-8 encoding of `c` to `out`.
pub fn push_utf8(out: &mut Vec<u8>, c: char)
    ensures
        final(out)@ == old(out)@ + encode_scalar(c as u32),
{
    push_utf8_scalar(out, c as u32);
}

/// Append the UTF-8 encoding of the Unicode scalar value `v` to `out`.
pub fn push_utf8_scalar(out: &mut Vec<u8>, v: u32)
    requires
        is_scalar(v),
    ensures
        final(out)@ == old(out)@ + encode_scalar(v),
{
    if v < 0x80 {
        out.push((v & 0x7f) as u8);
    } else if v < 0x800 {
        out.push(0xc0 | ((v >> 6) & 0x1f) as u8);
        out.push(0x80 | (v & 0x3f) as u8);
    } else if v < 0x10000 {
        out.push(0xe0 | ((v >> 12) & 0x0f) as u8);
        out.push(0x80 | ((v >> 6) & 0x3f) as u8);
        out.push(0x80 | (v & 0x3f) as u8);
    } else {
        out.push(0xf0 | ((v >> 18) & 0x07) as u8);
        out.push(0x80 | ((v >> 12) & 0x3f) as u8);
        out.push(0x80 | ((v >> 6) & 0x3f) as u8);
        out.push(0x80 | (v & 0x3f) as u8);
    }
    assert(final(out)@ =~= old(out)@ + encode_scalar(v));
}

/// The parts of a character sequence split at `sep`, continuing a part that
/// so far holds `cur`.
pub open spec fn split_from(cur: Seq<char>, rest: Seq<char>, sep: char) -> Seq<Seq<char>>
    decreases rest.len(),
{
    if rest.len() == 0 {
        seq![cur]
    } else if rest[0] == sep {
        seq![cur] + split_from(Seq::empty(), rest.skip(1), sep)
    } else {
        split_from(cur.push(rest[0]), rest.skip(1), sep)
    }
}

/// Split characters at every `sep` (never empty: `str::split`).
pub fn split_chars(s: &Vec<char>, sep: char) -> (r: Vec<Vec<char>>)
    ensures
        r@.len() == split_from(Seq::empty(), s@, sep).len(),
        forall|i: int| 0 <= i < r@.len() ==> #[trigger] r@[i]@ == split_from(Seq::empty(), s@, sep)[i],
{
    let mut parts: Vec<Vec<char>> = Vec::new();
    let mut cur: Vec<char> = Vec::new();
    let ghost mut done: Seq<Seq<char>> = Seq::empty();
    let mut i: usize = 0;
    assert(s@.skip(0) =~= s@);
    while i < s.len()
        invariant
            i <= s@.len(),
            parts@.len() == done.len(),
            forall|j: int| 0 <= j < parts@.len() ==> #[trigger] parts@[j]@ == done[j],
            done + split_from(cur@, s@.skip(i as int), sep) == split_from(Seq::empty(), s@, sep),
        decreases s@.len() - i,
    {
        let ghost rest = s@.skip(i as int);
        assert(rest.skip(1) =~= s@.skip(i + 1));
        if s[i] == sep {
            let mut finished: Vec<char> = Vec::new();
            std::mem::swap(&mut cur, &mut finished);
            proof {
                assert(done.push(finished@) + split_from(Seq::empty(), rest.skip(1), sep) =~= done + (seq![
                    finished@,
                ] + split_from(Seq::empty(), rest.skip(1), sep)));
                done = done.push(finished@);
            }
            parts.push(finished);
        } else {
            cur.push(s[i]);
        }
        i += 1;
    }
    proof {
        assert(s@.skip(i as int) =~= Seq::<char>::empty());
        assert(done.push(cur@) =~= done + seq![cur@]);
        done = done.push(cur@);
    }
    parts.push(cur);
    parts
}

/// `char::is_whitespace`: the characters with Unicode's White_Space property.
pub open spec fn is_white_space(c: char) -> bool {
    ||| c == ' '
    ||| ('\t' <= c && c <= '\r')
    ||| c == '\u{85}'
    ||| c == '\u{a0}'
    ||| c == '\u{1680}'
    ||| ('\u{2000}' <= c && c <= '\u{200a}')
    ||| c == '\u{2028}'
    ||| c == '\u{2029}'
    ||| c == '\u{202f}'
    ||| c == '\u{205f}'
    ||| c == '\u{3000}'
}

pub fn white_space_char(c: char) -> (r: bool)
    ensures
        r == is_white_space(c),
{
    c == ' ' || ('\t' <= c && c <= '\r') || c == '\u{85}' || c == '\u{a0}' || c == '\u{1680}' || ('\u{2000}' <= c
        && c <= '\u{200a}') || c == '\u{2028}' || c == '\u{2029}' || c == '\u{202f}' || c == '\u{205f}' || c
        == '\u{3000}'
}

/// Characters without their trailing white space (`str::trim_end`).
pub open spec fn trimmed_end(s: Seq<char>) -> Seq<char>
    decreases s.len(),
{
    if s.len() > 0 && is_white_space(s.last()) {
        trimmed_end(s.drop_last())
    } else {
        s
    }
}

/// The lines of a text (`str::lines`): split at `\n`, with a final `\n`
/// ending the last line rather than starting an empty one. (The `\r` that
/// `str::lines` also strips is white space that `trimmed_end` removes anyway.)
pub open spec fn text_lines(s: Seq<char>) -> Seq<Seq<char>> {
    if s.len() == 0 {
        Seq::empty()
    } else if s.last() == '\n' {
        split_from(Seq::empty(), s.drop_last(), '\n')
    } else {
        split_from(Seq::empty(), s, '\n')
    }
}

/// Lines joined with `\n` between them.
pub open spec fn joined_lines(parts: Seq<Seq<char>>) -> Seq<char>
    decreases parts.len(),
{
    if parts.len() == 0 {
        Seq::empty()
    } else if parts.len() == 1 {
        parts[0]
    } else {
        joined_lines(parts.drop_last()) + seq!['\n'] + parts.last()
    }
}

/// Every line of a text with its trailing white space removed, joined again
/// with `\n` (`text.lines().map(str::trim_end).collect::<Vec<_>>().join("\n")`).
pub open spec fn tidied(s: Seq<char>) -> Seq<char> {
    joined_lines(text_lines(s).map_values(|l: Seq<char>| trimmed_end(l)))
}

/// The length of `s` without its trailing white space.
fn trimmed_len(s: &Vec<char>) -> (r: usize)
    ensures
        r <= s@.len(),
        s@.take(r as int) == trimmed_end(s@),
{
    let mut n = s.len();
    assert(s@.take(n as int) =~= s@);
    while n > 0 && white_space_char(s[n - 1])
        invariant
            n <= s@.len(),
            trimmed_end(s@) == trimmed_end(s@.take(n as int)),
        decreases n,
    {
        assert(s@.take(n as int).drop_last() =~= s@.take(n - 1));
        n -= 1;
    }
    n
}

/// Trim the trailing white space off every line and join the lines again.
pub fn tidy_lines(s: &Vec<char>) -> (r: String)
    ensures
        r@ == tidied(s@),
{
    let mut out = String::new();
    if s.len() == 0 {
        assert(text_lines(s@) =~= Seq::<Seq<char>>::empty());
        assert(text_lines(s@).map_values(|l: Seq<char>| trimmed_end(l)) =~= Seq::<Seq<char>>::empty());
        return out;
    }
    let body: Vec<char> = if s[s.len() - 1] == '\n' {
        let mut b = s.clone();
        b.pop();
        b
    } else {
        s.clone()
    };
    assert(split_from(Seq::empty(), body@, '\n') == text_lines(s@)) by {
        if s@.last() == '\n' {
            assert(body@ =~= s@.drop_last());
        } else {
            assert(body@ =~= s@);
        }
    }
    let parts = split_chars(&body, '\n');
    let ghost lines = text_lines(s@).map_values(|l: Seq<char>| trimmed_end(l));
    let mut i: usize = 0;
    while i < parts.len()
        invariant
            i <= parts@.len(),
            parts@.len() == lines.len(),
            forall|j: int| 0 <= j < parts@.len() ==> #[trigger] trimmed_end(parts@[j]@) == lines[j],
            out@ == joined_lines(lines.take(i as int)),
        decreases parts@.len() - i,
    {
        let part = &parts[i];
        let n = trimmed_len(part);
        if i > 0 {
            push_char(&mut out, '\n');
        }
        let mut k: usize = 0;
        let ghost before = out@;
        while k < n
            invariant
                k <= n <= part@.len(),
                out@ == before + part@.take(k as int),
            decreases n - k,
        {
            push_char(&mut out, part[k]);
            k += 1;
            assert(part@.take(k as int) =~= part@.take(k - 1).push(part@[k - 1]));
        }
        proof {
            assert(lines.take(i + 1).drop_last() =~= lines.take(i as int));
            assert(part@.take(n as int) == lines[i as int]);
            if i == 0 {
                assert(before =~= Seq::<char>::empty());
            }
        }
        i += 1;
    }
    assert(lines.take(i as int) =~= lines);
    out
}

/// The decimal digits of `n` as characters.
pub open spec fn decimal_chars(n: nat) -> Seq<char> {
    decimal(n).map_values(|b: u8| b as char)
}

/// Append the decimal digits of `n` to a string.
pub fn push_decimal_str(out: &mut String, n: u64)
    ensures
        final(out)@ == old(out)@ + decimal_chars(n as nat),
    decreases n,
{
    if n < 10 {
        push_char(out, ((n as u8) + 48) as char);
        assert(decimal(n as nat) =~= seq![(n + 48) as u8]);
        assert(decimal_chars(n as nat) =~= seq![((n as u8) + 48) as char]);
    } else {
        push_decimal_str(out, n / 10);
        push_char(out, (((n % 10) as u8) + 48) as char);
        assert(decimal_chars(n as nat) =~= decimal_chars((n / 10) as nat).push((((n % 10) as u8) + 48) as char));
    }
}

} // verus!
