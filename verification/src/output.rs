//! From the bytes a command printed to the text of the number it reported.

use crate::error::Error;
use crate::number::{is_float_literal, is_float_text};
use vstd::prelude::*;
use vstd::utf8::{decode_utf8, valid_utf8};

verus! {

/// The error of `String::from_utf8`, of which nothing is read.
#[verifier::external_type_specification]
#[verifier::external_body]
pub struct ExFromUtf8Error(std::string::FromUtf8Error);

/// `String::from_utf8` succeeds on the byte sequences that are UTF-8, and on
/// those alone. The string it gives holds the characters that the bytes
/// encode.
pub assume_specification[ String::from_utf8 ](vec: Vec<u8>) -> (res: Result<
    String,
    std::string::FromUtf8Error,
>)
    ensures
        res is Ok <==> valid_utf8(vec@),
        res is Ok ==> res->Ok_0@ == decode_utf8(vec@),
;

/// `String::push` puts one character at the end of the string.
pub assume_specification[ String::push ](s: &mut String, ch: char)
    ensures
        final(s)@ == old(s)@.push(ch),
;

/// Whether `c` is white space: a character with Unicode's `White_Space`
/// property.
pub open spec fn is_whitespace(c: char) -> bool {
    let code = c as u32;
    ||| 0x09 <= code <= 0x0D
    ||| code == 0x20
    ||| code == 0x85
    ||| code == 0xA0
    ||| code == 0x1680
    ||| 0x2000 <= code <= 0x200A
    ||| code == 0x2028
    ||| code == 0x2029
    ||| code == 0x202F
    ||| code == 0x205F
    ||| code == 0x3000
}

/// `s` without the white space it starts with.
pub open spec fn trimmed_start(s: Seq<char>) -> Seq<char>
    decreases s.len(),
{
    if s.len() > 0 && is_whitespace(s[0]) {
        trimmed_start(s.drop_first())
    } else {
        s
    }
}

/// `s` without the white space it ends with.
pub open spec fn trimmed_end(s: Seq<char>) -> Seq<char>
    decreases s.len(),
{
    if s.len() > 0 && is_whitespace(s.last()) {
        trimmed_end(s.drop_last())
    } else {
        s
    }
}

/// `s` without the white space around it.
pub open spec fn trimmed(s: Seq<char>) -> Seq<char> {
    trimmed_end(trimmed_start(s))
}

/// The characters that are no line feed.
pub open spec fn not_newline() -> spec_fn(char) -> bool {
    |c: char| c != '\n'
}

/// `s` without its line feeds.
pub open spec fn without_newlines(s: Seq<char>) -> Seq<char> {
    s.filter(not_newline())
}

/// What is left of a command's output to be read as a number: the white space
/// around it is cut off first, then every line feed inside is dropped, so that
/// digits on separate lines run together.
pub open spec fn cleaned(s: Seq<char>) -> Seq<char> {
    without_newlines(trimmed(s))
}

/// Tells whether `c` is white space.
pub fn char_is_whitespace(c: char) -> (b: bool)
    ensures
        b == is_whitespace(c),
{
    let code: u32 = c as u32;
    (0x09 <= code && code <= 0x0D) || code == 0x20 || code == 0x85 || code == 0xA0
        || code == 0x1680 || (0x2000 <= code && code <= 0x200A) || code == 0x2028
        || code == 0x2029 || code == 0x202F || code == 0x205F || code == 0x3000
}

/// The characters of `s`, one by one.
pub fn chars_of(s: &str) -> (chars: Vec<char>)
    ensures
        chars@ == s@,
{
    let mut chars: Vec<char> = Vec::new();
    for c in it: s.chars()
        invariant
            chars@ == it.seq().take(it.index()),
            it.seq() == s@,
    {
        chars.push(c);
    }
    chars
}

/// Cutting white space off the front goes on behind a white-space character.
proof fn lemma_trimmed_start_step(s: Seq<char>, k: int)
    requires
        0 <= k < s.len(),
        is_whitespace(s[k]),
    ensures
        trimmed_start(s.skip(k)) == trimmed_start(s.skip(k + 1)),
{
    assert(s.skip(k).drop_first() =~= s.skip(k + 1));
}

/// Cutting white space off the end goes on in front of a white-space character.
proof fn lemma_trimmed_end_step(s: Seq<char>, from: int, k: int)
    requires
        0 <= from < k <= s.len(),
        is_whitespace(s[k - 1]),
    ensures
        trimmed_end(s.subrange(from, k)) == trimmed_end(s.subrange(from, k - 1)),
{
    assert(s.subrange(from, k).drop_last() =~= s.subrange(from, k - 1));
}

/// Cuts the white space off both ends of `chars` and drops the line feeds
/// from what is left.
pub fn clean(chars: &Vec<char>) -> (text: Vec<char>)
    ensures
        text@ == cleaned(chars@),
{
    let mut start: usize = 0;
    assert(chars@.skip(0) =~= chars@);
    while start < chars.len() && char_is_whitespace(chars[start])
        invariant
            start <= chars.len(),
            trimmed_start(chars@) == trimmed_start(chars@.skip(start as int)),
        decreases chars.len() - start,
    {
        proof {
            lemma_trimmed_start_step(chars@, start as int);
        }
        start += 1;
    }
    assert(trimmed_start(chars@) == chars@.skip(start as int));
    let mut end: usize = chars.len();
    assert(chars@.subrange(start as int, end as int) =~= chars@.skip(start as int));
    while end > start && char_is_whitespace(chars[end - 1])
        invariant
            start <= end <= chars.len(),
            trimmed(chars@) == trimmed_end(chars@.subrange(start as int, end as int)),
        decreases end,
    {
        proof {
            lemma_trimmed_end_step(chars@, start as int, end as int);
        }
        end -= 1;
    }
    assert(trimmed(chars@) == chars@.subrange(start as int, end as int));
    let mut text: Vec<char> = Vec::new();
    let mut i: usize = start;
    proof {
        reveal(Seq::filter);
        assert(chars@.subrange(start as int, start as int) =~= Seq::<char>::empty());
    }
    while i < end
        invariant
            start <= i <= end <= chars.len(),
            text@ == without_newlines(chars@.subrange(start as int, i as int)),
        decreases end - i,
    {
        proof {
            reveal(Seq::filter);
            let next = chars@.subrange(start as int, i + 1);
            assert(next.drop_last() =~= chars@.subrange(start as int, i as int));
            assert(next.last() == chars@[i as int]);
        }
        if chars[i] != '\n' {
            text.push(chars[i]);
        }
        i += 1;
    }
    text
}

/// The string made of `chars`.
pub fn string_of(chars: &Vec<char>) -> (s: String)
    ensures
        s@ == chars@,
{
    let mut s = String::new();
    let mut i: usize = 0;
    while i < chars.len()
        invariant
            i <= chars.len(),
            s@ == chars@.take(i as int),
        decreases chars.len() - i,
    {
        assert(chars@.take(i + 1) =~= chars@.take(i as int).push(chars@[i as int]));
        s.push(chars[i]);
        i += 1;
    }
    assert(chars@.take(chars@.len() as int) =~= chars@);
    s
}

/// What a command's output `raw` amounts to: the text of the number it
/// reports, or the reason why it reports none.
pub open spec fn parsed_output(raw: Seq<u8>) -> Result<Seq<char>, Error> {
    if !valid_utf8(raw) {
        Err(Error::FromUtf8)
    } else if !is_float_literal(cleaned(decode_utf8(raw))) {
        Err(Error::Parse)
    } else {
        Ok(cleaned(decode_utf8(raw)))
    }
}

/// Reads the output of a command: decodes it, cuts the white space off both
/// ends, drops the line feeds, and checks that what is left denotes a
/// floating-point number. Gives that text, which then holds nothing but
/// what the number is written with.
pub fn parse_output(raw: Vec<u8>) -> (parsed: Result<String, Error>)
    ensures
        match parsed {
            Ok(text) => parsed_output(raw@) == Ok::<Seq<char>, Error>(text@),
            Err(error) => parsed_output(raw@) == Err::<Seq<char>, Error>(error),
        },
{
    let decoded = match String::from_utf8(raw) {
        Ok(decoded) => decoded,
        Err(_) => {
            return Err(Error::FromUtf8);
        },
    };
    let chars = chars_of(decoded.as_str());
    let text = clean(&chars);
    if !is_float_text(text.as_slice()) {
        return Err(Error::Parse);
    }
    Ok(string_of(&text))
}

} // verus!
