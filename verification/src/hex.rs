//! Strict decoding of `0xNN` byte literals and lowercase hex rendering.

use vstd::prelude::*;
use vstd::std_specs::iter::IteratorSpec;
use vstd::string::*;

use crate::text::push_char;

verus! {

/// Why a token is not a byte literal. Every variant carries the offending token.
#[derive(Debug, Clone, Copy, PartialEq)]
pub enum HexError<'a> {
    InvalidHexPrefix { hex: &'a str },
    InvalidLength { hex: &'a str },
    InvalidHexCharacter { ch: char, hex: &'a str },
}

/// The mathematical content of a [`HexError`]: the token as a sequence of characters.
pub ghost enum HexErrorView {
    InvalidHexPrefix { hex: Seq<char> },
    InvalidLength { hex: Seq<char> },
    InvalidHexCharacter { ch: char, hex: Seq<char> },
}

impl<'a> View for HexError<'a> {
    type V = HexErrorView;

    open spec fn view(&self) -> HexErrorView {
        match *self {
            HexError::InvalidHexPrefix { hex } => HexErrorView::InvalidHexPrefix { hex: hex@ },
            HexError::InvalidLength { hex } => HexErrorView::InvalidLength { hex: hex@ },
            HexError::InvalidHexCharacter { ch, hex } => HexErrorView::InvalidHexCharacter {
                ch,
                hex: hex@,
            },
        }
    }
}

/// The message that reports an error to a person.
pub open spec fn message_of(e: HexErrorView) -> Seq<char> {
    match e {
        HexErrorView::InvalidHexPrefix { hex } => "Invalid hex prefix '"@ + hex
            + "', should start with 0x or 0X"@,
        HexErrorView::InvalidLength { hex } => "Invalid string length '"@ + hex
            + "', should be 4, e.g. '0x12'"@,
        HexErrorView::InvalidHexCharacter { ch, hex } => "Invalid character '"@.push(ch)
            + "' in string '"@ + hex + "'"@,
    }
}

impl<'a> HexError<'a> {
    /// The token that was refused.
    pub fn token(&self) -> (hex: &'a str)
        ensures
            hex@ == match self@ {
                HexErrorView::InvalidHexPrefix { hex } => hex,
                HexErrorView::InvalidLength { hex } => hex,
                HexErrorView::InvalidHexCharacter { hex, .. } => hex,
            },
    {
        match *self {
            HexError::InvalidHexPrefix { hex } => hex,
            HexError::InvalidLength { hex } => hex,
            HexError::InvalidHexCharacter { hex, .. } => hex,
        }
    }

    /// The message that reports the error to a person: it names the token and
    /// says what is wrong with it.
    pub fn message(&self) -> (s: String)
        ensures
            s@ == message_of(self@),
    {
        match *self {
            HexError::InvalidHexPrefix { hex } => {
                let mut s = String::from_str("Invalid hex prefix '");
                s.append(hex);
                s.append("', should start with 0x or 0X");
                s
            },
            HexError::InvalidLength { hex } => {
                let mut s = String::from_str("Invalid string length '");
                s.append(hex);
                s.append("', should be 4, e.g. '0x12'");
                s
            },
            HexError::InvalidHexCharacter { ch, hex } => {
                let mut s = String::from_str("Invalid character '");
                push_char(&mut s, ch);
                s.append("' in string '");
                s.append(hex);
                s.append("'");
                s
            },
        }
    }
}

/// The value of one hexadecimal digit, of either case; `None` for any other character.
pub open spec fn hex_value(c: char) -> Option<u8> {
    if 'A' <= c && c <= 'F' {
        Some((c as u8 - 'A' as u8 + 10) as u8)
    } else if 'a' <= c && c <= 'f' {
        Some((c as u8 - 'a' as u8 + 10) as u8)
    } else if '0' <= c && c <= '9' {
        Some((c as u8 - '0' as u8) as u8)
    } else {
        None
    }
}

/// What a token decodes to: a token is exactly four characters, `0x` or `0X`
/// followed by two hexadecimal digits, and its value is `16 * hi + lo`.
/// The conditions are tested in that order, and the first one violated is reported.
pub open spec fn token_value(t: Seq<char>) -> Result<u8, HexErrorView> {
    if t.len() != 4 {
        Err(HexErrorView::InvalidLength { hex: t })
    } else if !(t[0] == '0' && (t[1] == 'x' || t[1] == 'X')) {
        Err(HexErrorView::InvalidHexPrefix { hex: t })
    } else {
        match hex_value(t[2]) {
            None => Err(HexErrorView::InvalidHexCharacter { ch: t[2], hex: t }),
            Some(hi) => match hex_value(t[3]) {
                None => Err(HexErrorView::InvalidHexCharacter { ch: t[3], hex: t }),
                Some(lo) => Ok((16 * hi + lo) as u8),
            },
        }
    }
}

/// The outcome of decoding one token, with the error taken by its view.
pub open spec fn byte_outcome(r: Result<u8, HexError>) -> Result<u8, HexErrorView> {
    match r {
        Ok(b) => Ok(b),
        Err(e) => Err(e@),
    }
}

fn digit(ch: char) -> (r: Option<u8>)
    ensures
        r == hex_value(ch),
{
    if 'A' <= ch && ch <= 'F' {
        Some(ch as u8 - 'A' as u8 + 10)
    } else if 'a' <= ch && ch <= 'f' {
        Some(ch as u8 - 'a' as u8 + 10)
    } else if '0' <= ch && ch <= '9' {
        Some(ch as u8 - '0' as u8)
    } else {
        None
    }
}

/// Value of the hexadecimal digit `ch`; `hex` is the token it was taken from,
/// reported in the error when `ch` is no digit.
pub fn val<'a>(ch: char, hex: &'a str) -> (r: Result<u8, HexError<'a>>)
    ensures
        match hex_value(ch) {
            Some(v) => r == Ok::<u8, HexError<'a>>(v),
            None => r == Err::<u8, HexError<'a>>(HexError::InvalidHexCharacter { ch, hex }),
        },
{
    match digit(ch) {
        Some(v) => Ok(v),
        None => Err(HexError::InvalidHexCharacter { ch, hex }),
    }
}

/// What makes a token no byte literal, before the token is attached.
enum Flaw {
    Length,
    Prefix,
    Character(char),
}

impl Flaw {
    spec fn of(self, token: Seq<char>) -> HexErrorView {
        match self {
            Flaw::Length => HexErrorView::InvalidLength { hex: token },
            Flaw::Prefix => HexErrorView::InvalidHexPrefix { hex: token },
            Flaw::Character(ch) => HexErrorView::InvalidHexCharacter { ch, hex: token },
        }
    }

    fn report<'a>(self, hex: &'a str) -> (e: HexError<'a>)
        ensures
            e@ == self.of(hex@),
    {
        match self {
            Flaw::Length => HexError::InvalidLength { hex },
            Flaw::Prefix => HexError::InvalidHexPrefix { hex },
            Flaw::Character(ch) => HexError::InvalidHexCharacter { ch, hex },
        }
    }
}

/// Decodes the token that stands in `chars` from `start` up to `end`.
fn token_byte(chars: &[char], start: usize, end: usize) -> (r: Result<u8, Flaw>)
    requires
        start <= end <= chars@.len(),
    ensures
        token_value(chars@.subrange(start as int, end as int)) == match r {
            Ok(b) => Ok::<u8, HexErrorView>(b),
            Err(flaw) => Err(flaw.of(chars@.subrange(start as int, end as int))),
        },
{
    if end - start != 4 {
        return Err(Flaw::Length);
    }
    if !(chars[start] == '0' && (chars[start + 1] == 'x' || chars[start + 1] == 'X')) {
        return Err(Flaw::Prefix);
    }
    let hi = match digit(chars[start + 2]) {
        Some(v) => v,
        None => {
            return Err(Flaw::Character(chars[start + 2]));
        },
    };
    let lo = match digit(chars[start + 3]) {
        Some(v) => v,
        None => {
            return Err(Flaw::Character(chars[start + 3]));
        },
    };
    Ok(hi * 16 + lo)
}

/// Decodes one token.
pub fn hex_to_byte<'a>(hex_string: &'a str) -> (r: Result<u8, HexError<'a>>)
    ensures
        byte_outcome(r) == token_value(hex_string@),
{
    let chars = to_chars(hex_string);
    assert(chars@.subrange(0, chars@.len() as int) =~= hex_string@);
    match token_byte(chars.as_slice(), 0, chars.len()) {
        Ok(b) => Ok(b),
        Err(flaw) => Err(flaw.report(hex_string)),
    }
}

/// Collects the characters of a string slice into a vector.
fn to_chars(s: &str) -> (v: Vec<char>)
    ensures
        v@ == s@,
{
    broadcast use vstd::string::group_string_axioms;

    let mut it = s.chars();
    let mut v: Vec<char> = Vec::new();
    loop
        invariant
            it.obeys_prophetic_iter_laws(),
            it.decrease() is Some,
            v@ + it.remaining() == s@,
        ensures
            v@ == s@,
        decreases it.decrease()->0,
    {
        match it.next() {
            Some(c) => {
                v.push(c);
            },
            None => {
                break ;
            },
        }
    }
    v
}

/// The `White_Space` property of a character beyond ASCII, as `char::is_whitespace` reports it.
pub uninterp spec fn unicode_white_space(c: char) -> bool;

/// Whether a character is whitespace: among ASCII characters the space and
/// U+0009 to U+000D; beyond them the characters with the `White_Space` property.
pub open spec fn is_whitespace(c: char) -> bool {
    if (c as u32) < 0x80 {
        c == ' ' || ('\u{9}' <= c && c <= '\u{d}')
    } else {
        unicode_white_space(c)
    }
}

/// Whether a character ends a token: any whitespace, or a comma.
pub open spec fn is_separator(c: char) -> bool {
    c == ',' || is_whitespace(c)
}

/// `char::is_whitespace` of std, which reports the Unicode property
/// `White_Space`. Not proved: that among ASCII characters the property holds of
/// the space and of U+0009 to U+000D alone, and that beyond ASCII the answer
/// depends on the character alone.
#[verifier::external_body]
fn char_is_whitespace(c: char) -> (r: bool)
    ensures
        r == is_whitespace(c),
        (c as u32) >= 0x80 ==> r == unicode_white_space(c),
{
    c.is_whitespace()
}

fn separates(c: char) -> (r: bool)
    ensures
        r == is_separator(c),
{
    c == ',' || char_is_whitespace(c)
}

/// The first position at or after `i` that holds a separator, or the length of
/// `s` where none follows.
pub open spec fn token_end(s: Seq<char>, i: int) -> int
    decreases s.len() - i,
{
    if i < 0 || i >= s.len() || is_separator(s[i]) {
        i
    } else {
        token_end(s, i + 1)
    }
}

/// A token ends at or after its start and within the string, on a separator
/// unless at the end of the string, and holds no separator before its end.
pub proof fn lemma_token_end_bounds(s: Seq<char>, i: int)
    requires
        0 <= i <= s.len(),
    ensures
        i <= token_end(s, i) <= s.len(),
        token_end(s, i) < s.len() ==> is_separator(s[token_end(s, i)]),
        forall|k: int| i <= k < token_end(s, i) ==> !is_separator(#[trigger] s[k]),
    decreases s.len() - i,
{
    if i < s.len() && !is_separator(s[i]) {
        lemma_token_end_bounds(s, i + 1);
    }
}

/// The tokens of `s` from position `i` on, in order: the maximal runs of
/// characters that hold no separator. `i` stands at the start of a run or on a separator.
pub open spec fn tokens_from(s: Seq<char>, i: int) -> Seq<Seq<char>>
    decreases s.len() - i,
{
    if i < 0 || i >= s.len() {
        Seq::empty()
    } else if is_separator(s[i]) {
        tokens_from(s, i + 1)
    } else {
        proof {
            lemma_token_end_bounds(s, i + 1);
        }
        seq![s.subrange(i, token_end(s, i))] + tokens_from(s, token_end(s, i))
    }
}

/// The tokens of `s`: what is left after splitting at every separator and
/// discarding the empty pieces.
pub open spec fn tokens(s: Seq<char>) -> Seq<Seq<char>> {
    tokens_from(s, 0)
}

/// The bytes that a sequence of tokens decodes to, or the error of the first
/// token that is no byte literal.
pub open spec fn values_of(ts: Seq<Seq<char>>) -> Result<Seq<u8>, HexErrorView>
    decreases ts.len(),
{
    if ts.len() == 0 {
        Ok(Seq::empty())
    } else {
        match token_value(ts[0]) {
            Err(e) => Err(e),
            Ok(b) => with_prefix(seq![b], values_of(ts.drop_first())),
        }
    }
}

/// `r` with the bytes `p` in front of what it decoded, an error unchanged.
pub open spec fn with_prefix(p: Seq<u8>, r: Result<Seq<u8>, HexErrorView>) -> Result<
    Seq<u8>,
    HexErrorView,
> {
    match r {
        Ok(rest) => Ok(p + rest),
        Err(e) => Err(e),
    }
}

/// What a string of byte literals decodes to.
pub open spec fn decoded(s: Seq<char>) -> Result<Seq<u8>, HexErrorView> {
    values_of(tokens(s))
}

/// The outcome of decoding a string, with bytes and error taken by their views.
pub open spec fn bytes_outcome(r: Result<Vec<u8>, HexError>) -> Result<Seq<u8>, HexErrorView> {
    match r {
        Ok(v) => Ok(v@),
        Err(e) => Err(e@),
    }
}

/// Decodes a string of byte literals separated by whitespace or commas.
/// The first token that is no byte literal fails the whole string.
pub fn hex_to_byte_slice<'a>(hex_string: &'a str) -> (r: Result<Vec<u8>, HexError<'a>>)
    ensures
        bytes_outcome(r) == decoded(hex_string@),
{
    let chars = to_chars(hex_string);
    let n = chars.len();
    let mut bytes: Vec<u8> = Vec::new();
    let mut i: usize = 0;
    while i < n
        invariant
            chars@ == hex_string@,
            n == chars.len(),
            i <= n,
            decoded(hex_string@) == with_prefix(bytes@, values_of(tokens_from(hex_string@, i as int))),
        decreases n - i,
    {
        if separates(chars[i]) {
            i += 1;
        } else {
            let start = i;
            let mut end = i + 1;
            while end < n && !separates(chars[end])
                invariant
                    chars@ == hex_string@,
                    n == chars.len(),
                    start < end <= n,
                    token_end(hex_string@, start as int) == token_end(hex_string@, end as int),
                decreases n - end,
            {
                end += 1;
            }
            proof {
                let ts = tokens_from(hex_string@, start as int);
                assert(ts.drop_first() =~= tokens_from(hex_string@, end as int));
            }
            match token_byte(chars.as_slice(), start, end) {
                Ok(b) => {
                    proof {
                        let rest = values_of(tokens_from(hex_string@, end as int));
                        if let Ok(tail) = rest {
                            assert(bytes@ + (seq![b] + tail) =~= bytes@.push(b) + tail);
                        }
                    }
                    bytes.push(b);
                    i = end;
                },
                Err(flaw) => {
                    return Err(flaw.report(hex_string.substring_char(start, end)));
                },
            }
        }
    }
    assert(bytes@ + Seq::<u8>::empty() =~= bytes@);
    Ok(bytes)
}

/// The lowercase hexadecimal digit of a value below 16.
pub open spec fn hex_digit(n: u8) -> char {
    if n < 10 {
        ('0' as u8 + n) as char
    } else {
        ('a' as u8 + (n - 10)) as char
    }
}

/// The rendering of bytes in hexadecimal: two lowercase digits for each byte,
/// high nibble first, with nothing between them.
pub open spec fn hex_string(bytes: Seq<u8>) -> Seq<char> {
    Seq::new(
        2 * bytes.len(),
        |k: int|
            if k % 2 == 0 {
                hex_digit(bytes[k / 2] / 16)
            } else {
                hex_digit(bytes[k / 2] % 16)
            },
    )
}

fn digit_char(n: u8) -> (c: char)
    requires
        n < 16,
    ensures
        c == hex_digit(n),
{
    if n < 10 {
        ('0' as u8 + n) as char
    } else {
        ('a' as u8 + (n - 10)) as char
    }
}

/// Renders bytes as lowercase hexadecimal.
pub fn bytes_to_hex_string(bytes: &[u8]) -> (s: String)
    ensures
        s@ == hex_string(bytes@),
{
    let mut s = String::new();
    let mut i: usize = 0;
    while i < bytes.len()
        invariant
            i <= bytes.len(),
            s@.len() == 2 * i,
            forall|k: int| 0 <= k < 2 * i ==> #[trigger] s@[k] == hex_string(bytes@)[k],
        decreases bytes.len() - i,
    {
        let b = bytes[i];
        push_char(&mut s, digit_char(b / 16));
        push_char(&mut s, digit_char(b % 16));
        i += 1;
    }
    assert(s@ =~= hex_string(bytes@));
    s
}

/// Whether `t` is a run that a token can be: not empty, and free of separators.
pub open spec fn is_run(t: Seq<char>) -> bool {
    t.len() > 0 && forall|m: int| 0 <= m < t.len() ==> !is_separator(#[trigger] t[m])
}

/// No token is empty, and none holds a separator.
pub proof fn lemma_tokens_are_runs(s: Seq<char>, i: int)
    requires
        0 <= i <= s.len(),
    ensures
        forall|k: int| 0 <= k < tokens_from(s, i).len() ==> is_run(#[trigger] tokens_from(s, i)[k]),
    decreases s.len() - i,
{
    if i < s.len() {
        if is_separator(s[i]) {
            lemma_tokens_are_runs(s, i + 1);
            assert(tokens_from(s, i) == tokens_from(s, i + 1));
        } else {
            let e = token_end(s, i);
            lemma_token_end_bounds(s, i + 1);
            lemma_token_end_bounds(s, i);
            lemma_tokens_are_runs(s, e);
            let first = s.subrange(i, e);
            assert(is_run(first)) by {
                assert forall|m: int| 0 <= m < first.len() implies !is_separator(
                    #[trigger] first[m],
                ) by {
                    assert(first[m] == s[i + m]);
                }
            }
            let ts = tokens_from(s, i);
            let rest = tokens_from(s, e);
            assert forall|k: int| 0 <= k < ts.len() implies is_run(#[trigger] ts[k]) by {
                if k > 0 {
                    assert(ts[k] == rest[k - 1]);
                } else {
                    assert(ts[k] == first);
                }
            }
        }
    }
}

/// Decoding is all or nothing. It gives bytes only where every token is a byte
/// literal, and then one byte for each token, in order. It fails with the error
/// of the first token that is no byte literal.
pub proof fn lemma_values_of(ts: Seq<Seq<char>>)
    ensures
        match values_of(ts) {
            Ok(bytes) => bytes.len() == ts.len() && forall|k: int|
                0 <= k < ts.len() ==> token_value(#[trigger] ts[k]) == Ok::<u8, HexErrorView>(
                    bytes[k],
                ),
            Err(e) => exists|k: int|
                0 <= k < ts.len() && token_value(#[trigger] ts[k]) == Err::<u8, HexErrorView>(e)
                    && forall|m: int| 0 <= m < k ==> token_value(#[trigger] ts[m]) is Ok,
        },
    decreases ts.len(),
{
    if ts.len() > 0 {
        let rest = ts.drop_first();
        lemma_values_of(rest);
        match token_value(ts[0]) {
            Err(e) => {
                assert(token_value(ts[0]) == Err::<u8, HexErrorView>(e));
            },
            Ok(b) => {
                match values_of(rest) {
                    Ok(tail) => {
                        let bytes = seq![b] + tail;
                        assert forall|k: int| 0 <= k < ts.len() implies token_value(
                            #[trigger] ts[k],
                        ) == Ok::<u8, HexErrorView>(bytes[k]) by {
                            if k > 0 {
                                assert(ts[k] == rest[k - 1]);
                            }
                        }
                    },
                    Err(e) => {
                        let k = choose|k: int|
                            0 <= k < rest.len() && token_value(#[trigger] rest[k]) == Err::<
                                u8,
                                HexErrorView,
                            >(e) && forall|m: int|
                                0 <= m < k ==> token_value(#[trigger] rest[m]) is Ok;
                        assert(ts[k + 1] == rest[k]);
                        assert forall|m: int| 0 <= m < k + 1 implies token_value(
                            #[trigger] ts[m],
                        ) is Ok by {
                            if m > 0 {
                                assert(ts[m] == rest[m - 1]);
                            }
                        }
                    },
                }
            },
        }
    }
}

/// The byte literal of `b`: `0x` and its two lowercase hexadecimal digits.
pub open spec fn literal_of(b: u8) -> Seq<char> {
    seq!['0', 'x', hex_digit(b / 16), hex_digit(b % 16)]
}

/// Bytes written as byte literals with one space between neighbours.
pub open spec fn literals_of(bytes: Seq<u8>) -> Seq<char>
    decreases bytes.len(),
{
    if bytes.len() == 0 {
        Seq::empty()
    } else if bytes.len() == 1 {
        literal_of(bytes[0])
    } else {
        literal_of(bytes[0]) + seq![' '] + literals_of(bytes.drop_first())
    }
}

proof fn lemma_token_end_shift(p: Seq<char>, t: Seq<char>, i: int)
    requires
        0 <= i <= t.len(),
    ensures
        token_end(p + t, p.len() + i) == p.len() + token_end(t, i),
    decreases t.len() - i,
{
    if i < t.len() {
        assert((p + t)[p.len() + i] == t[i]);
        if !is_separator(t[i]) {
            lemma_token_end_shift(p, t, i + 1);
        }
    }
}

proof fn lemma_tokens_shift(p: Seq<char>, t: Seq<char>, i: int)
    requires
        0 <= i <= t.len(),
    ensures
        tokens_from(p + t, p.len() + i) == tokens_from(t, i),
    decreases t.len() - i,
{
    if i < t.len() {
        assert((p + t)[p.len() + i] == t[i]);
        if is_separator(t[i]) {
            lemma_tokens_shift(p, t, i + 1);
        } else {
            let e = token_end(t, i);
            lemma_token_end_bounds(t, i + 1);
            lemma_token_end_shift(p, t, i);
            lemma_tokens_shift(p, t, e);
            assert((p + t).subrange(p.len() + i, p.len() + e) =~= t.subrange(i, e));
        }
    }
}

/// A hexadecimal digit has the value it was written for, and is no separator.
pub proof fn lemma_hex_digit(n: u8)
    requires
        n < 16,
    ensures
        hex_value(hex_digit(n)) == Some(n),
        !is_separator(hex_digit(n)),
{
}

/// A byte literal decodes to the byte it was written for.
pub proof fn lemma_literal_value(b: u8)
    ensures
        token_value(literal_of(b)) == Ok::<u8, HexErrorView>(b),
{
    lemma_hex_digit(b / 16);
    lemma_hex_digit(b % 16);
}

/// Decoding inverts encoding: bytes written as byte literals with spaces
/// between them decode to the same bytes, whatever their values.
pub proof fn lemma_decode_inverts_literals(bytes: Seq<u8>)
    ensures
        decoded(literals_of(bytes)) == Ok::<Seq<u8>, HexErrorView>(bytes),
    decreases bytes.len(),
{
    let s = literals_of(bytes);
    if bytes.len() == 0 {
        assert(bytes =~= Seq::empty());
    } else {
        let b = bytes[0];
        let lit = literal_of(b);
        lemma_hex_digit(b / 16);
        lemma_hex_digit(b % 16);
        lemma_literal_value(b);
        assert(forall|k: int| 0 <= k < 4 ==> s[k] == lit[k]);
        assert(token_end(s, 4) == 4);
        assert(token_end(s, 3) == 4);
        assert(token_end(s, 2) == 4);
        assert(token_end(s, 1) == 4);
        assert(token_end(s, 0) == 4);
        assert(s.subrange(0, 4) =~= lit);
        let rest = bytes.drop_first();
        if bytes.len() == 1 {
            assert(tokens_from(s, 4) =~= Seq::empty());
            assert(rest =~= Seq::empty());
        } else {
            let p = lit + seq![' '];
            let t = literals_of(rest);
            assert(s =~= p + t);
            assert(s[4] == ' ');
            lemma_tokens_shift(p, t, 0);
            assert(tokens_from(s, 4) == tokens_from(s, 5));
            lemma_decode_inverts_literals(rest);
        }
        let ts = tokens(s);
        assert(ts.drop_first() =~= tokens(literals_of(rest)));
        assert(seq![b] + rest =~= bytes);
    }
}

} // verus!
