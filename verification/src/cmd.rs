//! The command line of the configuration prompt.
//!
//! A line is cut at its spaces into tokens, after the white space at its end
//! is dropped. The first token, in any case of its letters, names the
//! command; the others are its arguments.
use vstd::prelude::*;
use vstd::string::StrSliceExecFns;
use vstd::string::StringExecFns;
use vstd::utf8::encode_utf8;
use crate::engine::MODE_ALL;
use crate::engine::MODE_NONE;
use crate::engine::MODE_REMOVE;
use crate::engine::MODE_TO;
use crate::engine::NAME_MAX;
use crate::error::result_view;
use crate::error::NumberError;
use crate::error::ParseError;
use crate::error::ParseErrorView;

verus! {

/// What a command line asks for.
#[derive(Clone, Debug, PartialEq, Eq)]
pub enum Command {
    /// Show the help text.
    Help,
    /// Show the router's version and port counts.
    Info,
    /// Show the state of port `srcport`, or of all ports where it is 0.
    Print { srcport: u8 },
    /// Change where `srcport` forwards to, then show its state.
    Forward { srcport: u8, dstport: u8, mode: u8 },
    /// Write the configuration to flash.
    Write,
    /// Reload the configuration from flash.
    Reload,
    /// Reset the configuration to the defaults.
    Defaults,
    /// Give `srcport` the name `name`.
    Name { srcport: u8, name: String },
    /// Light the LEDs of `srcport`.
    Identify { srcport: u8 },
    /// The line is empty, or starts with a space: nothing to do.
    Empty,
    /// No command has this name. Holds the name as it was typed.
    Unknown { word: String },
}

/// What a `Command` holds.
pub enum CommandView {
    Help,
    Info,
    Print { srcport: u8 },
    Forward { srcport: u8, dstport: u8, mode: u8 },
    Write,
    Reload,
    Defaults,
    Name { srcport: u8, name: Seq<char> },
    Identify { srcport: u8 },
    Empty,
    Unknown { word: Seq<char> },
}

impl View for Command {
    type V = CommandView;

    open spec fn view(&self) -> CommandView {
        match self {
            Command::Help => CommandView::Help,
            Command::Info => CommandView::Info,
            Command::Print { srcport } => CommandView::Print { srcport: *srcport },
            Command::Forward { srcport, dstport, mode } => CommandView::Forward {
                srcport: *srcport,
                dstport: *dstport,
                mode: *mode,
            },
            Command::Write => CommandView::Write,
            Command::Reload => CommandView::Reload,
            Command::Defaults => CommandView::Defaults,
            Command::Name { srcport, name } => CommandView::Name { srcport: *srcport, name: name@ },
            Command::Identify { srcport } => CommandView::Identify { srcport: *srcport },
            Command::Empty => CommandView::Empty,
            Command::Unknown { word } => CommandView::Unknown { word: word@ },
        }
    }
}

/// Whether `c` is white space: one of the characters with the Unicode
/// property `White_Space`.
pub open spec fn is_space(c: char) -> bool {
    ||| '\u{9}' <= c <= '\u{d}'
    ||| c == ' '
    ||| c == '\u{85}'
    ||| c == '\u{a0}'
    ||| c == '\u{1680}'
    ||| '\u{2000}' <= c <= '\u{200a}'
    ||| c == '\u{2028}'
    ||| c == '\u{2029}'
    ||| c == '\u{202f}'
    ||| c == '\u{205f}'
    ||| c == '\u{3000}'
}

/// `text` without the white space at its end.
pub open spec fn trim_end(text: Seq<char>) -> Seq<char>
    decreases text.len(),
{
    if text.len() > 0 && is_space(text.last()) {
        trim_end(text.drop_last())
    } else {
        text
    }
}

/// The number of characters of `text` before its first space; its length
/// where it has none.
pub open spec fn first_space(text: Seq<char>) -> nat
    decreases text.len(),
{
    if text.len() > 0 && text[0] != ' ' {
        1 + first_space(text.skip(1))
    } else {
        0
    }
}

/// The tokens of `text`: the pieces between its spaces, in their order.
/// There is one token more than there are spaces; two spaces in a row have
/// an empty token between them.
pub open spec fn split(text: Seq<char>) -> Seq<Seq<char>>
    decreases text.len(),
{
    let k = first_space(text) as int;
    if k < text.len() {
        seq![text.take(k)] + split(text.skip(k + 1))
    } else {
        seq![text]
    }
}

/// `c`, as a small letter where it is one of the capital letters `A` to `Z`.
pub open spec fn lower_char(c: char) -> char {
    if 'A' <= c <= 'Z' {
        ((c as u8) + 32) as char
    } else {
        c
    }
}

/// `text` with its capital letters `A` to `Z` made small.
pub open spec fn lower(text: Seq<char>) -> Seq<char> {
    Seq::new(text.len(), |i: int| lower_char(text[i]))
}

/// Whether `c` is a decimal digit.
pub open spec fn is_digit(c: char) -> bool {
    '0' <= c <= '9'
}

/// The value of the digit `c`.
pub open spec fn digit_value(c: char) -> nat
    recommends
        is_digit(c),
{
    (c as u32 - '0' as u32) as nat
}

/// The number that `digits` are the decimal digits of; 0 for none.
pub open spec fn decimal_value(digits: Seq<char>) -> nat
    decreases digits.len(),
{
    if digits.len() == 0 {
        0
    } else {
        decimal_value(digits.drop_last()) * 10 + digit_value(digits.last())
    }
}

/// The number of digits that `text` starts with.
pub open spec fn leading_digits(text: Seq<char>) -> nat
    decreases text.len(),
{
    if text.len() > 0 && is_digit(text[0]) {
        1 + leading_digits(text.skip(1))
    } else {
        0
    }
}

/// The number from 0 to 255 that `token` is, or why it is none.
///
/// A number is a run of decimal digits with, at will, a `+` in front.
/// Where the digits that the token starts with give more than 255 it is too
/// large, whatever follows them; else a character that is no digit, or a
/// lack of any digit, makes it invalid.
pub open spec fn number(token: Seq<char>) -> Result<u8, NumberError> {
    if token.len() == 0 {
        Err(NumberError::Empty)
    } else {
        let digits = if token[0] == '+' {
            token.skip(1)
        } else {
            token
        };
        let k = leading_digits(digits) as int;
        if digits.len() == 0 {
            Err(NumberError::InvalidDigit)
        } else if decimal_value(digits.take(k)) > 255 {
            Err(NumberError::PosOverflow)
        } else if k < digits.len() {
            Err(NumberError::InvalidDigit)
        } else {
            Ok(decimal_value(digits) as u8)
        }
    }
}

/// The number that the argument `token` is, or the error of the command
/// line for it.
pub open spec fn argument(token: Seq<char>) -> Result<u8, ParseErrorView> {
    match number(token) {
        Ok(value) => Ok(value),
        Err(source) => Err(ParseErrorView::IntError { source }),
    }
}

/// The code of the forwarding mode that `token` names.
pub open spec fn mode_code(token: Seq<char>) -> Option<u8> {
    if token == "all"@ {
        Some(MODE_ALL)
    } else if token == "none"@ {
        Some(MODE_NONE)
    } else if token == "to"@ || token == "add"@ {
        Some(MODE_TO)
    } else if token == "rm"@ {
        Some(MODE_REMOVE)
    } else {
        None
    }
}

/// What `print` with the tokens `input` asks for: the port is the second
/// token, or 0 where there is none.
pub open spec fn parsed_print(input: Seq<Seq<char>>) -> Result<CommandView, ParseErrorView> {
    if input.len() > 1 {
        match argument(input[1]) {
            Ok(srcport) => Ok(CommandView::Print { srcport }),
            Err(error) => Err(error),
        }
    } else {
        Ok(CommandView::Print { srcport: 0 })
    }
}

/// What `forward` with the tokens `input` asks for: a port, a mode, and a
/// second port, which is 1 where there is none.
pub open spec fn parsed_forward(input: Seq<Seq<char>>) -> Result<CommandView, ParseErrorView> {
    if input.len() < 3 {
        Err(ParseErrorView::Argument)
    } else {
        match argument(input[1]) {
            Err(error) => Err(error),
            Ok(srcport) => match mode_code(input[2]) {
                None => Err(ParseErrorView::InvalidMode),
                Some(mode) => if input.len() > 3 {
                    match argument(input[3]) {
                        Err(error) => Err(error),
                        Ok(dstport) => Ok(CommandView::Forward { srcport, dstport, mode }),
                    }
                } else {
                    Ok(CommandView::Forward { srcport, dstport: 1, mode })
                },
            },
        }
    }
}

/// What `name` with the tokens `input` asks for: a port and a name of at
/// most eight bytes in UTF-8. The name `clear` stands for the empty name.
pub open spec fn parsed_name(input: Seq<Seq<char>>) -> Result<CommandView, ParseErrorView> {
    if input.len() < 2 {
        Err(ParseErrorView::Argument)
    } else {
        match argument(input[1]) {
            Err(error) => Err(error),
            Ok(srcport) => if input.len() < 3 {
                Err(ParseErrorView::Argument)
            } else if encode_utf8(input[2]).len() > 8 {
                Err(ParseErrorView::NameLength)
            } else if input[2] == "clear"@ {
                Ok(CommandView::Name { srcport, name: Seq::empty() })
            } else {
                Ok(CommandView::Name { srcport, name: input[2] })
            },
        }
    }
}

/// What `id` with the tokens `input` asks for: a port, and nothing after it.
pub open spec fn parsed_identify(input: Seq<Seq<char>>) -> Result<CommandView, ParseErrorView> {
    if input.len() != 2 {
        Err(ParseErrorView::Argument)
    } else {
        match argument(input[1]) {
            Err(error) => Err(error),
            Ok(srcport) => Ok(CommandView::Identify { srcport }),
        }
    }
}

/// What the tokens `input` ask for.
pub open spec fn parsed_tokens(input: Seq<Seq<char>>) -> Result<CommandView, ParseErrorView>
    recommends
        input.len() >= 1,
{
    let word = lower(input[0]);
    if word == "h"@ || word == "help"@ {
        Ok(CommandView::Help)
    } else if word == "i"@ || word == "info"@ {
        Ok(CommandView::Info)
    } else if word == "p"@ || word == "print"@ {
        parsed_print(input)
    } else if word == "f"@ || word == "forward"@ {
        parsed_forward(input)
    } else if word == "wr"@ || word == "write"@ {
        Ok(CommandView::Write)
    } else if word == "r"@ || word == "reload"@ {
        Ok(CommandView::Reload)
    } else if word == "defaults"@ {
        Ok(CommandView::Defaults)
    } else if word == "n"@ || word == "name"@ {
        parsed_name(input)
    } else if word == "id"@ {
        parsed_identify(input)
    } else if input[0].len() == 0 {
        Ok(CommandView::Empty)
    } else {
        Ok(CommandView::Unknown { word: input[0] })
    }
}

/// What the line `line` asks for.
pub open spec fn parsed(line: Seq<char>) -> Result<CommandView, ParseErrorView> {
    parsed_tokens(split(trim_end(line)))
}

/// The characters of `line`.
fn chars_of(line: &str) -> (chars: Vec<char>)
    ensures
        chars@ == line@,
{
    broadcast use vstd::string::group_string_axioms;

    let mut chars: Vec<char> = Vec::new();
    for c in it: line.chars()
        invariant
            it.seq() == line@,
            chars@ == it.seq().take(it.index() as int),
    {
        chars.push(c);
    }
    chars
}

/// Whether `c` is white space.
fn is_space_char(c: char) -> (space: bool)
    ensures
        space == is_space(c),
{
    ('\u{9}' <= c && c <= '\u{d}') || c == ' ' || c == '\u{85}' || c == '\u{a0}' || c == '\u{1680}'
        || ('\u{2000}' <= c && c <= '\u{200a}') || c == '\u{2028}' || c == '\u{2029}' || c
        == '\u{202f}' || c == '\u{205f}' || c == '\u{3000}'
}

/// White space at the end can be dropped one character at a time.
proof fn lemma_trim_end_prefix(text: Seq<char>, end: int)
    requires
        0 <= end <= text.len(),
        forall|i: int| end <= i < text.len() ==> is_space(text[i]),
    ensures
        trim_end(text) == trim_end(text.take(end)),
    decreases text.len() - end,
{
    if end < text.len() {
        assert(text.drop_last().take(end) =~= text.take(end));
        lemma_trim_end_prefix(text.drop_last(), end);
    } else {
        assert(text.take(end) =~= text);
    }
}

/// The length of `chars` without the white space at its end.
fn trimmed_len(chars: &[char]) -> (end: usize)
    ensures
        end <= chars@.len(),
        chars@.take(end as int) == trim_end(chars@),
{
    let mut end = chars.len();
    while end > 0 && is_space_char(chars[end - 1])
        invariant
            end <= chars@.len(),
            forall|i: int| end <= i < chars@.len() ==> is_space(chars@[i]),
        decreases end,
    {
        end -= 1;
    }
    proof {
        lemma_trim_end_prefix(chars@, end as int);
    }
    end
}

/// The piece of `text` that the pair of offsets `range` bounds.
spec fn cut(text: Seq<char>, range: (usize, usize)) -> Seq<char> {
    text.subrange(range.0 as int, range.1 as int)
}

/// The pieces of `text` that the pairs of offsets `ranges` bound.
spec fn cuts(text: Seq<char>, ranges: Seq<(usize, usize)>) -> Seq<Seq<char>> {
    Seq::new(ranges.len(), |i: int| cut(text, ranges[i]))
}

/// A text that starts with `k` characters other than a space, and ends
/// there or goes on with a space, has its first space at `k`.
proof fn lemma_first_space(text: Seq<char>, k: int)
    requires
        0 <= k <= text.len(),
        forall|i: int| 0 <= i < k ==> text[i] != ' ',
        k < text.len() ==> text[k] == ' ',
    ensures
        first_space(text) == k,
    decreases k,
{
    if k > 0 {
        lemma_first_space(text.skip(1), k - 1);
    }
}

/// Cuts the first `end` characters of `chars` into tokens, each given by
/// the offsets of its first character and of the one after its last.
fn split_ranges(chars: &[char], end: usize) -> (ranges: Vec<(usize, usize)>)
    requires
        end <= chars@.len(),
    ensures
        cuts(chars@, ranges@) == split(chars@.take(end as int)),
        ranges@.len() >= 1,
        forall|i: int| 0 <= i < ranges@.len() ==> (#[trigger] ranges@[i]).0 <= ranges@[i].1 <= end,
{
    let ghost text = chars@.take(end as int);
    let mut ranges: Vec<(usize, usize)> = Vec::new();
    let mut start: usize = 0;
    let mut i: usize = 0;
    assert(text.skip(0) =~= text);
    while i < end
        invariant
            start <= i <= end <= chars@.len(),
            text == chars@.take(end as int),
            forall|j: int| start <= j < i ==> text[j] != ' ',
            split(text) == cuts(chars@, ranges@) + split(text.skip(start as int)),
            forall|j: int|
                0 <= j < ranges@.len() ==> (#[trigger] ranges@[j]).0 <= ranges@[j].1 <= end,
        decreases end - i,
    {
        if chars[i] == ' ' {
            proof {
                let rest = text.skip(start as int);
                lemma_first_space(rest, i - start);
                assert(rest.take(i - start) =~= cut(chars@, (start, i)));
                assert(rest.skip(i - start + 1) =~= text.skip(i + 1));
            }
            ranges.push((start, i));
            start = i + 1;
        }
        i += 1;
    }
    proof {
        let rest = text.skip(start as int);
        lemma_first_space(rest, end - start);
        assert(rest =~= cut(chars@, (start, end)));
    }
    ranges.push((start, end));
    ranges
}

/// The token of `chars` that `range` bounds.
fn token(chars: &[char], range: (usize, usize)) -> (piece: &[char])
    requires
        range.0 <= range.1 <= chars@.len(),
    ensures
        piece@ == cut(chars@, range),
{
    &chars[range.0..range.1]
}

/// `token` with its capital letters `A` to `Z` made small.
fn lowered(token: &[char]) -> (small: Vec<char>)
    ensures
        small@ == lower(token@),
{
    let mut small: Vec<char> = Vec::new();
    let mut i: usize = 0;
    while i < token.len()
        invariant
            i <= token@.len(),
            small@ == lower(token@.take(i as int)),
        decreases token@.len() - i,
    {
        let c = token[i];
        let l = if 'A' <= c && c <= 'Z' {
            ((c as u8) + 32) as char
        } else {
            c
        };
        small.push(l);
        i += 1;
    }
    small
}

/// Whether `token` is the text `word`.
fn same_text(token: &[char], word: &str) -> (same: bool)
    ensures
        same == (token@ == word@),
{
    let n = word.unicode_len();
    if token.len() != n {
        return false;
    }
    let mut i: usize = 0;
    while i < n
        invariant
            i <= n,
            n == word@.len(),
            n == token@.len(),
            forall|j: int| 0 <= j < i ==> token@[j] == word@[j],
        decreases n - i,
    {
        if token[i] != word.get_char(i) {
            return false;
        }
        i += 1;
    }
    assert(token@ =~= word@);
    true
}

/// The digits before any place of a text give no more than those before a
/// later place.
proof fn lemma_decimal_value_grows(digits: Seq<char>, j: int, k: int)
    requires
        0 <= j <= k <= digits.len(),
    ensures
        decimal_value(digits.take(j)) <= decimal_value(digits.take(k)),
    decreases k - j,
{
    if j < k {
        assert(digits.take(k).drop_last() =~= digits.take(k - 1));
        lemma_decimal_value_grows(digits, j, k - 1);
    }
}

/// A text that starts with `k` digits, and ends there or goes on with
/// another character, has `k` leading digits.
proof fn lemma_leading_digits(text: Seq<char>, k: int)
    requires
        0 <= k <= text.len(),
        forall|i: int| 0 <= i < k ==> is_digit(text[i]),
        k < text.len() ==> !is_digit(text[k]),
    ensures
        leading_digits(text) == k,
    decreases k,
{
    if k > 0 {
        lemma_leading_digits(text.skip(1), k - 1);
    }
}

/// A text that starts with `k` digits has at least `k` leading digits.
proof fn lemma_leading_digits_at_least(text: Seq<char>, k: int)
    requires
        0 <= k <= text.len(),
        forall|i: int| 0 <= i < k ==> is_digit(text[i]),
    ensures
        k <= leading_digits(text) <= text.len(),
    decreases text.len(),
{
    if text.len() > 0 && is_digit(text[0]) {
        lemma_leading_digits_at_least(text.skip(1), if k > 0 { k - 1 } else { 0 });
    }
}

/// Reads a token as a number from 0 to 255.
pub fn parse_number(token: &[char]) -> (result: Result<u8, NumberError>)
    ensures
        result == number(token@),
{
    let len = token.len();
    if len == 0 {
        return Err(NumberError::Empty);
    }
    let start: usize = if token[0] == '+' {
        1
    } else {
        0
    };
    let ghost digits = if token@[0] == '+' {
        token@.skip(1)
    } else {
        token@
    };
    if start == len {
        return Err(NumberError::InvalidDigit);
    }
    let mut value: u8 = 0;
    let mut i: usize = start;
    while i < len
        invariant
            start <= i <= len,
            start < len,
            len == token@.len(),
            start == (if token@[0] == '+' {
                1usize
            } else {
                0usize
            }),
            digits == (if token@[0] == '+' {
                token@.skip(1)
            } else {
                token@
            }),
            forall|j: int| 0 <= j < i - start ==> is_digit(digits[j]),
            value == decimal_value(digits.take(i - start)),
        decreases len - i,
    {
        let c = token[i];
        if !('0' <= c && c <= '9') {
            proof {
                lemma_leading_digits(digits, i - start);
            }
            return Err(NumberError::InvalidDigit);
        }
        let digit: u32 = c as u32 - '0' as u32;
        let next: u32 = value as u32 * 10 + digit;
        assert(digits.take(i - start + 1).drop_last() =~= digits.take(i - start));
        if next > 255 {
            proof {
                lemma_leading_digits_at_least(digits, i - start + 1);
                lemma_decimal_value_grows(digits, i - start + 1, leading_digits(digits) as int);
            }
            return Err(NumberError::PosOverflow);
        }
        value = next as u8;
        i += 1;
    }
    proof {
        lemma_leading_digits(digits, len - start);
        assert(digits.take(len - start) =~= digits);
    }
    Ok(value)
}

/// The code of the forwarding mode that `token` names.
fn mode_of(token: &[char]) -> (code: Option<u8>)
    ensures
        code == mode_code(token@),
{
    if same_text(token, "all") {
        Some(MODE_ALL)
    } else if same_text(token, "none") {
        Some(MODE_NONE)
    } else if same_text(token, "to") || same_text(token, "add") {
        Some(MODE_TO)
    } else if same_text(token, "rm") {
        Some(MODE_REMOVE)
    } else {
        None
    }
}

/// Reads an argument as a number.
fn parse_argument(token: &[char]) -> (result: Result<u8, ParseError>)
    ensures
        result_view(result) == argument(token@),
{
    match parse_number(token) {
        Ok(value) => Ok(value),
        Err(source) => Err(ParseError::IntError { source }),
    }
}

/// Whether the command word `word`, already in small letters, is `short` or
/// `long`.
fn word_is(word: &[char], short: &str, long: &str) -> (named: bool)
    ensures
        named == (word@ == short@ || word@ == long@),
{
    same_text(word, short) || same_text(word, long)
}

/// Whether `ranges` bound tokens within `chars`.
spec fn ranges_fit(chars: Seq<char>, ranges: Seq<(usize, usize)>) -> bool {
    forall|i: int|
        0 <= i < ranges.len() ==> (#[trigger] ranges[i]).0 <= ranges[i].1 <= chars.len()
}

/// Reads the arguments of `print`.
fn parse_print(chars: &[char], ranges: &Vec<(usize, usize)>) -> (result: Result<
    Command,
    ParseError,
>)
    requires
        ranges_fit(chars@, ranges@),
    ensures
        result_view(result) == parsed_print(cuts(chars@, ranges@)),
{
    if ranges.len() > 1 {
        match parse_argument(token(chars, ranges[1])) {
            Ok(srcport) => Ok(Command::Print { srcport }),
            Err(error) => Err(error),
        }
    } else {
        Ok(Command::Print { srcport: 0 })
    }
}

/// Reads the arguments of `forward`.
fn parse_forward(chars: &[char], ranges: &Vec<(usize, usize)>) -> (result: Result<
    Command,
    ParseError,
>)
    requires
        ranges_fit(chars@, ranges@),
    ensures
        result_view(result) == parsed_forward(cuts(chars@, ranges@)),
{
    if ranges.len() < 3 {
        return Err(ParseError::Argument);
    }
    let srcport = match parse_argument(token(chars, ranges[1])) {
        Ok(srcport) => srcport,
        Err(error) => {
            return Err(error);
        },
    };
    let mode = match mode_of(token(chars, ranges[2])) {
        Some(mode) => mode,
        None => {
            return Err(ParseError::InvalidMode);
        },
    };
    if ranges.len() > 3 {
        match parse_argument(token(chars, ranges[3])) {
            Ok(dstport) => Ok(Command::Forward { srcport, dstport, mode }),
            Err(error) => Err(error),
        }
    } else {
        Ok(Command::Forward { srcport, dstport: 1, mode })
    }
}

/// Reads the arguments of `name`.
fn parse_name(command: &str, chars: &[char], ranges: &Vec<(usize, usize)>) -> (result: Result<
    Command,
    ParseError,
>)
    requires
        chars@ == command@,
        ranges_fit(chars@, ranges@),
    ensures
        result_view(result) == parsed_name(cuts(chars@, ranges@)),
{
    if ranges.len() < 2 {
        return Err(ParseError::Argument);
    }
    let srcport = match parse_argument(token(chars, ranges[1])) {
        Ok(srcport) => srcport,
        Err(error) => {
            return Err(error);
        },
    };
    if ranges.len() < 3 {
        return Err(ParseError::Argument);
    }
    let range = ranges[2];
    let name = command.substring_char(range.0, range.1);
    if name.as_bytes().len() > NAME_MAX {
        return Err(ParseError::NameLength);
    }
    if same_text(token(chars, range), "clear") {
        Ok(Command::Name { srcport, name: String::new() })
    } else {
        Ok(Command::Name { srcport, name: String::from_str(name) })
    }
}

/// Reads the arguments of `id`.
fn parse_identify(chars: &[char], ranges: &Vec<(usize, usize)>) -> (result: Result<
    Command,
    ParseError,
>)
    requires
        ranges_fit(chars@, ranges@),
    ensures
        result_view(result) == parsed_identify(cuts(chars@, ranges@)),
{
    if ranges.len() != 2 {
        return Err(ParseError::Argument);
    }
    match parse_argument(token(chars, ranges[1])) {
        Ok(srcport) => Ok(Command::Identify { srcport }),
        Err(error) => Err(error),
    }
}

/// Reads a command line.
///
/// The errors are those of the line itself. Whether a port number is one of
/// the router's ports is for the command to say that gets it.
pub fn parse_command(command: &str) -> (result: Result<Command, ParseError>)
    ensures
        result_view(result) == parsed(command@),
{
    let chars = chars_of(command);
    let end = trimmed_len(chars.as_slice());
    let ranges = split_ranges(chars.as_slice(), end);
    let first = token(chars.as_slice(), ranges[0]);
    let small = lowered(first);
    let word = small.as_slice();
    if word_is(word, "h", "help") {
        Ok(Command::Help)
    } else if word_is(word, "i", "info") {
        Ok(Command::Info)
    } else if word_is(word, "p", "print") {
        parse_print(chars.as_slice(), &ranges)
    } else if word_is(word, "f", "forward") {
        parse_forward(chars.as_slice(), &ranges)
    } else if word_is(word, "wr", "write") {
        Ok(Command::Write)
    } else if word_is(word, "r", "reload") {
        Ok(Command::Reload)
    } else if same_text(word, "defaults") {
        Ok(Command::Defaults)
    } else if word_is(word, "n", "name") {
        parse_name(command, chars.as_slice(), &ranges)
    } else if same_text(word, "id") {
        parse_identify(chars.as_slice(), &ranges)
    } else if first.len() == 0 {
        Ok(Command::Empty)
    } else {
        let range = ranges[0];
        Ok(Command::Unknown { word: String::from_str(command.substring_char(range.0, range.1)) })
    }
}

} // verus!
