//! The dice-notation grammar and its parser.
//!
//! The grammar, with `ws` standing for optional spacing:
//!
//! ```text
//! expression := ws piece (ws "+" ws piece)* ws EOF
//! piece      := die | offset
//! die        := digits "d" digits
//! offset     := digits
//! digits     := one or more decimal digits
//! ```
//!
//! A piece is tried as a die first and, failing that, as a plain offset.
//! The whole input must be consumed: spacing after the last piece is
//! taken by the final `ws`, and any other trailing characters fail the
//! parse.
//! A digit run whose value does not fit in a `u64` fails to parse as a
//! number, so both readings of the piece fail and the parse as a whole
//! rejects the input rather than wrapping the value.
//!
//! The spec functions below define the grammar over a `Seq<char>` as
//! partial functions from a start position to the position one past what
//! was consumed, plus the parsed value.  The executable parser is proved
//! to return exactly what they describe.

use vstd::prelude::*;
use vstd::string::*;

use crate::decimal::dec_chars;
use crate::decimal::u64_to_string;
use crate::dice::Dice;
use crate::dice::Piece;

verus! {

/// The input did not match the grammar: a missing or malformed digit
/// run, a missing `d` or `+`, an empty term list, or trailing characters
/// that no piece or separator could consume.  Carries the rejected input
/// and the character position where parsing stopped: the start of the
/// piece that could not be read, or the first leftover character.
#[derive(Debug, PartialEq, Eq)]
pub struct SyntaxError {
    pub text: String,
    pub at: usize,
}

impl SyntaxError {
    /// A human-readable description naming the rejected input and where
    /// in it parsing stopped.
    pub fn message(&self) -> (r: String)
        ensures
            r@ == "failed to parse '"@ + self.text@ + "' at character "@ + dec_chars(
                self.at as int,
            ),
    {
        let mut s = String::from_str("failed to parse '");
        s.append(self.text.as_str());
        s.append("' at character ");
        let d = u64_to_string(self.at as u64);
        s.append(d.as_str());
        s
    }
}

/// A decimal digit, `'0'` through `'9'`.
pub open spec fn is_digit_char(c: char) -> bool {
    48 <= c as u32 <= 57
}

/// The numeric value of a decimal digit.
pub open spec fn digit_val(c: char) -> int {
    c as u32 - 48
}

/// Spacing accepted around `+` separators and at the start of the input:
/// spaces and tabs.
pub open spec fn is_space_char(c: char) -> bool {
    c as u32 == 32 || c as u32 == 9
}

/// The first position at or after `i` that does not hold spacing.
pub open spec fn skip_spaces(s: Seq<char>, i: int) -> int
    decreases s.len() - i,
{
    if 0 <= i && i < s.len() && is_space_char(s[i]) {
        skip_spaces(s, i + 1)
    } else {
        i
    }
}

/// The first position at or after `i` that does not hold a digit.
pub open spec fn digits_end(s: Seq<char>, i: int) -> int
    decreases s.len() - i,
{
    if 0 <= i && i < s.len() && is_digit_char(s[i]) {
        digits_end(s, i + 1)
    } else {
        i
    }
}

/// The value of the digit run `s[i..j)`, read most significant first.
pub open spec fn digits_val(s: Seq<char>, i: int, j: int) -> int
    decreases j - i,
{
    if i < j {
        digits_val(s, i, j - 1) * 10 + digit_val(s[j - 1])
    } else {
        0
    }
}

/// `digits`: one or more decimal digits whose value fits in a `u64`.
/// Returns the position after the run and the value.
pub open spec fn parse_number(s: Seq<char>, i: int) -> Option<(int, u64)> {
    let j = digits_end(s, i);
    if i < j && digits_val(s, i, j) <= u64::MAX {
        Some((j, digits_val(s, i, j) as u64))
    } else {
        None
    }
}

/// `die`: digits, the literal `d`, digits.
pub open spec fn parse_die(s: Seq<char>, i: int) -> Option<(int, Piece)> {
    match parse_number(s, i) {
        Some((j, count)) => if j < s.len() && s[j] == 'd' {
            match parse_number(s, j + 1) {
                Some((k, sides)) => Some((k, Piece::Die { count, sides })),
                None => None,
            }
        } else {
            None
        },
        None => None,
    }
}

/// `offset`: a plain number.
pub open spec fn parse_offset(s: Seq<char>, i: int) -> Option<(int, Piece)> {
    match parse_number(s, i) {
        Some((j, v)) => Some((j, Piece::Offset(v))),
        None => None,
    }
}

/// `piece`: tried as a die first, then as an offset.
pub open spec fn parse_piece(s: Seq<char>, i: int) -> Option<(int, Piece)> {
    if parse_die(s, i) is Some {
        parse_die(s, i)
    } else {
        parse_offset(s, i)
    }
}

/// One `ws "+" ws piece` continuation of the sum.
pub open spec fn parse_plus_piece(s: Seq<char>, i: int) -> Option<(int, Piece)> {
    let j = skip_spaces(s, i);
    if j < s.len() && s[j] == '+' {
        parse_piece(s, skip_spaces(s, j + 1))
    } else {
        None
    }
}

/// As many `ws "+" ws piece` continuations as will parse, greedily.
/// Returns the position where the last one stopped and the pieces in
/// order.
pub open spec fn parse_rest(s: Seq<char>, i: int) -> (int, Seq<Piece>)
    decreases s.len() - i,
        when 0 <= i <= s.len()
        via parse_rest_decreases
{
    match parse_plus_piece(s, i) {
        Some((j, p)) => {
            let (k, rest) = parse_rest(s, j);
            (k, seq![p] + rest)
        },
        None => (i, Seq::empty()),
    }
}

#[via_fn]
proof fn parse_rest_decreases(s: Seq<char>, i: int) {
    lemma_parse_plus_piece_bounds(s, i);
}

/// `expression`: leading spacing, a first piece, the continuations,
/// trailing spacing, and nothing left over.
pub open spec fn parse_dice(s: Seq<char>) -> Option<Seq<Piece>> {
    let i = skip_spaces(s, 0);
    match parse_piece(s, i) {
        Some((j, first)) => {
            let (k, rest) = parse_rest(s, j);
            if skip_spaces(s, k) == s.len() {
                Some(seq![first] + rest)
            } else {
                None
            }
        },
        None => None,
    }
}

/// Where a failed parse of the full expression stopped: at the start of
/// the piece that could not be read, or at the first leftover character
/// after the pieces and any trailing spacing.
pub open spec fn parse_stop(s: Seq<char>) -> int {
    let i = skip_spaces(s, 0);
    match parse_piece(s, i) {
        None => i,
        Some((j, _)) => skip_spaces(s, parse_rest(s, j).0),
    }
}

/// Where a failed parse of a leading die stopped: at the count digits,
/// at the missing `d`, or at the sides digits.
pub open spec fn parse_die_stop(s: Seq<char>, i: int) -> int {
    match parse_number(s, i) {
        None => i,
        Some((j, _)) => if j < s.len() && s[j] == 'd' {
            j + 1
        } else {
            j
        },
    }
}

/// Parsing is pure and deterministic: the same text always parses to
/// the same expression, structurally equal term by term.  The `ensures`
/// of `dice_specification` pins its result to `parse_dice` of the
/// input's characters, a function of the text alone, so two parses of
/// equal texts cannot differ.
pub proof fn lemma_parse_deterministic(t1: Seq<char>, t2: Seq<char>)
    requires
        t1 == t2,
    ensures
        parse_dice(t1) == parse_dice(t2),
{
}

proof fn lemma_skip_spaces_bounds(s: Seq<char>, i: int)
    requires
        0 <= i <= s.len(),
    ensures
        i <= skip_spaces(s, i) <= s.len(),
    decreases s.len() - i,
{
    if i < s.len() && is_space_char(s[i]) {
        lemma_skip_spaces_bounds(s, i + 1);
    }
}

proof fn lemma_digits_end_bounds(s: Seq<char>, i: int)
    requires
        0 <= i <= s.len(),
    ensures
        i <= digits_end(s, i) <= s.len(),
    decreases s.len() - i,
{
    if i < s.len() && is_digit_char(s[i]) {
        lemma_digits_end_bounds(s, i + 1);
    }
}

proof fn lemma_parse_number_bounds(s: Seq<char>, i: int)
    requires
        0 <= i <= s.len(),
    ensures
        parse_number(s, i) matches Some((j, _)) ==> i < j <= s.len(),
{
    lemma_digits_end_bounds(s, i);
}

proof fn lemma_parse_piece_bounds(s: Seq<char>, i: int)
    requires
        0 <= i <= s.len(),
    ensures
        parse_piece(s, i) matches Some((j, _)) ==> i < j <= s.len(),
{
    lemma_parse_number_bounds(s, i);
    match parse_number(s, i) {
        Some((j, _)) => {
            if j < s.len() {
                lemma_parse_number_bounds(s, j + 1);
            }
        },
        None => (),
    }
}

proof fn lemma_parse_plus_piece_bounds(s: Seq<char>, i: int)
    requires
        0 <= i <= s.len(),
    ensures
        parse_plus_piece(s, i) matches Some((j, _)) ==> i < j <= s.len(),
{
    lemma_skip_spaces_bounds(s, i);
    let j = skip_spaces(s, i);
    if j < s.len() && s[j] == '+' {
        lemma_skip_spaces_bounds(s, j + 1);
        lemma_parse_piece_bounds(s, skip_spaces(s, j + 1));
    }
}

proof fn lemma_digits_val_nonneg(s: Seq<char>, i: int, j: int)
    requires
        forall|m: int| i <= m < j ==> is_digit_char(s[m]),
    ensures
        digits_val(s, i, j) >= 0,
    decreases j - i,
{
    if i < j {
        lemma_digits_val_nonneg(s, i, j - 1);
    }
}

fn is_digit(c: char) -> (r: bool)
    ensures
        r == is_digit_char(c),
{
    let u = c as u32;
    48 <= u && u <= 57
}

fn is_space(c: char) -> (r: bool)
    ensures
        r == is_space_char(c),
{
    let u = c as u32;
    u == 32 || u == 9
}

/// The input's characters, in order, for random access while parsing.
fn chars_vec(s: &str) -> (v: Vec<char>)
    ensures
        v@ == s@,
{
    let n = s.unicode_len();
    let mut v: Vec<char> = Vec::new();
    let mut i: usize = 0;
    while i < n
        invariant
            i <= n,
            n == s@.len(),
            v@ =~= s@.subrange(0, i as int),
        decreases n - i,
    {
        let c = s.get_char(i);
        proof {
            assert(s@.subrange(0, i as int + 1) =~= s@.subrange(0, i as int).push(s@[i as int]));
        }
        v.push(c);
        i = i + 1;
    }
    proof {
        assert(v@ =~= s@);
    }
    v
}

fn skip_at(s: &Vec<char>, i: usize) -> (j: usize)
    requires
        i <= s@.len(),
    ensures
        j as int == skip_spaces(s@, i as int),
        i <= j <= s@.len(),
{
    let n = s.len();
    let mut k: usize = i;
    while k < n && is_space(s[k])
        invariant
            i <= k <= n,
            n == s@.len(),
            skip_spaces(s@, i as int) == skip_spaces(s@, k as int),
        decreases n - k,
    {
        k = k + 1;
    }
    k
}

fn digits_end_at(s: &Vec<char>, i: usize) -> (j: usize)
    requires
        i <= s@.len(),
    ensures
        j as int == digits_end(s@, i as int),
        i <= j <= s@.len(),
        forall|m: int| i <= m < j ==> is_digit_char(s@[m]),
{
    let n = s.len();
    let mut k: usize = i;
    while k < n && is_digit(s[k])
        invariant
            i <= k <= n,
            n == s@.len(),
            digits_end(s@, i as int) == digits_end(s@, k as int),
            forall|m: int| i <= m < k ==> is_digit_char(s@[m]),
        decreases n - k,
    {
        k = k + 1;
    }
    k
}

fn number_at(s: &Vec<char>, i: usize) -> (r: Option<(usize, u64)>)
    requires
        i <= s@.len(),
    ensures
        match r {
            Some((j, v)) => parse_number(s@, i as int) == Some((j as int, v)) && i < j
                <= s@.len(),
            None => parse_number(s@, i as int) is None,
        },
{
    let j = digits_end_at(s, i);
    if j == i {
        return None;
    }
    let mut acc: u64 = 0;
    let mut over: bool = false;
    let mut k: usize = i;
    while k < j
        invariant
            i <= k <= j <= s@.len(),
            j as int == digits_end(s@, i as int),
            forall|m: int| i <= m < j ==> is_digit_char(s@[m]),
            !over ==> acc as int == digits_val(s@, i as int, k as int),
            over ==> digits_val(s@, i as int, k as int) > u64::MAX,
        decreases j - k,
    {
        let c = s[k];
        proof {
            assert(is_digit_char(s@[k as int]));
            assert(digits_val(s@, i as int, k as int + 1) == digits_val(s@, i as int, k as int)
                * 10 + digit_val(s@[k as int]));
            lemma_digits_val_nonneg(s@, i as int, k as int);
        }
        let d: u64 = (c as u32 - 48) as u64;
        if !over {
            match acc.checked_mul(10) {
                Some(m) => match m.checked_add(d) {
                    Some(v) => {
                        acc = v;
                    },
                    None => {
                        over = true;
                    },
                },
                None => {
                    over = true;
                },
            }
        }
        k = k + 1;
    }
    if over {
        None
    } else {
        Some((j, acc))
    }
}

fn die_at(s: &Vec<char>, i: usize) -> (r: Option<(usize, Piece)>)
    requires
        i <= s@.len(),
    ensures
        match r {
            Some((j, p)) => parse_die(s@, i as int) == Some((j as int, p)) && i < j <= s@.len(),
            None => parse_die(s@, i as int) is None,
        },
{
    match number_at(s, i) {
        Some((j, count)) => {
            if j < s.len() && s[j] == 'd' {
                match number_at(s, j + 1) {
                    Some((k, sides)) => Some((k, Piece::Die { count, sides })),
                    None => None,
                }
            } else {
                None
            }
        },
        None => None,
    }
}

fn offset_at(s: &Vec<char>, i: usize) -> (r: Option<(usize, Piece)>)
    requires
        i <= s@.len(),
    ensures
        match r {
            Some((j, p)) => parse_offset(s@, i as int) == Some((j as int, p)) && i < j
                <= s@.len(),
            None => parse_offset(s@, i as int) is None,
        },
{
    match number_at(s, i) {
        Some((j, v)) => Some((j, Piece::Offset(v))),
        None => None,
    }
}

fn piece_at(s: &Vec<char>, i: usize) -> (r: Option<(usize, Piece)>)
    requires
        i <= s@.len(),
    ensures
        match r {
            Some((j, p)) => parse_piece(s@, i as int) == Some((j as int, p)) && i < j
                <= s@.len(),
            None => parse_piece(s@, i as int) is None,
        },
{
    match die_at(s, i) {
        Some(jp) => Some(jp),
        None => offset_at(s, i),
    }
}

fn plus_piece_at(s: &Vec<char>, i: usize) -> (r: Option<(usize, Piece)>)
    requires
        i <= s@.len(),
    ensures
        match r {
            Some((j, p)) => parse_plus_piece(s@, i as int) == Some((j as int, p)) && i < j
                <= s@.len(),
            None => parse_plus_piece(s@, i as int) is None,
        },
{
    let j = skip_at(s, i);
    if j < s.len() && s[j] == '+' {
        let k = skip_at(s, j + 1);
        piece_at(s, k)
    } else {
        None
    }
}

fn rest_at(s: &Vec<char>, i: usize) -> (r: (usize, Vec<Piece>))
    requires
        i <= s@.len(),
    ensures
        r.0 as int == parse_rest(s@, i as int).0,
        r.1@ == parse_rest(s@, i as int).1,
        i <= r.0 <= s@.len(),
{
    let mut cur: usize = i;
    let mut acc: Vec<Piece> = Vec::new();
    loop
        invariant
            i <= cur <= s@.len(),
            parse_rest(s@, i as int).0 == parse_rest(s@, cur as int).0,
            parse_rest(s@, i as int).1 =~= acc@ + parse_rest(s@, cur as int).1,
        decreases s@.len() - cur,
    {
        match plus_piece_at(s, cur) {
            Some((j, p)) => {
                proof {
                    assert(acc@ + (seq![p] + parse_rest(s@, j as int).1) =~= (acc@ + seq![p])
                        + parse_rest(s@, j as int).1);
                    assert(acc@ + seq![p] =~= acc@.push(p));
                }
                acc.push(p);
                cur = j;
            },
            None => {
                proof {
                    assert(acc@ + parse_rest(s@, cur as int).1 =~= acc@);
                }
                return (cur, acc);
            },
        }
    }
}

fn syntax_err(input: &str, at: usize) -> (e: SyntaxError)
    ensures
        e.text@ == input@,
        e.at == at,
{
    SyntaxError { text: String::from_str(input), at }
}

/// Parse a leading die term: `digits "d" digits` at the start of the
/// input.  On success returns the unconsumed rest of the input and the
/// term; the rest is retried by the caller as further grammar.
pub fn single_die(input: &str) -> (r: Result<(&str, Piece), SyntaxError>)
    ensures
        match parse_die(input@, 0) {
            Some((j, p)) => r matches Ok(t) && t.1 == p && t.0@ == input@.subrange(
                j,
                input@.len() as int,
            ),
            None => r matches Err(e) && e.text@ == input@ && e.at as int == parse_die_stop(
                input@,
                0,
            ),
        },
{
    let s = chars_vec(input);
    match number_at(&s, 0) {
        None => Err(syntax_err(input, 0)),
        Some((j, count)) => {
            if j < s.len() && s[j] == 'd' {
                match number_at(&s, j + 1) {
                    Some((k, sides)) => Ok(
                        (input.substring_char(k, s.len()), Piece::Die { count, sides }),
                    ),
                    None => Err(syntax_err(input, j + 1)),
                }
            } else {
                Err(syntax_err(input, j))
            }
        },
    }
}

/// Parse a full dice expression: leading spacing, a first piece, any
/// number of `+`-separated pieces, trailing spacing, and end of input.
/// Succeeds exactly when the whole input matches the grammar; the parse
/// consults no randomness and its result is a function of the input
/// text alone.
pub fn dice_specification(input: &str) -> (r: Result<Dice, SyntaxError>)
    ensures
        match parse_dice(input@) {
            Some(ps) => r matches Ok(d) && d@ == ps,
            None => r matches Err(e) && e.text@ == input@ && e.at as int == parse_stop(input@),
        },
{
    let s = chars_vec(input);
    let i = skip_at(&s, 0);
    let (j, first) = match piece_at(&s, i) {
        Some(jp) => jp,
        None => {
            return Err(syntax_err(input, i));
        },
    };
    let (k, mut rest) = rest_at(&s, j);
    let end = skip_at(&s, k);
    if end != s.len() {
        return Err(syntax_err(input, end));
    }
    let mut pieces: Vec<Piece> = Vec::new();
    pieces.push(first);
    pieces.append(&mut rest);
    proof {
        assert(pieces@ =~= seq![first] + parse_rest(s@, j as int).1);
    }
    Ok(Dice { pieces })
}

} // verus!
