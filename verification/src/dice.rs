//! The terms of a dice expression and their evaluation.
//!
//! An expression is an ordered list of [`Piece`]s, each a dice roll or a
//! fixed offset.  Evaluation has two phases: validation (every die must
//! have at least one side) and rolling (each die term contributes the sum
//! of `count` independent uniform draws from `[1, sides]`; each offset
//! contributes its value).  The total is accumulated with saturating
//! addition, so a sum past `u64::MAX` comes back as `u64::MAX` rather
//! than wrapping.

use vstd::prelude::*;
use vstd::string::*;

use crate::decimal::dec_chars;
use crate::decimal::u64_to_string;
use crate::parser::dice_specification;
use crate::parser::parse_dice;
use crate::parser::SyntaxError;

verus! {

/// One additive component of a dice expression: either `count` dice of
/// `sides` sides each, or a fixed offset.
#[derive(Clone, Copy, Debug, PartialEq, Eq, Structural)]
pub enum Piece {
    Die { count: u64, sides: u64 },
    Offset(u64),
}

/// Grammatically well-formed input can still be semantically invalid: a
/// die with zero sides.  Carries the offending side count.
#[derive(Clone, Copy, Debug, PartialEq, Eq, Structural)]
pub struct ValidationError {
    pub sides: u64,
}

/// A die term is valid only when its die has at least one side; offsets
/// are always valid.  This is checked by validation, not by parsing.
pub open spec fn piece_valid(p: Piece) -> bool {
    match p {
        Piece::Die { count: _, sides } => sides >= 1,
        Piece::Offset(_) => true,
    }
}

/// The least total a piece can contribute: each of `count` dice shows at
/// least 1, an offset contributes exactly its value.
pub open spec fn piece_min(p: Piece) -> int {
    match p {
        Piece::Die { count, sides: _ } => count as int,
        Piece::Offset(v) => v as int,
    }
}

/// The greatest total a piece can contribute: each of `count` dice shows
/// at most `sides`, an offset contributes exactly its value.
pub open spec fn piece_max(p: Piece) -> int {
    match p {
        Piece::Die { count, sides } => count as int * sides as int,
        Piece::Offset(v) => v as int,
    }
}

/// Every piece of the expression is valid.
pub open spec fn all_valid(s: Seq<Piece>) -> bool {
    forall|i: int| 0 <= i < s.len() ==> piece_valid(s[i])
}

/// The least total an expression can evaluate to: the sum of the least
/// contributions of its pieces.
pub open spec fn dice_min(s: Seq<Piece>) -> int
    decreases s.len(),
{
    if s.len() == 0 {
        0
    } else {
        dice_min(s.drop_last()) + piece_min(s.last())
    }
}

/// The greatest total an expression can evaluate to: the sum of the
/// greatest contributions of its pieces.
pub open spec fn dice_max(s: Seq<Piece>) -> int
    decreases s.len(),
{
    if s.len() == 0 {
        0
    } else {
        dice_max(s.drop_last()) + piece_max(s.last())
    }
}

/// A mathematical bound squeezed into the `u64` results that evaluation
/// actually returns: sums past `u64::MAX` saturate there.
pub open spec fn clamp64(v: int) -> int {
    if v > u64::MAX {
        u64::MAX as int
    } else {
        v
    }
}

/// Relies on `rand::Rng::gen_range` called on `rand::rngs::OsRng`: a draw
/// from the operating system's randomness, uniformly distributed over the
/// inclusive range `[1, sides]`.  The range is non-empty (`sides >= 1`),
/// so the call does not panic; nothing is assumed about which value in
/// the range comes back.
#[verifier::external_body]
fn draw_die(sides: u64) -> (r: u64)
    requires
        sides >= 1,
    ensures
        1 <= r <= sides,
{
    rand::Rng::gen_range(&mut rand::rngs::OsRng, 1..=sides)
}

impl Piece {
    /// Check the deferred semantic constraint on a single term.
    pub fn validate(&self) -> (r: Result<(), ValidationError>)
        ensures
            r is Ok <==> piece_valid(*self),
            r matches Err(e) ==> (*self matches Piece::Die { count: _, sides } && e.sides
                == sides),
    {
        if let Piece::Die { count: _, sides } = *self {
            if sides < 1 {
                return Err(ValidationError { sides });
            }
        }
        Ok(())
    }

    /// Evaluate one term: an offset contributes exactly its value, a die
    /// term contributes the saturating sum of `count` independent uniform
    /// draws from `[1, sides]` (exactly 0 when `count` is 0).
    pub fn roll(&self) -> (r: u64)
        requires
            piece_valid(*self),
        ensures
            piece_min(*self) <= r as int <= piece_max(*self),
    {
        let (count, sides) = match *self {
            Piece::Offset(v) => {
                return v;
            },
            Piece::Die { count, sides } => (count, sides),
        };
        let mut sum: u64 = 0;
        let mut k: u64 = 0;
        while k < count
            invariant
                k <= count,
                sides >= 1,
                *self == (Piece::Die { count, sides }),
                k as int <= sum as int <= k as int * sides as int,
            decreases count - k,
        {
            let d = draw_die(sides);
            proof {
                assert((k as int + 1) * sides as int == k as int * sides as int + sides as int)
                    by (nonlinear_arith);
            }
            sum = sum.saturating_add(d);
            k = k + 1;
        }
        sum
    }
}

/// A full dice expression: the ordered list of terms parsed from one
/// input string, evaluated as their sum.
#[derive(Debug, PartialEq)]
pub struct Dice {
    pub pieces: Vec<Piece>,
}

impl View for Dice {
    type V = Seq<Piece>;

    open spec fn view(&self) -> Seq<Piece> {
        self.pieces@
    }
}

impl Dice {
    /// Validate every term; the first die with too few sides aborts
    /// validation and is reported.  For `u64` side counts the offending
    /// value is necessarily 0.
    pub fn validate(&self) -> (r: Result<(), ValidationError>)
        ensures
            r is Ok <==> all_valid(self@),
            r matches Err(e) ==> e.sides == 0,
    {
        let n = self.pieces.len();
        let mut i: usize = 0;
        while i < n
            invariant
                i <= n,
                n == self.pieces.len(),
                forall|j: int| 0 <= j < i ==> piece_valid(self.pieces@[j]),
            decreases n - i,
        {
            if let Err(e) = self.pieces[i].validate() {
                return Err(e);
            }
            i = i + 1;
        }
        Ok(())
    }

    /// Evaluate the expression: the saturating sum, in original order, of
    /// every term's contribution.
    pub fn roll(&self) -> (r: u64)
        requires
            all_valid(self@),
        ensures
            clamp64(dice_min(self@)) <= r as int <= dice_max(self@),
    {
        let n = self.pieces.len();
        let mut sum: u64 = 0;
        let mut i: usize = 0;
        while i < n
            invariant
                i <= n,
                n == self.pieces.len(),
                all_valid(self@),
                clamp64(dice_min(self@.subrange(0, i as int))) <= sum as int <= dice_max(
                    self@.subrange(0, i as int),
                ),
            decreases n - i,
        {
            let c = self.pieces[i].roll();
            proof {
                let pre = self@.subrange(0, i as int);
                let post = self@.subrange(0, i as int + 1);
                assert(post.drop_last() =~= pre);
                assert(post.last() == self@[i as int]);
            }
            sum = sum.saturating_add(c);
            i = i + 1;
        }
        proof {
            assert(self@.subrange(0, n as int) =~= self@);
        }
        sum
    }
}

impl ValidationError {
    /// A human-readable description naming the offending side count.
    pub fn message(&self) -> (r: String)
        ensures
            r@ == "too few sides: "@ + dec_chars(self.sides as int),
    {
        let mut s = String::from_str("too few sides: ");
        let d = u64_to_string(self.sides);
        s.append(d.as_str());
        s
    }
}

/// The unified failure of a full roll, carrying the original input text
/// and the underlying cause: the input either did not match the grammar
/// (the syntax error already carries the text) or was grammatically
/// well-formed but semantically invalid.
#[derive(Debug, PartialEq, Eq)]
pub enum Error {
    Syntax(SyntaxError),
    Validation { text: String, cause: ValidationError },
}

impl Error {
    /// A human-readable description naming the rejected input and
    /// whichever phase rejected it.
    pub fn message(&self) -> (r: String)
        ensures
            match self {
                Error::Syntax(e) => r@ == "failed to parse '"@ + e.text@ + "' at character "@
                    + dec_chars(e.at as int),
                Error::Validation { text, cause } => r@ == "failed to roll '"@ + text@ + "': "@
                    + "too few sides: "@ + dec_chars(cause.sides as int),
            },
    {
        match self {
            Error::Syntax(e) => e.message(),
            Error::Validation { text, cause } => {
                let mut s = String::from_str("failed to roll '");
                s.append(text.as_str());
                s.append("': ");
                let m = cause.message();
                s.append(m.as_str());
                proof {
                    assert(("failed to roll '"@ + text@ + "': "@) + ("too few sides: "@
                        + dec_chars(cause.sides as int)) =~= "failed to roll '"@ + text@ + "': "@
                        + "too few sides: "@ + dec_chars(cause.sides as int));
                }
                s
            },
        }
    }
}

/// Parse `text` as a dice expression, validate it, and evaluate it to a
/// random sum.  Succeeds exactly on input that matches the grammar and
/// whose every die has at least one side; the result then lies between
/// the least and the greatest total the expression can produce
/// (saturating at `u64::MAX`).  Bad input is an expected, recoverable
/// condition: the error says which phase rejected it, and never a panic.
pub fn roll(text: &str) -> (r: Result<u64, Error>)
    ensures
        match parse_dice(text@) {
            Some(ps) => if all_valid(ps) {
                r matches Ok(v) && clamp64(dice_min(ps)) <= v as int <= dice_max(ps)
            } else {
                r matches Err(e) && e matches Error::Validation { text: t, cause } && t@ == text@
                    && cause.sides == 0
            },
            None => r matches Err(e) && e matches Error::Syntax(se) && se.text@ == text@,
        },
{
    let dice = match dice_specification(text) {
        Ok(d) => d,
        Err(e) => {
            return Err(Error::Syntax(e));
        },
    };
    if let Err(e) = dice.validate() {
        return Err(Error::Validation { text: String::from_str(text), cause: e });
    }
    Ok(dice.roll())
}

/// The host-boundary form of a roll: the decimal text of the computed
/// sum, or the empty string when the input is rejected.  Collapsing both
/// error kinds to an empty sentinel is a deliberate simplification at
/// this boundary; callers who need the diagnostic call `roll` instead.
pub fn roll_text(text: &str) -> (r: String)
    ensures
        match parse_dice(text@) {
            Some(ps) => if all_valid(ps) {
                r@.len() >= 1 && exists|v: u64|
                    clamp64(dice_min(ps)) <= v as int <= dice_max(ps) && r@ == dec_chars(v as int)
            } else {
                r@.len() == 0
            },
            None => r@.len() == 0,
        },
{
    match roll(text) {
        Ok(v) => u64_to_string(v),
        Err(_) => String::new(),
    }
}

/// A die term's possible contributions, the bounds that `Piece::roll`'s
/// `ensures` promises of it: between `count` (every die shows a 1) and
/// `count * sides` (every die shows `sides`), and exactly 0 when `count`
/// is 0 — a zero-count die rolls nothing.
pub proof fn lemma_die_contribution_bounds(count: u64, sides: u64)
    ensures
        piece_min(Piece::Die { count, sides }) == count as int,
        piece_max(Piece::Die { count, sides }) == count as int * sides as int,
        count == 0 ==> piece_max(Piece::Die { count, sides }) == 0,
{
}

/// Every valid expression evaluates within fixed bounds: the total is
/// non-negative and the theoretical maximum — the sum over die terms of
/// `count * sides` plus the sum of offsets — is no less than the
/// theoretical minimum.  With the `ensures` of `Dice::roll`, every
/// evaluation of a valid expression lands in `[dice_min, dice_max]`
/// (saturating at `u64::MAX`).
pub proof fn lemma_eval_bounds(ps: Seq<Piece>)
    requires
        all_valid(ps),
    ensures
        0 <= dice_min(ps) <= dice_max(ps),
    decreases ps.len(),
{
    if ps.len() > 0 {
        assert(all_valid(ps.drop_last()));
        lemma_eval_bounds(ps.drop_last());
        assert(piece_valid(ps[ps.len() - 1]));
        match ps.last() {
            Piece::Die { count, sides } => {
                assert(count as int <= count as int * sides as int) by (nonlinear_arith)
                    requires
                        0 <= count as int,
                        1 <= sides as int,
                ;
            },
            Piece::Offset(_) => (),
        }
    }
}

} // verus!
