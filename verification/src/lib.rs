//! A verified dice-notation roller.
//!
//! Input such as `"4d20+10"` is parsed into a [`Dice`](dice::Dice)
//! expression — an ordered list of terms, each either a dice roll
//! (`count` dice of `sides` sides each) or a fixed offset — which is
//! validated and then evaluated to a random sum.

pub mod decimal;
pub mod dice;
pub mod parser;

pub use decimal::u64_to_string;
pub use dice::roll;
pub use dice::roll_text;
pub use dice::Dice;
pub use dice::Error;
pub use dice::Piece;
pub use dice::ValidationError;
pub use parser::dice_specification;
pub use parser::single_die;
pub use parser::SyntaxError;
