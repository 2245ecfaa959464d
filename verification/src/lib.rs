//! Small verified utility library: text helpers, integer sequence helpers,
//! a generic minimum search, a port-number parser, and a dice roll backed by
//! a random number generator.

pub mod dice;
pub mod nums;
pub mod parse;
pub mod search;
pub mod text;

pub use dice::roll_dice;
pub use nums::even_squares;
pub use nums::flip;
pub use nums::sum;
pub use parse::parse_port;
pub use search::min_by_key;
pub use text::borrow_first_char;
pub use text::greet;
pub use text::push_exclamation;
pub use text::take_ownership;
