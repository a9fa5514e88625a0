pub mod dice;
pub mod combination;
pub mod scorecard;
pub mod roll;
