pub mod animation;
pub mod rgb;
pub mod side;
