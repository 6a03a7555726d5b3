pub mod builder;
pub mod rgb;
