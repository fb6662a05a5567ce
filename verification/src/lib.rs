//! Reading and adjusting a display backlight, as verified logic.
//!
//! A backlight device is known by two numbers: its current level and its
//! highest level. This crate holds the decisions that a tool for such a
//! device has to make, and none of the input and output:
//!
//! - what a command-line argument asks for ([`Action::from_str`]);
//! - which brightness an action aims at, as a ratio of the maximum
//!   ([`Action::calculate_new_percentage`]), and which level is to be written
//!   for it ([`Action::execute`]);
//! - what the files of the device say ([`device::parse_level`]) and what is
//!   written to them ([`device::level_text`]).
//!
//! All arithmetic is exact: a brightness is a ratio of two integers
//! ([`Fraction`]), not a floating-point number. A ratio becomes a level by
//! rounding to the nearest level, a tie going up; a level becomes a
//! percentage for the report by rounding to the nearest whole percentage, a
//! tie going to the even one.

pub mod action;
pub mod decimal;
pub mod device;
pub mod error;
pub mod fraction;
pub mod policy;

pub use action::{Action, SetMode};
pub use error::Error;
pub use fraction::Fraction;
