//! A second word/line/character/byte counter, kept alongside [`crate::wc`].

pub mod wc;
