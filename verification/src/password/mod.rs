//! The password game: a list of rules that a password has to meet, checked
//! in order, and the older test that tells nice strings from naughty ones.

pub mod rules;
pub mod scan;
