//! What holds of the library as it is seen from outside: which questions follow which
//! answers, what figures come from which readings, and what can be read back from what was
//! written.

pub mod amounts;
pub mod documents;
pub mod errands;
pub mod figures;
pub mod following;
pub mod naming;
pub mod panel;
pub mod places;
pub mod polling;
pub mod readings;
pub mod said;
pub mod service;
pub mod starting;
pub mod sums;
pub mod supervising;
pub mod texts;
pub mod tray;
pub mod unmounting;
pub mod uploads;
pub mod words;
