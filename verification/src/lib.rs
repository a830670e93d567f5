//! Quarter progress: resolves an instant and an IANA timezone to the calendar
//! quarter containing it, and renders elapsed and remaining time through that
//! quarter as a human-readable breakdown of weeks, days, hours, minutes and
//! seconds.

#![allow(unused_imports)]

pub mod duration;
pub mod quarters;
pub mod text;
pub mod tz;
