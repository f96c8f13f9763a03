//! A calendar-aware plain date engine: a validated, immutable date value tied
//! to a calendar, a derivation engine for the calendar-dependent properties of
//! a date, and a coercion protocol that normalizes heterogeneous inputs into
//! the canonical validated form.

pub mod ast;
pub mod calendar;
pub mod error;
pub mod iso;
pub mod options;
pub mod parser;
pub mod plain_date;
