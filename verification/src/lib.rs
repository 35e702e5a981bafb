//! Statistics over an exported chat transcript: per-participant and aggregate
//! counts, hourly activity, emoji usage and a calendar-aligned timeline.
//!
//! A transcript is read into a [`conversation::Conversation`], a list of
//! [`message::Message`]s with the names of their authors. A conversation
//! answers questions about itself (its duration, its words and letters, who
//! wrote what and when) and is cut into the buckets of a
//! [`period::TimelineType`] by [`timeline`]. [`insights::Insights`] gathers
//! all of it.
//!
//! Dates and times are [`datetime::DateTime`]s; what is claimed of them is
//! stated over the model of the calendar in [`calendar`]. Parsing a date,
//! the day of the week, moving by days and the difference of two date-times
//! are left to `chrono`, and finding the lines of a transcript to `regex`;
//! the functions that call them say what is taken on trust.

pub mod calendar;
pub mod datetime;
pub mod period;
pub mod text;
pub mod emoji;
pub mod message;
pub mod conversation;
pub mod transcript;
pub mod timeline;
pub mod insights;
