//! A task list over VDIR directories of iCalendar files: loading, aggregation,
//! filtering, ordering and completion toggling of todo items.
pub mod config;
pub mod helper;
pub mod props;
pub mod todo;
pub mod engine;
pub mod ics;
pub mod store;
pub mod app;
pub mod view;
