//! The interactive terminal UI: its state, how keys change it, what the
//! background tasks report, and what each screen shows. Drawing and the
//! terminal itself belong to the program.
pub mod keys;
pub mod tasks;
pub mod types;
pub mod view;
