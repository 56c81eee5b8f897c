//! What holds of the library as a whole, said of what goes in and what comes out.
pub mod calendar;
pub mod calls;
pub mod machine;
pub mod numbers;
pub mod service;
pub mod sessions;
pub mod showing;
pub mod starting;
pub mod steering;
pub mod texts;
pub mod views;
