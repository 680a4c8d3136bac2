//! Exam calendars: validation, iCalendar rendering, storage and import.

pub mod dates;
pub mod dotenv;
pub mod files;
pub mod fold;
pub mod generate;
pub mod html;
pub mod json;
pub mod model;
pub mod render;
pub mod rows;
pub mod server;
pub mod store;
pub mod tables;
pub mod text;
pub mod validate;

pub use fold::escape_text;
pub use generate::generate_all;
pub use model::{CalendarFile, Event, EventStatus, GenerationOptions, Source};
pub use render::render_calendar;
pub use validate::validate_calendar;
