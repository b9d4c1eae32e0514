/// Hit-testing of pointer positions against the board's column rectangles and cards.
pub mod board;
/// Reading an iCalendar feed: date-times and the next upcoming meeting.
pub mod calendar;
/// The board's input modes, selection and drag-and-drop, event by event.
pub mod controller;
/// The ordered task list and its lifecycle operations.
pub mod store;
/// Tasks, their statuses and timestamps.
pub mod task;
mod text;
