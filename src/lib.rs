//! A small quote journal: quotes with an optional author and an optional
//! calendar day, a typed filter over them, and their plain-text rendering.
pub mod date;
pub mod quote;
pub mod filter;
pub mod listing;
pub mod store;

pub use date::{calendar_day, parse_date, local_today, CalendarDate, DateError, ToChronoDateFormatted};
pub use quote::{render_with_quoted, Quote};
pub use filter::{build_filter, Filter, UsageError};
pub use listing::{listing, no_match_message};
pub use store::{AddError, QuoteStore};
