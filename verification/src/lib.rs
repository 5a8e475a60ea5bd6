//! Weekly time commitments: week calendar, progress aggregation and the
//! state machine of an interactive session over the aggregated data.

pub mod app;
pub mod calendar;
pub mod dispatch;
pub mod hours;
pub mod input;
pub mod listing;
pub mod model;
pub mod progress;
pub mod text;
pub mod util;
