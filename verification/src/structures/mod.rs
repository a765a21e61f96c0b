pub mod error;
pub mod health;
pub mod metrics;
pub mod stats_data;

pub use error::{TResult, TransportError};
pub use health::HealthResponse;
pub use metrics::Metrics;
pub use stats_data::{RateSample, StatsData, StatsResponse};
