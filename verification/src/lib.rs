//! Reservation domain engine: entity validation, overlap-conflict detection
//! with structured conflict reporting, status lifecycle transitions, and
//! range/cursor query semantics over a store of time-windowed reservations.

pub mod config;
pub mod conflict;
pub mod datetime;
pub mod errors;
pub mod query;
pub mod reservation;
pub mod store;
pub mod status;
pub mod strutil;

pub use config::{default_max_connections, Config, DbConfig, ServerConfig};
pub use conflict::{ReservationConflict, ReservationConflictInfo, ReservationWindow};
pub use errors::{Error, ErrorClass};
pub use query::{FilterPager, ReservationFilter, ReservationQuery};
pub use reservation::{Reservation, Validator};
pub use store::ReservationStore;
pub use status::{ReservationStatus, RsvpStatus};
