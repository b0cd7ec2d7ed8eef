//! Tenant-scoped repository of versioned dashboards.
//!
//! A dashboard is a titled sequence of panels that belongs to one
//! organization. The repository creates, reads, updates, lists and deletes
//! dashboards, never crosses an organization boundary, and guards updates
//! with a version token: an update that names a stale version is refused.

pub mod concurrency;
pub mod dashboard;
pub mod document;
pub mod error;
pub mod guarantees;
pub mod ident;
pub mod repository;
pub mod service;
pub mod store;
pub mod validator;

pub use concurrency::apply_update;
pub use dashboard::Dashboard;
pub use document::{Document, Fragment, Kind, Panel, PanelsField};
pub use error::{Error, ValidationError};
pub use repository::DashboardRepository;
pub use service::{
    create_dashboard, delete_dashboard, get_dashboard, list_dashboards, update_dashboard, Reply,
};
pub use store::ResourceStore;
pub use validator::validate;
