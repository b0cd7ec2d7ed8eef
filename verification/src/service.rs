//! The five requests that a transport layer serves, each as one call on a
//! repository and a reply with its HTTP status.
//!
//! The transport layer extracts the organization and the dashboard
//! identifier from the path, decodes the body, reads the clock, and sends
//! what comes back. Everything that is decided is decided here.

use vstd::prelude::*;
use crate::dashboard::{Dashboard, DashboardView, dashboard_views};
use crate::document::Document;
use crate::error::{Error, ValidationError};
use crate::repository::{DashboardRepository, create_step, delete_step, update_step};
use crate::store::{get_spec, list_spec, ordered};

verus! {

/// What is sent back for a request.
#[derive(Debug, PartialEq, Eq)]
pub enum Reply {
    /// A dashboard was created; this is it.
    Created(Dashboard),
    /// The dashboard that was asked for, or the dashboard as updated.
    Found(Dashboard),
    /// The dashboards of an organization, ordered by creation time.
    Listing(Vec<Dashboard>),
    /// The dashboard was deleted.
    Deleted,
    /// The request failed.
    Failed(Error),
}

impl Reply {
    /// The HTTP status of a reply: 201 for a creation, 200 for every other
    /// success, and for a failure the status of its kind.
    pub open spec fn status_spec(self) -> u16 {
        match self {
            Reply::Created(_) => 201,
            Reply::Found(_) => 200,
            Reply::Listing(_) => 200,
            Reply::Deleted => 200,
            Reply::Failed(error) => error.status_spec(),
        }
    }

    pub fn status(&self) -> (code: u16)
        ensures
            code == self.status_spec(),
    {
        match self {
            Reply::Created(_) => 201,
            Reply::Found(_) => 200,
            Reply::Listing(_) => 200,
            Reply::Deleted => 200,
            Reply::Failed(error) => error.status(),
        }
    }

    /// Whether the request was served.
    pub fn is_success(&self) -> (yes: bool)
        ensures
            yes == !(self is Failed),
            yes <==> self.status_spec() < 400,
    {
        match self {
            Reply::Failed(_) => false,
            _ => true,
        }
    }
}

/// The version that an update has to name, and the failure where it names
/// none.
pub open spec fn named_version(expected_version: Option<u64>) -> Result<u64, Error> {
    match expected_version {
        Some(version) => Ok(version),
        None => Err(Error::Validation(ValidationError::MissingVersion)),
    }
}

/// Serves `POST /{org_id}/dashboards`: creates a dashboard from `details`
/// in the organization `org_id`. The reply is `Created` with the new
/// dashboard, or `Failed` with the reason and nothing changed.
pub fn create_dashboard(
    repository: &mut DashboardRepository,
    org_id: &str,
    details: Document,
    now: u64,
) -> (reply: Reply)
    ensures
        final(repository)@ == create_step(old(repository)@, org_id@, details@, now).0,
        match reply {
            Reply::Created(dashboard) => create_step(old(repository)@, org_id@, details@, now).1
                == Ok::<DashboardView, Error>(dashboard@),
            Reply::Failed(error) => create_step(old(repository)@, org_id@, details@, now).1
                == Err::<DashboardView, Error>(error),
            _ => false,
        },
{
    match repository.create(org_id, details, now) {
        Ok(dashboard) => Reply::Created(dashboard),
        Err(error) => Reply::Failed(error),
    }
}

/// Serves `PUT /{org_id}/dashboards/{dashboard_id}`: replaces title and
/// panels of a dashboard by those of `details`. The request has to name the
/// version it was made from; one that names none is refused before anything
/// else is looked at. The reply is `Found` with the dashboard as updated, or
/// `Failed` with the reason and nothing changed.
pub fn update_dashboard(
    repository: &mut DashboardRepository,
    org_id: &str,
    dashboard_id: &str,
    details: &Document,
    expected_version: Option<u64>,
    now: u64,
) -> (reply: Reply)
    ensures
        match named_version(expected_version) {
            Err(error) => reply == Reply::Failed(error) && final(repository)@ == old(repository)@,
            Ok(version) => {
                let step = update_step(
                    old(repository)@,
                    org_id@,
                    dashboard_id@,
                    details@,
                    version,
                    now,
                );
                &&& final(repository)@ == step.0
                &&& match reply {
                    Reply::Found(dashboard) => step.1 == Ok::<DashboardView, Error>(dashboard@),
                    Reply::Failed(error) => step.1 == Err::<DashboardView, Error>(error),
                    _ => false,
                }
            },
        },
{
    let version = match expected_version {
        Some(version) => version,
        None => {
            return Reply::Failed(Error::Validation(ValidationError::MissingVersion));
        },
    };
    match repository.update(org_id, dashboard_id, details, version, now) {
        Ok(dashboard) => Reply::Found(dashboard),
        Err(error) => Reply::Failed(error),
    }
}

/// Serves `GET /{org_id}/dashboards`: the dashboards of the organization,
/// ordered by creation time. This never fails; an organization without
/// dashboards has an empty listing.
pub fn list_dashboards(repository: &DashboardRepository, org_id: &str) -> (reply: Reply)
    ensures
        reply matches Reply::Listing(found) && dashboard_views(found@) == list_spec(
            repository@.entries,
            org_id@,
        ) && ordered(dashboard_views(found@)),
{
    Reply::Listing(repository.list(org_id))
}

/// Serves `GET /{org_id}/dashboards/{dashboard_id}`: `Found` with the
/// dashboard, or `Failed` with `NotFound`.
pub fn get_dashboard(repository: &DashboardRepository, org_id: &str, dashboard_id: &str) -> (reply:
    Reply)
    ensures
        match reply {
            Reply::Found(dashboard) => get_spec(repository@.entries, org_id@, dashboard_id@)
                == Ok::<DashboardView, Error>(dashboard@),
            Reply::Failed(error) => get_spec(repository@.entries, org_id@, dashboard_id@)
                == Err::<DashboardView, Error>(error),
            _ => false,
        },
{
    match repository.get(org_id, dashboard_id) {
        Ok(dashboard) => Reply::Found(dashboard),
        Err(error) => Reply::Failed(error),
    }
}

/// Serves `DELETE /{org_id}/dashboards/{dashboard_id}`: `Deleted`, or
/// `Failed` with `NotFound` and nothing changed.
pub fn delete_dashboard(repository: &mut DashboardRepository, org_id: &str, dashboard_id: &str) -> (reply:
    Reply)
    ensures
        final(repository)@ == delete_step(old(repository)@, org_id@, dashboard_id@).0,
        match reply {
            Reply::Deleted => delete_step(old(repository)@, org_id@, dashboard_id@).1 == Ok::<
                (),
                Error,
            >(()),
            Reply::Failed(error) => delete_step(old(repository)@, org_id@, dashboard_id@).1
                == Err::<(), Error>(error),
            _ => false,
        },
{
    match repository.delete(org_id, dashboard_id) {
        Ok(()) => Reply::Deleted,
        Err(error) => Reply::Failed(error),
    }
}

} // verus!
