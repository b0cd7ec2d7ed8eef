//! The stored entity.

use vstd::prelude::*;
use crate::document::{Panel, clone_panels, panel_views};
use crate::error::Error;

verus! {

/// A dashboard as the repository keeps and returns it.
#[derive(Debug, PartialEq, Eq)]
pub struct Dashboard {
    /// Unique within the organization; fixed at creation.
    pub id: String,
    /// The owning organization; fixed at creation.
    pub organization_id: String,
    pub title: String,
    pub panels: Vec<Panel>,
    /// 1 at creation, one more after each update.
    pub version: u64,
    pub created_at: u64,
    pub updated_at: u64,
}

pub struct DashboardView {
    pub id: Seq<char>,
    pub organization_id: Seq<char>,
    pub title: Seq<char>,
    pub panels: Seq<Seq<char>>,
    pub version: u64,
    pub created_at: u64,
    pub updated_at: u64,
}

impl View for Dashboard {
    type V = DashboardView;

    open spec fn view(&self) -> DashboardView {
        DashboardView {
            id: self.id@,
            organization_id: self.organization_id@,
            title: self.title@,
            panels: panel_views(self.panels@),
            version: self.version,
            created_at: self.created_at,
            updated_at: self.updated_at,
        }
    }
}

impl Clone for Dashboard {
    fn clone(&self) -> (copy: Self)
        ensures
            copy@ == self@,
    {
        Dashboard {
            id: self.id.clone(),
            organization_id: self.organization_id.clone(),
            title: self.title.clone(),
            panels: clone_panels(&self.panels),
            version: self.version,
            created_at: self.created_at,
            updated_at: self.updated_at,
        }
    }
}

/// The views of a run of dashboards, in order.
pub open spec fn dashboard_views(dashboards: Seq<Dashboard>) -> Seq<DashboardView> {
    Seq::new(dashboards.len(), |i: int| dashboards[i]@)
}

/// What an operation that yields one dashboard returned, over views.
pub open spec fn outcome_view(outcome: Result<Dashboard, Error>) -> Result<DashboardView, Error> {
    match outcome {
        Ok(dashboard) => Ok(dashboard@),
        Err(error) => Err(error),
    }
}

} // verus!
