//! The dashboard repository: create, read, update, list and delete, each
//! within one organization.
//!
//! Every operation is one step from the state before it to the state after
//! it and an outcome. The step functions below say what each operation does;
//! the methods of [`DashboardRepository`] compute exactly that. A repository
//! is changed through `&mut` only, so two operations never interleave: of two
//! callers that race, one goes first and the other sees what it left.

use vstd::prelude::*;
use crate::concurrency::{apply_update, apply_update_spec};
use crate::dashboard::{Dashboard, DashboardView, dashboard_views, outcome_view};
use crate::document::{Document, DocumentView, PanelsField, PanelsFieldView, bodies, panels_of};
use crate::error::{Error, ValidationError};
use crate::ident::{generated_id, id_text};
use crate::store::{
    ResourceStore,
    delete_keeps_well_formed,
    delete_spec,
    get_spec,
    holds,
    index_of,
    list_spec,
    ordered,
    put_keeps_well_formed,
    put_spec,
    well_formed,
};
use crate::validator::{validate, validate_spec};

verus! {

/// What a repository holds: its dashboards in listing order, and the number
/// that the next assigned identifier is looked for from.
pub struct RepositoryView {
    pub entries: Seq<DashboardView>,
    pub next_number: u64,
}

/// The panels that a document asks for.
pub open spec fn requested_panels(document: DocumentView) -> Seq<Seq<char>> {
    match document.panels {
        PanelsFieldView::Sequence(items) => bodies(items),
        _ => Seq::empty(),
    }
}

/// The dashboard that a document becomes when it is created at `now`.
pub open spec fn created(
    organization: Seq<char>,
    id: Seq<char>,
    document: DocumentView,
    now: u64,
) -> DashboardView {
    DashboardView {
        id,
        organization_id: organization,
        title: document.title,
        panels: requested_panels(document),
        version: 1,
        created_at: now,
        updated_at: now,
    }
}

/// The dashboard that `current` becomes when `document` replaces its content
/// at `now`: identifier, organization and creation time stay.
pub open spec fn revised(
    current: DashboardView,
    document: DocumentView,
    version: u64,
    now: u64,
) -> DashboardView {
    DashboardView {
        title: document.title,
        panels: requested_panels(document),
        version,
        updated_at: now,
        ..current
    }
}

/// The first number from `from` on whose identifier `organization` does not
/// hold. The last number that a `u64` can count is never handed out: it is
/// the answer when every number before it is taken.
pub open spec fn free_number(entries: Seq<DashboardView>, organization: Seq<char>, from: u64) -> u64
    decreases u64::MAX - from,
{
    if from < u64::MAX && holds(entries, organization, id_text(from)) {
        free_number(entries, organization, (from + 1) as u64)
    } else {
        from
    }
}

/// One `create`: the state after it and its outcome.
///
/// An empty organization identifier and a document that fails validation are
/// refused, in that order. A document that asks for an identifier gets it
/// unless the organization holds it already. A document that asks for none is
/// assigned the first free one. The new dashboard has version 1 and both
/// timestamps at `now`. A refused `create` changes nothing.
pub open spec fn create_step(
    before: RepositoryView,
    organization: Seq<char>,
    document: DocumentView,
    now: u64,
) -> (RepositoryView, Result<DashboardView, Error>) {
    if organization.len() == 0 {
        (before, Err(Error::Validation(ValidationError::EmptyOrganization)))
    } else if validate_spec(document) is Err {
        (before, Err(Error::Validation(validate_spec(document)->Err_0)))
    } else {
        match document.id {
            Some(id) => if holds(before.entries, organization, id) {
                (before, Err(Error::AlreadyExists))
            } else {
                let record = created(organization, id, document, now);
                (
                    RepositoryView { entries: put_spec(before.entries, record), ..before },
                    Ok(record),
                )
            },
            None => {
                let number = free_number(before.entries, organization, before.next_number);
                if number == u64::MAX {
                    (before, Err(Error::InfrastructureFailure))
                } else {
                    let record = created(organization, id_text(number), document, now);
                    (
                        RepositoryView {
                            entries: put_spec(before.entries, record),
                            next_number: (number + 1) as u64,
                        },
                        Ok(record),
                    )
                }
            },
        }
    }
}

/// One `update`: the state after it and its outcome.
///
/// A document that fails validation is refused first, then a key that is not
/// held, then a version that is not the stored one. An update that goes
/// through replaces title and panels, counts the version up by one and sets
/// the time of the update; the dashboard keeps its place. A refused update
/// changes nothing.
pub open spec fn update_step(
    before: RepositoryView,
    organization: Seq<char>,
    id: Seq<char>,
    document: DocumentView,
    expected_version: u64,
    now: u64,
) -> (RepositoryView, Result<DashboardView, Error>) {
    if validate_spec(document) is Err {
        (before, Err(Error::Validation(validate_spec(document)->Err_0)))
    } else if !holds(before.entries, organization, id) {
        (before, Err(Error::NotFound))
    } else {
        let current = before.entries[index_of(before.entries, organization, id)];
        match apply_update_spec(current.version, expected_version) {
            Err(error) => (before, Err(error)),
            Ok(version) => {
                let record = revised(current, document, version, now);
                (
                    RepositoryView { entries: put_spec(before.entries, record), ..before },
                    Ok(record),
                )
            },
        }
    }
}

/// One `delete`: the state after it and its outcome.
pub open spec fn delete_step(before: RepositoryView, organization: Seq<char>, id: Seq<char>) -> (
    RepositoryView,
    Result<(), Error>,
) {
    (
        RepositoryView { entries: delete_spec(before.entries, organization, id), ..before },
        if holds(before.entries, organization, id) {
            Ok(())
        } else {
            Err(Error::NotFound)
        },
    )
}

/// The repository. It owns its store; nothing else reaches the dashboards.
pub struct DashboardRepository {
    store: ResourceStore,
    next_number: u64,
}

impl View for DashboardRepository {
    type V = RepositoryView;

    closed spec fn view(&self) -> RepositoryView {
        RepositoryView { entries: self.store@, next_number: self.next_number }
    }
}

impl DashboardRepository {
    /// A repository that holds nothing; the first identifier it assigns is
    /// `d1`.
    pub fn new() -> (repository: Self)
        ensures
            repository@ == (RepositoryView { entries: Seq::empty(), next_number: 1 }),
            well_formed(repository@.entries),
    {
        DashboardRepository { store: ResourceStore::new(), next_number: 1 }
    }

    /// A repository over a store that the caller hands in, with what it holds.
    pub fn with_store(store: ResourceStore) -> (repository: Self)
        ensures
            repository@ == (RepositoryView { entries: store@, next_number: 1 }),
            well_formed(repository@.entries),
    {
        proof {
            use_type_invariant(&store);
        }
        DashboardRepository { store, next_number: 1 }
    }

    /// The first number from `next_number` on whose identifier
    /// `organization` does not hold, and that identifier.
    fn free_id(&self, organization: &str) -> (found: (u64, String))
        ensures
            found.0 == free_number(self@.entries, organization@, self@.next_number),
            found.1@ == id_text(found.0),
    {
        let mut number = self.next_number;
        let mut id = generated_id(number);
        while number < u64::MAX && self.store.contains(organization, id.as_str())
            invariant
                id@ == id_text(number),
                free_number(self@.entries, organization@, self@.next_number) == free_number(
                    self@.entries,
                    organization@,
                    number,
                ),
            decreases u64::MAX - number,
        {
            number += 1;
            id = generated_id(number);
        }
        (number, id)
    }

    /// Creates a dashboard from `document` in `organization`, at time `now`.
    pub fn create(&mut self, organization: &str, document: Document, now: u64) -> (outcome: Result<
        Dashboard,
        Error,
    >)
        ensures
            (final(self)@, outcome_view(outcome)) == create_step(
                old(self)@,
                organization@,
                document@,
                now,
            ),
            well_formed(final(self)@.entries),
    {
        proof {
            use_type_invariant(&self.store);
            put_keeps_well_formed(
                self@.entries,
                create_step(self@, organization@, document@, now).1->Ok_0,
            );
        }
        if organization.is_empty() {
            return Err(Error::Validation(ValidationError::EmptyOrganization));
        }
        match validate(&document) {
            Err(error) => {
                return Err(Error::Validation(error));
            },
            Ok(()) => {},
        }
        let Document { id, title, panels } = document;
        let panels = match &panels {
            PanelsField::Sequence(items) => panels_of(items),
            _ => Vec::new(),
        };
        let id = match id {
            Some(id) => {
                if self.store.contains(organization, id.as_str()) {
                    return Err(Error::AlreadyExists);
                }
                id
            },
            None => {
                let (number, id) = self.free_id(organization);
                if number == u64::MAX {
                    return Err(Error::InfrastructureFailure);
                }
                self.next_number = number + 1;
                id
            },
        };
        let record = Dashboard {
            id,
            organization_id: organization.to_owned(),
            title,
            panels,
            version: 1,
            created_at: now,
            updated_at: now,
        };
        let copy = record.clone();
        self.store.put(record);
        Ok(copy)
    }

    /// Replaces title and panels of the dashboard that `organization` holds
    /// under `id` by those of `document`, provided that `expected_version` is
    /// the version that is stored.
    pub fn update(
        &mut self,
        organization: &str,
        id: &str,
        document: &Document,
        expected_version: u64,
        now: u64,
    ) -> (outcome: Result<Dashboard, Error>)
        ensures
            (final(self)@, outcome_view(outcome)) == update_step(
                old(self)@,
                organization@,
                id@,
                document@,
                expected_version,
                now,
            ),
            well_formed(final(self)@.entries),
    {
        proof {
            use_type_invariant(&self.store);
            put_keeps_well_formed(
                self@.entries,
                update_step(self@, organization@, id@, document@, expected_version, now).1->Ok_0,
            );
        }
        match validate(document) {
            Err(error) => {
                return Err(Error::Validation(error));
            },
            Ok(()) => {},
        }
        let current = match self.store.get(organization, id) {
            Err(_) => {
                return Err(Error::NotFound);
            },
            Ok(current) => current,
        };
        let version = match apply_update(current.version, expected_version) {
            Err(error) => {
                return Err(error);
            },
            Ok(version) => version,
        };
        let panels = match &document.panels {
            PanelsField::Sequence(items) => panels_of(items),
            _ => Vec::new(),
        };
        let record = Dashboard {
            id: current.id,
            organization_id: current.organization_id,
            title: document.title.clone(),
            panels,
            version,
            created_at: current.created_at,
            updated_at: now,
        };
        let copy = record.clone();
        self.store.put(record);
        Ok(copy)
    }

    /// The dashboard that `organization` holds under `id`.
    pub fn get(&self, organization: &str, id: &str) -> (outcome: Result<Dashboard, Error>)
        ensures
            outcome_view(outcome) == get_spec(self@.entries, organization@, id@),
            well_formed(self@.entries),
    {
        proof {
            use_type_invariant(&self.store);
        }
        self.store.get(organization, id)
    }

    /// The dashboards of `organization`, ordered by creation time. Each call
    /// answers from what the repository holds at that moment.
    pub fn list(&self, organization: &str) -> (found: Vec<Dashboard>)
        ensures
            dashboard_views(found@) == list_spec(self@.entries, organization@),
            ordered(dashboard_views(found@)),
            well_formed(self@.entries),
    {
        proof {
            use_type_invariant(&self.store);
        }
        self.store.list(organization)
    }

    /// Deletes the dashboard that `organization` holds under `id`.
    pub fn delete(&mut self, organization: &str, id: &str) -> (outcome: Result<(), Error>)
        ensures
            (final(self)@, outcome) == delete_step(old(self)@, organization@, id@),
            well_formed(final(self)@.entries),
    {
        proof {
            use_type_invariant(&self.store);
            delete_keeps_well_formed(self@.entries, organization@, id@);
        }
        self.store.delete(organization, id)
    }
}

} // verus!
