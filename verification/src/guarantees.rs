//! What holds of the store and of the repository across operations.
//!
//! Each statement is about the step functions that the operations are
//! contracted to compute, so it holds of every run of the executable code.

use vstd::prelude::*;
use crate::dashboard::DashboardView;
use crate::document::DocumentView;
use crate::error::Error;
use crate::ident::id_text;
use crate::repository::{
    RepositoryView,
    create_step,
    created,
    delete_step,
    free_number,
    requested_panels,
    update_step,
};
use crate::store::{
    delete_keeps_well_formed,
    delete_spec,
    get_spec,
    holds,
    index_of,
    index_of_unique,
    keyed,
    list_spec,
    owned_by,
    put_keeps_well_formed,
    put_spec,
    slot,
    slot_exists,
    well_formed,
};
use crate::validator::is_valid;

verus! {

/// The entry that `put` leaves under the record's key: the record itself,
/// with the creation time of the entry it replaced if it replaced one.
pub open spec fn stored_as(entries: Seq<DashboardView>, record: DashboardView) -> DashboardView {
    if holds(entries, record.organization_id, record.id) {
        DashboardView {
            created_at: entries[index_of(entries, record.organization_id, record.id)].created_at,
            ..record
        }
    } else {
        record
    }
}

/// After `put`, `get` under the record's key answers with what was put.
pub proof fn put_then_get(entries: Seq<DashboardView>, record: DashboardView)
    requires
        well_formed(entries),
    ensures
        get_spec(put_spec(entries, record), record.organization_id, record.id) == Ok::<
            DashboardView,
            Error,
        >(stored_as(entries, record)),
{
    let after = put_spec(entries, record);
    put_keeps_well_formed(entries, record);
    if holds(entries, record.organization_id, record.id) {
        let i = index_of(entries, record.organization_id, record.id);
        assert(0 <= i < entries.len() && keyed(entries[i], record.organization_id, record.id));
        assert(after[i] == stored_as(entries, record));
        index_of_unique(after, record.organization_id, record.id, i);
    } else {
        slot_exists(entries, record.created_at);
        let k = slot(entries, record.created_at);
        assert(after[k] == record);
        index_of_unique(after, record.organization_id, record.id, k);
    }
}

/// `put` changes what `get` answers under the record's key and under no
/// other: not under another identifier, and not under the same identifier in
/// another organization.
pub proof fn put_keeps_others(
    entries: Seq<DashboardView>,
    record: DashboardView,
    organization: Seq<char>,
    id: Seq<char>,
)
    requires
        well_formed(entries),
        !keyed(record, organization, id),
    ensures
        get_spec(put_spec(entries, record), organization, id) == get_spec(
            entries,
            organization,
            id,
        ),
{
    let after = put_spec(entries, record);
    put_keeps_well_formed(entries, record);
    if holds(entries, record.organization_id, record.id) {
        let i = index_of(entries, record.organization_id, record.id);
        assert(0 <= i < entries.len() && keyed(entries[i], record.organization_id, record.id));
        if holds(entries, organization, id) {
            let j = index_of(entries, organization, id);
            assert(0 <= j < entries.len() && keyed(entries[j], organization, id));
            assert(after[j] == entries[j]);
            index_of_unique(after, organization, id, j);
        } else {
            assert forall|a: int| 0 <= a < after.len() implies !keyed(
                #[trigger] after[a],
                organization,
                id,
            ) by {
                if a != i {
                    assert(after[a] == entries[a]);
                }
            }
        }
    } else {
        slot_exists(entries, record.created_at);
        let k = slot(entries, record.created_at);
        if holds(entries, organization, id) {
            let j = index_of(entries, organization, id);
            assert(0 <= j < entries.len() && keyed(entries[j], organization, id));
            let moved = if j < k {
                j
            } else {
                j + 1
            };
            assert(after[moved] == entries[j]);
            index_of_unique(after, organization, id, moved);
        } else {
            assert forall|a: int| 0 <= a < after.len() implies !keyed(
                #[trigger] after[a],
                organization,
                id,
            ) by {
                if a < k {
                    assert(after[a] == entries[a]);
                } else if a > k {
                    assert(after[a] == entries[a - 1]);
                }
            }
        }
    }
}

/// After `delete`, the store holds nothing under that key.
pub proof fn delete_then_absent(
    entries: Seq<DashboardView>,
    organization: Seq<char>,
    id: Seq<char>,
)
    requires
        well_formed(entries),
    ensures
        !holds(delete_spec(entries, organization, id), organization, id),
        get_spec(delete_spec(entries, organization, id), organization, id) == Err::<
            DashboardView,
            Error,
        >(Error::NotFound),
{
    let after = delete_spec(entries, organization, id);
    if holds(entries, organization, id) {
        let i = index_of(entries, organization, id);
        assert(0 <= i < entries.len() && keyed(entries[i], organization, id));
        assert forall|a: int| 0 <= a < after.len() implies !keyed(
            #[trigger] after[a],
            organization,
            id,
        ) by {
            if a < i {
                assert(after[a] == entries[a]);
                assert(!keyed(entries[a], entries[i].organization_id, entries[i].id));
            } else {
                assert(after[a] == entries[a + 1]);
                assert(!keyed(entries[i], entries[a + 1].organization_id, entries[a + 1].id));
            }
        }
    }
}

/// `delete` changes what `get` answers under the deleted key and under no
/// other.
pub proof fn delete_keeps_others(
    entries: Seq<DashboardView>,
    deleted_organization: Seq<char>,
    deleted_id: Seq<char>,
    organization: Seq<char>,
    id: Seq<char>,
)
    requires
        well_formed(entries),
        organization != deleted_organization || id != deleted_id,
    ensures
        get_spec(delete_spec(entries, deleted_organization, deleted_id), organization, id)
            == get_spec(entries, organization, id),
{
    let after = delete_spec(entries, deleted_organization, deleted_id);
    delete_keeps_well_formed(entries, deleted_organization, deleted_id);
    if holds(entries, deleted_organization, deleted_id) {
        let i = index_of(entries, deleted_organization, deleted_id);
        assert(0 <= i < entries.len() && keyed(entries[i], deleted_organization, deleted_id));
        if holds(entries, organization, id) {
            let j = index_of(entries, organization, id);
            assert(0 <= j < entries.len() && keyed(entries[j], organization, id));
            let moved = if j < i {
                j
            } else {
                j - 1
            };
            assert(after[moved] == entries[j]);
            index_of_unique(after, organization, id, moved);
        } else {
            assert forall|a: int| 0 <= a < after.len() implies !keyed(
                #[trigger] after[a],
                organization,
                id,
            ) by {
                if a < i {
                    assert(after[a] == entries[a]);
                } else {
                    assert(after[a] == entries[a + 1]);
                }
            }
        }
    }
}

/// A listing holds dashboards of the organization that was asked for and of
/// no other, whatever identifiers the organizations share.
pub proof fn list_is_of_organization(entries: Seq<DashboardView>, organization: Seq<char>)
    ensures
        forall|i: int|
            0 <= i < list_spec(entries, organization).len() ==> (#[trigger] list_spec(
                entries,
                organization,
            )[i]).organization_id == organization,
{
    assert forall|i: int| 0 <= i < list_spec(entries, organization).len() implies (
    #[trigger] list_spec(entries, organization)[i]).organization_id == organization by {
        entries.lemma_filter_pred(owned_by(organization), i);
    }
}

/// A listing leaves out no dashboard of the organization.
pub proof fn list_is_complete(entries: Seq<DashboardView>, organization: Seq<char>, i: int)
    requires
        0 <= i < entries.len(),
        entries[i].organization_id == organization,
    ensures
        list_spec(entries, organization).contains(entries[i]),
{
    entries.lemma_filter_contains(owned_by(organization), i);
}

/// An entry of another organization, wherever it stands, does not show in a
/// listing, and neither does its absence.
proof fn list_ignores(
    head: Seq<DashboardView>,
    entry: DashboardView,
    tail: Seq<DashboardView>,
    organization: Seq<char>,
)
    requires
        entry.organization_id != organization,
    ensures
        list_spec(head + seq![entry] + tail, organization) == list_spec(head + tail, organization),
{
    let pick = owned_by(organization);
    let one = seq![entry];
    Seq::filter_distributes_over_add(head + one, tail, pick);
    Seq::filter_distributes_over_add(head, one, pick);
    Seq::filter_distributes_over_add(head, tail, pick);
    assert(one.filter(pick) =~= Seq::<DashboardView>::empty()) by {
        reveal_with_fuel(Seq::filter, 2);
        assert(one.drop_last() =~= Seq::<DashboardView>::empty());
    }
    assert(head.filter(pick) + Seq::<DashboardView>::empty() =~= head.filter(pick));
}

/// `put` of a record of one organization leaves the listing of every other
/// organization as it was.
pub proof fn put_keeps_other_listings(
    entries: Seq<DashboardView>,
    record: DashboardView,
    organization: Seq<char>,
)
    requires
        well_formed(entries),
        record.organization_id != organization,
    ensures
        list_spec(put_spec(entries, record), organization) == list_spec(entries, organization),
{
    let after = put_spec(entries, record);
    if holds(entries, record.organization_id, record.id) {
        let i = index_of(entries, record.organization_id, record.id);
        assert(0 <= i < entries.len() && keyed(entries[i], record.organization_id, record.id));
        let head = entries.take(i);
        let tail = entries.skip(i + 1);
        assert(entries =~= head + seq![entries[i]] + tail);
        assert(after =~= head + seq![after[i]] + tail);
        list_ignores(head, entries[i], tail, organization);
        list_ignores(head, after[i], tail, organization);
    } else {
        slot_exists(entries, record.created_at);
        let k = slot(entries, record.created_at);
        let head = entries.take(k);
        let tail = entries.skip(k);
        assert(entries =~= head + tail);
        assert(after =~= head + seq![record] + tail);
        list_ignores(head, record, tail, organization);
    }
}

/// `delete` in one organization leaves the listing of every other
/// organization as it was.
pub proof fn delete_keeps_other_listings(
    entries: Seq<DashboardView>,
    deleted_organization: Seq<char>,
    deleted_id: Seq<char>,
    organization: Seq<char>,
)
    requires
        deleted_organization != organization,
    ensures
        list_spec(delete_spec(entries, deleted_organization, deleted_id), organization)
            == list_spec(entries, organization),
{
    let after = delete_spec(entries, deleted_organization, deleted_id);
    if holds(entries, deleted_organization, deleted_id) {
        let i = index_of(entries, deleted_organization, deleted_id);
        assert(0 <= i < entries.len() && keyed(entries[i], deleted_organization, deleted_id));
        let head = entries.take(i);
        let tail = entries.skip(i + 1);
        assert(entries =~= head + seq![entries[i]] + tail);
        assert(after =~= head + tail);
        list_ignores(head, entries[i], tail, organization);
    }
}

/// The number that `free_number` finds is not below the one it started from,
/// every number it passed over is taken, and unless it is the last number
/// its identifier is free.
pub proof fn free_number_is_first_free(
    entries: Seq<DashboardView>,
    organization: Seq<char>,
    from: u64,
)
    ensures
        from <= free_number(entries, organization, from),
        free_number(entries, organization, from) < u64::MAX ==> !holds(
            entries,
            organization,
            id_text(free_number(entries, organization, from)),
        ),
        forall|n: u64|
            from <= n < free_number(entries, organization, from) ==> holds(
                entries,
                organization,
                #[trigger] id_text(n),
            ),
    decreases u64::MAX - from,
{
    if from < u64::MAX && holds(entries, organization, id_text(from)) {
        free_number_is_first_free(entries, organization, (from + 1) as u64);
    }
}

/// Every step of the repository keeps its entries well formed.
pub proof fn steps_keep_well_formed(
    before: RepositoryView,
    organization: Seq<char>,
    id: Seq<char>,
    document: DocumentView,
    expected_version: u64,
    now: u64,
)
    requires
        well_formed(before.entries),
    ensures
        well_formed(create_step(before, organization, document, now).0.entries),
        well_formed(
            update_step(before, organization, id, document, expected_version, now).0.entries,
        ),
        well_formed(delete_step(before, organization, id).0.entries),
{
    let number = free_number(before.entries, organization, before.next_number);
    put_keeps_well_formed(before.entries, created(organization, id_text(number), document, now));
    if document.id is Some {
        put_keeps_well_formed(
            before.entries,
            created(organization, document.id->Some_0, document, now),
        );
    }
    let refreshed = update_step(before, organization, id, document, expected_version, now);
    if refreshed.1 is Ok {
        put_keeps_well_formed(before.entries, refreshed.1->Ok_0);
    }
    delete_keeps_well_formed(before.entries, organization, id);
}

/// An operation that is refused changes nothing.
pub proof fn refused_changes_nothing(
    before: RepositoryView,
    organization: Seq<char>,
    id: Seq<char>,
    document: DocumentView,
    expected_version: u64,
    now: u64,
)
    ensures
        create_step(before, organization, document, now).1 is Err ==> create_step(
            before,
            organization,
            document,
            now,
        ).0 == before,
        update_step(before, organization, id, document, expected_version, now).1 is Err
            ==> update_step(before, organization, id, document, expected_version, now).0 == before,
        delete_step(before, organization, id).1 is Err ==> delete_step(before, organization, id).0
            == before,
{
}

/// When `create` succeeds. A valid document under an organization that is
/// named is created unless the identifier it asks for is taken, or, where it
/// asks for none, unless no number is left to assign.
pub proof fn create_succeeds_when(
    before: RepositoryView,
    organization: Seq<char>,
    document: DocumentView,
    now: u64,
)
    ensures
        create_step(before, organization, document, now).1 is Ok <==> organization.len() > 0
            && is_valid(document) && match document.id {
            Some(id) => !holds(before.entries, organization, id),
            None => free_number(before.entries, organization, before.next_number) < u64::MAX,
        },
{
}

/// `create` and then `get` under the identifier that `create` returned
/// answers with the dashboard that `create` returned: the document's title
/// and panels under the organization it was created in, the identifier that
/// the document asked for if it asked for one, version 1, and both
/// timestamps at the time of creation.
pub proof fn create_then_get(
    before: RepositoryView,
    organization: Seq<char>,
    document: DocumentView,
    now: u64,
)
    requires
        well_formed(before.entries),
    ensures
        ({
            let (after, outcome) = create_step(before, organization, document, now);
            outcome matches Ok(dashboard) ==> {
                &&& get_spec(after.entries, organization, dashboard.id) == outcome
                &&& dashboard.organization_id == organization
                &&& dashboard.title == document.title
                &&& dashboard.panels == requested_panels(document)
                &&& dashboard.version == 1
                &&& dashboard.created_at == now
                &&& dashboard.updated_at == now
                &&& document.id matches Some(id) ==> dashboard.id == id
            }
        }),
{
    let (after, outcome) = create_step(before, organization, document, now);
    if outcome is Ok {
        let dashboard = outcome->Ok_0;
        free_number_is_first_free(before.entries, organization, before.next_number);
        assert(!holds(before.entries, organization, dashboard.id));
        put_then_get(before.entries, dashboard);
    }
}

/// An update that names the stored version goes through and counts the
/// version up by exactly one; `get` then answers with the updated dashboard,
/// which has the document's title and panels and is otherwise what it was.
/// An update that names any other version is refused as a conflict and
/// changes nothing. This is stated of a dashboard that exists, a document
/// that is valid, and a stored version that is not the last one a `u64` can
/// count.
pub proof fn update_checks_version(
    before: RepositoryView,
    organization: Seq<char>,
    id: Seq<char>,
    document: DocumentView,
    expected_version: u64,
    now: u64,
)
    requires
        well_formed(before.entries),
        holds(before.entries, organization, id),
        is_valid(document),
        get_spec(before.entries, organization, id)->Ok_0.version < u64::MAX,
    ensures
        ({
            let current = get_spec(before.entries, organization, id)->Ok_0;
            let (after, outcome) = update_step(
                before,
                organization,
                id,
                document,
                expected_version,
                now,
            );
            &&& expected_version == current.version ==> {
                &&& outcome matches Ok(dashboard)
                &&& dashboard.version == current.version + 1
                &&& dashboard.title == document.title
                &&& dashboard.panels == requested_panels(document)
                &&& dashboard.updated_at == now
                &&& dashboard.id == id
                &&& dashboard.organization_id == organization
                &&& dashboard.created_at == current.created_at
                &&& get_spec(after.entries, organization, id) == outcome
                &&& after.entries.len() == before.entries.len()
            }
            &&& expected_version != current.version ==> {
                &&& outcome == Err::<DashboardView, Error>(Error::Conflict)
                &&& after == before
            }
        }),
{
    let current = get_spec(before.entries, organization, id)->Ok_0;
    let i = index_of(before.entries, organization, id);
    assert(0 <= i < before.entries.len() && keyed(before.entries[i], organization, id));
    let (after, outcome) = update_step(before, organization, id, document, expected_version, now);
    if expected_version == current.version {
        let dashboard = outcome->Ok_0;
        put_then_get(before.entries, dashboard);
    }
}

/// Whatever the document, an update that names a version other than the
/// stored one never goes through.
pub proof fn stale_update_is_refused(
    before: RepositoryView,
    organization: Seq<char>,
    id: Seq<char>,
    document: DocumentView,
    expected_version: u64,
    now: u64,
)
    requires
        holds(before.entries, organization, id),
        expected_version != get_spec(before.entries, organization, id)->Ok_0.version,
    ensures
        update_step(before, organization, id, document, expected_version, now).1 is Err,
        update_step(before, organization, id, document, expected_version, now).0 == before,
        is_valid(document) ==> update_step(
            before,
            organization,
            id,
            document,
            expected_version,
            now,
        ).1 == Err::<DashboardView, Error>(Error::Conflict),
{
}

/// `delete` and then `get` under the same key answers `NotFound`, whether
/// or not there was anything to delete.
pub proof fn delete_then_get(before: RepositoryView, organization: Seq<char>, id: Seq<char>)
    requires
        well_formed(before.entries),
    ensures
        get_spec(delete_step(before, organization, id).0.entries, organization, id) == Err::<
            DashboardView,
            Error,
        >(Error::NotFound),
{
    delete_then_absent(before.entries, organization, id);
}

/// Organizations are isolated. Whatever is created, updated or deleted in
/// one organization, every other organization lists and gets exactly what it
/// did before, also under identifiers that the two share.
pub proof fn organizations_are_isolated(
    before: RepositoryView,
    acting: Seq<char>,
    id: Seq<char>,
    document: DocumentView,
    expected_version: u64,
    now: u64,
    other: Seq<char>,
    other_id: Seq<char>,
)
    requires
        well_formed(before.entries),
        acting != other,
    ensures
        ({
            let after = create_step(before, acting, document, now).0;
            &&& list_spec(after.entries, other) == list_spec(before.entries, other)
            &&& get_spec(after.entries, other, other_id) == get_spec(
                before.entries,
                other,
                other_id,
            )
        }),
        ({
            let after = update_step(before, acting, id, document, expected_version, now).0;
            &&& list_spec(after.entries, other) == list_spec(before.entries, other)
            &&& get_spec(after.entries, other, other_id) == get_spec(
                before.entries,
                other,
                other_id,
            )
        }),
        ({
            let after = delete_step(before, acting, id).0;
            &&& list_spec(after.entries, other) == list_spec(before.entries, other)
            &&& get_spec(after.entries, other, other_id) == get_spec(
                before.entries,
                other,
                other_id,
            )
        }),
{
    let made = create_step(before, acting, document, now);
    if made.1 is Ok {
        let record = made.1->Ok_0;
        put_keeps_other_listings(before.entries, record, other);
        put_keeps_others(before.entries, record, other, other_id);
    }
    let revised = update_step(before, acting, id, document, expected_version, now);
    if revised.1 is Ok {
        let i = index_of(before.entries, acting, id);
        assert(0 <= i < before.entries.len() && keyed(before.entries[i], acting, id));
        let record = revised.1->Ok_0;
        put_keeps_other_listings(before.entries, record, other);
        put_keeps_others(before.entries, record, other, other_id);
    }
    delete_keeps_other_listings(before.entries, acting, id, other);
    delete_keeps_others(before.entries, acting, id, other, other_id);
}

/// Two creations that ask for the same identifier in the same organization,
/// one after the other: if the first goes through, the second changes
/// nothing and is refused, as `AlreadyExists` where its document is valid,
/// and the dashboard that is stored is the first one's. Where the identifier
/// is free and both documents are valid, the first does go through: exactly
/// one of the two succeeds, whichever comes first.
pub proof fn create_race(
    before: RepositoryView,
    organization: Seq<char>,
    id: Seq<char>,
    first: DocumentView,
    first_now: u64,
    second: DocumentView,
    second_now: u64,
)
    requires
        well_formed(before.entries),
        first.id == Some(id),
        second.id == Some(id),
    ensures
        ({
            let (middle, won) = create_step(before, organization, first, first_now);
            let (after, lost) = create_step(middle, organization, second, second_now);
            &&& organization.len() > 0 && is_valid(first) && !holds(before.entries, organization, id)
                ==> won is Ok
            &&& won is Ok ==> {
                &&& lost is Err
                &&& is_valid(second) ==> lost == Err::<DashboardView, Error>(Error::AlreadyExists)
                &&& after == middle
                &&& get_spec(after.entries, organization, id) == won
            }
        }),
{
    let (middle, won) = create_step(before, organization, first, first_now);
    if won is Ok {
        create_then_get(before, organization, first, first_now);
        assert(get_spec(middle.entries, organization, id) == won);
        assert(holds(middle.entries, organization, id));
    }
}

} // verus!
