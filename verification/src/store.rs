//! The resource store: dashboards keyed by organization and identifier.
//!
//! The store keeps its entries in the order in which `list` hands them out:
//! by creation time, and among equal creation times by arrival. No two
//! entries share a key. Every operation names the organization it works in
//! and neither sees nor touches an entry of another one.

use vstd::prelude::*;
use crate::dashboard::{Dashboard, DashboardView, dashboard_views, outcome_view};
use crate::error::Error;

verus! {

/// The entry is the one that `organization` holds under `id`.
pub open spec fn keyed(entry: DashboardView, organization: Seq<char>, id: Seq<char>) -> bool {
    entry.organization_id == organization && entry.id == id
}

/// Some entry is held by `organization` under `id`.
pub open spec fn holds(entries: Seq<DashboardView>, organization: Seq<char>, id: Seq<char>) -> bool {
    exists|i: int| 0 <= i < entries.len() && keyed(#[trigger] entries[i], organization, id)
}

/// The position of the entry that `organization` holds under `id`.
pub open spec fn index_of(
    entries: Seq<DashboardView>,
    organization: Seq<char>,
    id: Seq<char>,
) -> int {
    choose|i: int| 0 <= i < entries.len() && keyed(#[trigger] entries[i], organization, id)
}

/// No two entries share organization and identifier.
pub open spec fn distinct_keys(entries: Seq<DashboardView>) -> bool {
    forall|i: int, j: int|
        0 <= i < j < entries.len() ==> !keyed(
            #[trigger] entries[i],
            (#[trigger] entries[j]).organization_id,
            entries[j].id,
        )
}

/// Creation times never fall along the sequence.
pub open spec fn ordered(entries: Seq<DashboardView>) -> bool {
    forall|i: int, j: int|
        0 <= i < j < entries.len() ==> (#[trigger] entries[i]).created_at <= (
        #[trigger] entries[j]).created_at
}

/// What every store holds: distinct keys, in order of creation.
pub open spec fn well_formed(entries: Seq<DashboardView>) -> bool {
    distinct_keys(entries) && ordered(entries)
}

/// `k` is where an entry created at `time` goes: behind every entry created
/// no later, before every entry created later.
pub open spec fn slot_at(entries: Seq<DashboardView>, time: u64, k: int) -> bool {
    &&& 0 <= k <= entries.len()
    &&& forall|j: int| 0 <= j < k ==> (#[trigger] entries[j]).created_at <= time
    &&& forall|j: int| k <= j < entries.len() ==> (#[trigger] entries[j]).created_at > time
}

/// The position at which an entry created at `time` is inserted.
pub open spec fn slot(entries: Seq<DashboardView>, time: u64) -> int {
    choose|k: int| slot_at(entries, time, k)
}

/// What `get` answers.
pub open spec fn get_spec(
    entries: Seq<DashboardView>,
    organization: Seq<char>,
    id: Seq<char>,
) -> Result<DashboardView, Error> {
    if holds(entries, organization, id) {
        Ok(entries[index_of(entries, organization, id)])
    } else {
        Err(Error::NotFound)
    }
}

/// The test that picks the entries of `organization`.
pub open spec fn owned_by(organization: Seq<char>) -> spec_fn(DashboardView) -> bool {
    |entry: DashboardView| entry.organization_id == organization
}

/// What `list` answers: the entries of `organization`, in the store's order.
pub open spec fn list_spec(entries: Seq<DashboardView>, organization: Seq<char>) -> Seq<
    DashboardView,
> {
    entries.filter(owned_by(organization))
}

/// The entries after `put`. A record under a key that is held replaces the
/// entry where it stands and keeps that entry's creation time; a record under
/// a new key is inserted at its slot.
pub open spec fn put_spec(entries: Seq<DashboardView>, record: DashboardView) -> Seq<
    DashboardView,
> {
    if holds(entries, record.organization_id, record.id) {
        let i = index_of(entries, record.organization_id, record.id);
        entries.update(i, DashboardView { created_at: entries[i].created_at, ..record })
    } else {
        entries.insert(slot(entries, record.created_at), record)
    }
}

/// The entries after `delete`: without the entry under that key, the others
/// as they stood.
pub open spec fn delete_spec(
    entries: Seq<DashboardView>,
    organization: Seq<char>,
    id: Seq<char>,
) -> Seq<DashboardView> {
    if holds(entries, organization, id) {
        entries.remove(index_of(entries, organization, id))
    } else {
        entries
    }
}

/// With distinct keys, the entry under a key stands at one position only.
pub proof fn index_of_unique(
    entries: Seq<DashboardView>,
    organization: Seq<char>,
    id: Seq<char>,
    i: int,
)
    requires
        distinct_keys(entries),
        0 <= i < entries.len(),
        keyed(entries[i], organization, id),
    ensures
        holds(entries, organization, id),
        index_of(entries, organization, id) == i,
{
    let k = index_of(entries, organization, id);
    assert(0 <= k < entries.len() && keyed(entries[k], organization, id));
    if k < i {
        assert(!keyed(entries[k], entries[i].organization_id, entries[i].id));
    } else if i < k {
        assert(!keyed(entries[i], entries[k].organization_id, entries[k].id));
    }
}

/// An ordered sequence has exactly one slot for each time.
pub proof fn slot_exists(entries: Seq<DashboardView>, time: u64)
    requires
        ordered(entries),
    ensures
        slot_at(entries, time, slot(entries, time)),
    decreases entries.len(),
{
    if entries.len() == 0 {
        assert(slot_at(entries, time, 0));
    } else if entries.last().created_at <= time {
        assert forall|j: int| 0 <= j < entries.len() implies (#[trigger] entries[j]).created_at
            <= time by {
            if j < entries.len() - 1 {
                assert(entries[j].created_at <= entries[entries.len() - 1].created_at);
            }
        }
        assert(slot_at(entries, time, entries.len() as int));
    } else {
        let front = entries.drop_last();
        assert forall|i: int, j: int| 0 <= i < j < front.len() implies (#[trigger] front[i]).created_at
            <= (#[trigger] front[j]).created_at by {
            assert(entries[i].created_at <= entries[j].created_at);
        }
        slot_exists(front, time);
        let k = slot(front, time);
        assert forall|j: int| 0 <= j < k implies (#[trigger] entries[j]).created_at <= time by {
            assert(front[j].created_at <= time);
        }
        assert forall|j: int| k <= j < entries.len() implies (#[trigger] entries[j]).created_at
            > time by {
            if j < front.len() {
                assert(front[j].created_at > time);
            }
        }
        assert(slot_at(entries, time, k));
    }
}

/// The slot is determined by the two conditions that define it.
pub proof fn slot_unique(entries: Seq<DashboardView>, time: u64, k: int)
    requires
        slot_at(entries, time, k),
    ensures
        slot(entries, time) == k,
{
    let c = slot(entries, time);
    assert(slot_at(entries, time, c));
    if c < k {
        assert(entries[c].created_at <= time);
        assert(entries[c].created_at > time);
    } else if k < c {
        assert(entries[k].created_at <= time);
        assert(entries[k].created_at > time);
    }
}

/// `put` keeps the keys distinct and the order by creation time.
pub proof fn put_keeps_well_formed(entries: Seq<DashboardView>, record: DashboardView)
    requires
        well_formed(entries),
    ensures
        well_formed(put_spec(entries, record)),
{
    let after = put_spec(entries, record);
    if holds(entries, record.organization_id, record.id) {
        let i = index_of(entries, record.organization_id, record.id);
        assert(0 <= i < entries.len() && keyed(entries[i], record.organization_id, record.id));
        assert forall|a: int| 0 <= a < after.len() implies (#[trigger] after[a]).created_at
            == entries[a].created_at && after[a].id == entries[a].id && after[a].organization_id
            == entries[a].organization_id by {}
        assert forall|a: int, b: int| 0 <= a < b < after.len() implies !keyed(
            #[trigger] after[a],
            (#[trigger] after[b]).organization_id,
            after[b].id,
        ) by {
            assert(!keyed(entries[a], entries[b].organization_id, entries[b].id));
        }
        assert forall|a: int, b: int| 0 <= a < b < after.len() implies (#[trigger] after[a]).created_at
            <= (#[trigger] after[b]).created_at by {
            assert(entries[a].created_at <= entries[b].created_at);
        }
    } else {
        slot_exists(entries, record.created_at);
        let k = slot(entries, record.created_at);
        assert forall|a: int, b: int| 0 <= a < b < after.len() implies !keyed(
            #[trigger] after[a],
            (#[trigger] after[b]).organization_id,
            after[b].id,
        ) by {
            let oa = if a < k { a } else { a - 1 };
            let ob = if b < k { b } else { b - 1 };
            if a == k {
                assert(after[b] == entries[ob]);
                assert(!keyed(entries[ob], record.organization_id, record.id));
            } else if b == k {
                assert(after[a] == entries[oa]);
                assert(!keyed(entries[oa], record.organization_id, record.id));
            } else {
                assert(after[a] == entries[oa]);
                assert(after[b] == entries[ob]);
                assert(!keyed(entries[oa], entries[ob].organization_id, entries[ob].id));
            }
        }
        assert forall|a: int, b: int| 0 <= a < b < after.len() implies (#[trigger] after[a]).created_at
            <= (#[trigger] after[b]).created_at by {
            let oa = if a < k { a } else { a - 1 };
            let ob = if b < k { b } else { b - 1 };
            if a == k {
                assert(after[b] == entries[ob]);
                assert(entries[ob].created_at > record.created_at);
            } else if b == k {
                assert(after[a] == entries[oa]);
                assert(entries[oa].created_at <= record.created_at);
            } else {
                assert(after[a] == entries[oa]);
                assert(after[b] == entries[ob]);
                assert(entries[oa].created_at <= entries[ob].created_at);
            }
        }
    }
}

/// `delete` keeps the keys distinct and the order by creation time.
pub proof fn delete_keeps_well_formed(
    entries: Seq<DashboardView>,
    organization: Seq<char>,
    id: Seq<char>,
)
    requires
        well_formed(entries),
    ensures
        well_formed(delete_spec(entries, organization, id)),
{
    let after = delete_spec(entries, organization, id);
    if holds(entries, organization, id) {
        let i = index_of(entries, organization, id);
        assert(0 <= i < entries.len() && keyed(entries[i], organization, id));
        assert forall|a: int, b: int| 0 <= a < b < after.len() implies !keyed(
            #[trigger] after[a],
            (#[trigger] after[b]).organization_id,
            after[b].id,
        ) by {
            let oa = if a < i { a } else { a + 1 };
            let ob = if b < i { b } else { b + 1 };
            assert(after[a] == entries[oa]);
            assert(after[b] == entries[ob]);
            assert(!keyed(entries[oa], entries[ob].organization_id, entries[ob].id));
        }
        assert forall|a: int, b: int| 0 <= a < b < after.len() implies (#[trigger] after[a]).created_at
            <= (#[trigger] after[b]).created_at by {
            let oa = if a < i { a } else { a + 1 };
            let ob = if b < i { b } else { b + 1 };
            assert(after[a] == entries[oa]);
            assert(after[b] == entries[ob]);
            assert(entries[oa].created_at <= entries[ob].created_at);
        }
    }
}

/// A bound on the creation times of the entries bounds those of a listing.
proof fn list_is_bounded(entries: Seq<DashboardView>, organization: Seq<char>, time: u64)
    requires
        forall|j: int| 0 <= j < entries.len() ==> (#[trigger] entries[j]).created_at <= time,
    ensures
        forall|j: int|
            0 <= j < list_spec(entries, organization).len() ==> (#[trigger] list_spec(
                entries,
                organization,
            )[j]).created_at <= time,
    decreases entries.len(),
{
    reveal(Seq::filter);
    if entries.len() > 0 {
        let front = entries.drop_last();
        assert forall|j: int| 0 <= j < front.len() implies (#[trigger] front[j]).created_at
            <= time by {
            assert(entries[j].created_at <= time);
        }
        list_is_bounded(front, organization, time);
        let listed = list_spec(entries, organization);
        let listed_front = list_spec(front, organization);
        assert(entries.last() == entries[entries.len() - 1]);
        assert forall|j: int| 0 <= j < listed.len() implies (#[trigger] listed[j]).created_at
            <= time by {
            if j < listed_front.len() {
                assert(listed[j] == listed_front[j]);
            } else {
                assert(listed[j] == entries.last());
            }
        }
    }
}

/// A listing is ordered by creation time.
pub proof fn list_is_ordered(entries: Seq<DashboardView>, organization: Seq<char>)
    requires
        ordered(entries),
    ensures
        ordered(list_spec(entries, organization)),
    decreases entries.len(),
{
    reveal(Seq::filter);
    if entries.len() > 0 {
        let front = entries.drop_last();
        let last = entries.last();
        assert forall|i: int, j: int| 0 <= i < j < front.len() implies (#[trigger] front[i]).created_at
            <= (#[trigger] front[j]).created_at by {
            assert(entries[i].created_at <= entries[j].created_at);
        }
        list_is_ordered(front, organization);
        assert forall|j: int| 0 <= j < front.len() implies (#[trigger] front[j]).created_at
            <= last.created_at by {
            assert(entries[j].created_at <= entries[entries.len() - 1].created_at);
        }
        list_is_bounded(front, organization, last.created_at);
    }
}

/// Dashboards of all organizations, each reachable only through its own
/// organization.
pub struct ResourceStore {
    entries: Vec<Dashboard>,
}

impl View for ResourceStore {
    type V = Seq<DashboardView>;

    closed spec fn view(&self) -> Seq<DashboardView> {
        dashboard_views(self.entries@)
    }
}

impl ResourceStore {
    /// Holds of every store at all times.
    #[verifier::type_invariant]
    pub open spec fn sound(self) -> bool {
        well_formed(self@)
    }

    /// A store that holds nothing.
    pub fn new() -> (store: Self)
        ensures
            store@ == Seq::<DashboardView>::empty(),
    {
        let store = ResourceStore { entries: Vec::new() };
        assert(store@ =~= Seq::<DashboardView>::empty());
        store
    }

    /// How many dashboards the store holds, over all organizations.
    pub fn len(&self) -> (n: usize)
        ensures
            n == self@.len(),
    {
        self.entries.len()
    }

    /// Where the entry under a key stands, if the key is held.
    fn position(&self, organization: &String, id: &String) -> (found: Option<usize>)
        ensures
            match found {
                Some(i) => i < self@.len() && keyed(self@[i as int], organization@, id@)
                    && holds(self@, organization@, id@)
                    && index_of(self@, organization@, id@) == i,
                None => !holds(self@, organization@, id@),
            },
    {
        proof {
            use_type_invariant(self);
        }
        let mut i: usize = 0;
        while i < self.entries.len()
            invariant
                i <= self.entries.len(),
                self@.len() == self.entries.len(),
                well_formed(self@),
                forall|j: int| 0 <= j < i ==> !keyed(#[trigger] self@[j], organization@, id@),
            decreases self.entries.len() - i,
        {
            if self.entries[i].organization_id == *organization && self.entries[i].id == *id {
                proof {
                    index_of_unique(self@, organization@, id@, i as int);
                }
                return Some(i);
            }
            i += 1;
        }
        None
    }

    /// Whether `organization` holds a dashboard under `id`.
    pub fn contains(&self, organization: &str, id: &str) -> (yes: bool)
        ensures
            yes == holds(self@, organization@, id@),
    {
        let organization = organization.to_owned();
        let id = id.to_owned();
        self.position(&organization, &id).is_some()
    }

    /// The dashboard that `organization` holds under `id`, or `NotFound`.
    pub fn get(&self, organization: &str, id: &str) -> (outcome: Result<Dashboard, Error>)
        ensures
            outcome_view(outcome) == get_spec(self@, organization@, id@),
    {
        let organization = organization.to_owned();
        let id = id.to_owned();
        match self.position(&organization, &id) {
            Some(i) => Ok(self.entries[i].clone()),
            None => Err(Error::NotFound),
        }
    }

    /// The dashboards of `organization`, ordered by creation time; those
    /// created at the same time stand in the order in which they arrived.
    pub fn list(&self, organization: &str) -> (found: Vec<Dashboard>)
        ensures
            dashboard_views(found@) == list_spec(self@, organization@),
            ordered(dashboard_views(found@)),
    {
        proof {
            use_type_invariant(self);
            list_is_ordered(self@, organization@);
        }
        let organization = organization.to_owned();
        let mut found: Vec<Dashboard> = Vec::new();
        let mut i: usize = 0;
        assert(self@.take(0) =~= Seq::<DashboardView>::empty());
        assert(dashboard_views(found@) =~= list_spec(self@.take(0), organization@)) by {
            reveal_with_fuel(Seq::filter, 1);
        }
        while i < self.entries.len()
            invariant
                i <= self.entries.len(),
                self@.len() == self.entries.len(),
                self@ == dashboard_views(self.entries@),
                dashboard_views(found@) == list_spec(self@.take(i as int), organization@),
            decreases self.entries.len() - i,
        {
            let ghost before = dashboard_views(found@);
            let ghost entry = self@[i as int];
            proof {
                let head = self@.take(i as int);
                let one = seq![entry];
                assert(self@.take(i + 1) =~= head + one);
                Seq::filter_distributes_over_add(head, one, owned_by(organization@));
                reveal_with_fuel(Seq::filter, 2);
                assert(one.drop_last() =~= Seq::<DashboardView>::empty());
                assert(one.last() == entry);
                assert(list_spec(one, organization@) =~= if entry.organization_id
                    == organization@ {
                    one
                } else {
                    Seq::<DashboardView>::empty()
                });
            }
            if self.entries[i].organization_id == organization {
                found.push(self.entries[i].clone());
                assert(dashboard_views(found@) =~= before + seq![entry]);
            } else {
                assert(before + Seq::<DashboardView>::empty() =~= before);
            }
            i += 1;
        }
        assert(self@.take(i as int) =~= self@);
        found
    }

    /// Moves the entries out to be changed and leaves the store empty; the
    /// caller puts them back.
    fn take_entries(&mut self) -> (entries: Vec<Dashboard>)
        ensures
            entries == old(self).entries,
            final(self).entries@.len() == 0,
    {
        let mut entries: Vec<Dashboard> = Vec::new();
        assert(dashboard_views(entries@) =~= Seq::<DashboardView>::empty());
        std::mem::swap(&mut self.entries, &mut entries);
        entries
    }

    /// Where a record created at `time` is inserted.
    fn slot_for(&self, time: u64) -> (k: usize)
        ensures
            slot_at(self@, time, k as int),
            slot(self@, time) == k,
    {
        proof {
            use_type_invariant(self);
        }
        let mut k: usize = 0;
        while k < self.entries.len() && self.entries[k].created_at <= time
            invariant
                k <= self.entries.len(),
                self@.len() == self.entries.len(),
                self@ == dashboard_views(self.entries@),
                forall|j: int| 0 <= j < k ==> (#[trigger] self@[j]).created_at <= time,
            decreases self.entries.len() - k,
        {
            k += 1;
        }
        proof {
            assert forall|j: int| k <= j < self@.len() implies (#[trigger] self@[j]).created_at
                > time by {
                if k < j {
                    assert(self@[k as int].created_at <= self@[j].created_at);
                }
            }
            slot_unique(self@, time, k as int);
        }
        k
    }

    /// Inserts or overwrites. A record under a key that is held replaces the
    /// entry where it stands; the entry keeps the creation time it had. A
    /// record under a new key is inserted behind the entries that were
    /// created no later than it.
    pub fn put(&mut self, record: Dashboard)
        ensures
            final(self)@ == put_spec(old(self)@, record@),
    {
        proof {
            use_type_invariant(&*self);
            put_keeps_well_formed(self@, record@);
        }
        match self.position(&record.organization_id, &record.id) {
            Some(i) => {
                let kept = Dashboard { created_at: self.entries[i].created_at, ..record };
                let mut entries = self.take_entries();
                entries.set(i, kept);
                assert(dashboard_views(entries@) =~= put_spec(old(self)@, record@));
                self.entries = entries;
            },
            None => {
                let k = self.slot_for(record.created_at);
                let mut entries = self.take_entries();
                entries.insert(k, record);
                assert(dashboard_views(entries@) =~= put_spec(old(self)@, record@));
                self.entries = entries;
            },
        }
    }

    /// Removes the dashboard that `organization` holds under `id`; `NotFound`
    /// where it holds none. The other entries stay as they stood.
    pub fn delete(&mut self, organization: &str, id: &str) -> (outcome: Result<(), Error>)
        ensures
            final(self)@ == delete_spec(old(self)@, organization@, id@),
            outcome == if holds(old(self)@, organization@, id@) {
                Ok::<(), Error>(())
            } else {
                Err::<(), Error>(Error::NotFound)
            },
    {
        proof {
            use_type_invariant(&*self);
            delete_keeps_well_formed(self@, organization@, id@);
        }
        let organization = organization.to_owned();
        let id = id.to_owned();
        match self.position(&organization, &id) {
            Some(i) => {
                let mut entries = self.take_entries();
                entries.remove(i);
                assert(dashboard_views(entries@) =~= delete_spec(old(self)@, organization@, id@));
                self.entries = entries;
                Ok(())
            },
            None => Err(Error::NotFound),
        }
    }
}

} // verus!
