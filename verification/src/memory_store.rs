//! A store that keeps everything in memory.

use vstd::prelude::*;
use crate::store::{Calendar, CalendarModel, CalendarObject, CalendarStore, ObjectModel, StoreError};
use crate::text::str_eq;

verus! {

/// An object and the calendar it lies in.
#[derive(Debug)]
pub struct StoredObject {
    pub principal: String,
    pub cal_id: String,
    pub object: CalendarObject,
}

pub struct StoredObjectModel {
    pub principal: Seq<char>,
    pub cal_id: Seq<char>,
    pub object: ObjectModel,
}

impl View for StoredObject {
    type V = StoredObjectModel;

    open spec fn view(&self) -> StoredObjectModel {
        StoredObjectModel { principal: self.principal@, cal_id: self.cal_id@, object: self.object@ }
    }
}

/// Calendars and objects, each list in the order of arrival.
#[derive(Debug)]
pub struct MemoryStore {
    pub calendars: Vec<Calendar>,
    pub objects: Vec<StoredObject>,
}

pub struct MemoryStoreModel {
    pub calendars: Seq<CalendarModel>,
    pub objects: Seq<StoredObjectModel>,
}

impl View for MemoryStore {
    type V = MemoryStoreModel;

    open spec fn view(&self) -> MemoryStoreModel {
        MemoryStoreModel {
            calendars: self.calendars@.map_values(|c: Calendar| c@),
            objects: self.objects@.map_values(|o: StoredObject| o@),
        }
    }
}

/// The place of the first calendar of `principal` named `id` among the
/// first `n`.
pub open spec fn calendar_index(
    calendars: Seq<CalendarModel>,
    principal: Seq<char>,
    id: Seq<char>,
    n: nat,
) -> Option<int>
    decreases n,
{
    if n == 0 {
        None
    } else {
        match calendar_index(calendars, principal, id, (n - 1) as nat) {
            Some(i) => Some(i),
            None => if calendars[n - 1].principal == principal && calendars[n - 1].id == id {
                Some(n - 1)
            } else {
                None
            },
        }
    }
}

/// Whether an entry is the object `object_id` of the calendar `cal_id` of
/// `principal`.
pub open spec fn is_object(
    entry: StoredObjectModel,
    principal: Seq<char>,
    cal_id: Seq<char>,
    object_id: Seq<char>,
) -> bool {
    entry.principal == principal && entry.cal_id == cal_id && entry.object.id == object_id
}

/// The place of the first such object among the first `n`.
pub open spec fn object_index(
    objects: Seq<StoredObjectModel>,
    principal: Seq<char>,
    cal_id: Seq<char>,
    object_id: Seq<char>,
    n: nat,
) -> Option<int>
    decreases n,
{
    if n == 0 {
        None
    } else {
        match object_index(objects, principal, cal_id, object_id, (n - 1) as nat) {
            Some(i) => Some(i),
            None => if is_object(objects[n - 1], principal, cal_id, object_id) {
                Some(n - 1)
            } else {
                None
            },
        }
    }
}

/// The objects of the calendar `cal_id` among the first `n`, in order.
pub open spec fn objects_in(objects: Seq<StoredObjectModel>, cal_id: Seq<char>, n: nat) -> Seq<
    ObjectModel,
>
    decreases n,
{
    if n == 0 {
        seq![]
    } else {
        let before = objects_in(objects, cal_id, (n - 1) as nat);
        if objects[n - 1].cal_id == cal_id {
            before.push(objects[n - 1].object)
        } else {
            before
        }
    }
}

/// A place once found stays the first.
pub proof fn lemma_calendar_index_stays(
    calendars: Seq<CalendarModel>,
    principal: Seq<char>,
    id: Seq<char>,
    n: nat,
    m: nat,
)
    requires
        n <= m,
        calendar_index(calendars, principal, id, n) is Some,
    ensures
        calendar_index(calendars, principal, id, m) == calendar_index(calendars, principal, id, n),
    decreases m,
{
    if n < m {
        lemma_calendar_index_stays(calendars, principal, id, n, (m - 1) as nat);
    }
}

/// A place once found stays the first.
pub proof fn lemma_object_index_stays(
    objects: Seq<StoredObjectModel>,
    principal: Seq<char>,
    cal_id: Seq<char>,
    object_id: Seq<char>,
    n: nat,
    m: nat,
)
    requires
        n <= m,
        object_index(objects, principal, cal_id, object_id, n) is Some,
    ensures
        object_index(objects, principal, cal_id, object_id, m) == object_index(
            objects,
            principal,
            cal_id,
            object_id,
            n,
        ),
    decreases m,
{
    if n < m {
        lemma_object_index_stays(objects, principal, cal_id, object_id, n, (m - 1) as nat);
    }
}

/// The place found is in range, holds such an object, and nothing before it
/// does; where none is found, no entry is such an object.
pub proof fn lemma_object_index_is_first(
    objects: Seq<StoredObjectModel>,
    principal: Seq<char>,
    cal_id: Seq<char>,
    object_id: Seq<char>,
    n: nat,
)
    requires
        n <= objects.len(),
    ensures
        match object_index(objects, principal, cal_id, object_id, n) {
            Some(i) => 0 <= i < n && is_object(objects[i], principal, cal_id, object_id)
                && forall|j: int|
                0 <= j < i ==> !is_object(#[trigger] objects[j], principal, cal_id, object_id),
            None => forall|j: int|
                0 <= j < n ==> !is_object(#[trigger] objects[j], principal, cal_id, object_id),
        },
    decreases n,
{
    if n > 0 {
        lemma_object_index_is_first(objects, principal, cal_id, object_id, (n - 1) as nat);
    }
}

/// The first entry that is such an object is the place found.
pub proof fn lemma_first_is_object_index(
    objects: Seq<StoredObjectModel>,
    principal: Seq<char>,
    cal_id: Seq<char>,
    object_id: Seq<char>,
    i: int,
    n: nat,
)
    requires
        0 <= i < n <= objects.len(),
        is_object(objects[i], principal, cal_id, object_id),
        forall|j: int| 0 <= j < i ==> !is_object(#[trigger] objects[j], principal, cal_id, object_id),
    ensures
        object_index(objects, principal, cal_id, object_id, n) == Some(i),
    decreases n,
{
    lemma_object_index_is_first(objects, principal, cal_id, object_id, i as nat);
    assert(object_index(objects, principal, cal_id, object_id, (i + 1) as nat) == Some(i));
    lemma_object_index_stays(objects, principal, cal_id, object_id, (i + 1) as nat, n);
}

/// The same for calendars.
pub proof fn lemma_calendar_index_is_first(
    calendars: Seq<CalendarModel>,
    principal: Seq<char>,
    id: Seq<char>,
    n: nat,
)
    requires
        n <= calendars.len(),
    ensures
        match calendar_index(calendars, principal, id, n) {
            Some(i) => 0 <= i < n && calendars[i].principal == principal && calendars[i].id == id
                && forall|j: int|
                0 <= j < i ==> !((#[trigger] calendars[j]).principal == principal
                    && calendars[j].id == id),
            None => forall|j: int|
                0 <= j < n ==> !((#[trigger] calendars[j]).principal == principal
                    && calendars[j].id == id),
        },
    decreases n,
{
    if n > 0 {
        lemma_calendar_index_is_first(calendars, principal, id, (n - 1) as nat);
    }
}

pub proof fn lemma_first_is_calendar_index(
    calendars: Seq<CalendarModel>,
    principal: Seq<char>,
    id: Seq<char>,
    i: int,
    n: nat,
)
    requires
        0 <= i < n <= calendars.len(),
        calendars[i].principal == principal && calendars[i].id == id,
        forall|j: int|
            0 <= j < i ==> !((#[trigger] calendars[j]).principal == principal && calendars[j].id
                == id),
    ensures
        calendar_index(calendars, principal, id, n) == Some(i),
{
    lemma_calendar_index_is_first(calendars, principal, id, i as nat);
    assert(calendar_index(calendars, principal, id, (i + 1) as nat) == Some(i));
    lemma_calendar_index_stays(calendars, principal, id, (i + 1) as nat, n);
}

impl Default for MemoryStore {
    fn default() -> (store: MemoryStore)
        ensures
            store@.calendars.len() == 0,
            store@.objects.len() == 0,
    {
        MemoryStore::new()
    }
}

impl MemoryStore {
    /// A store that holds nothing.
    pub fn new() -> (store: MemoryStore)
        ensures
            store@.calendars.len() == 0,
            store@.objects.len() == 0,
    {
        MemoryStore { calendars: Vec::new(), objects: Vec::new() }
    }

    /// Adds a calendar after those that are there.
    pub fn insert_calendar(&mut self, calendar: Calendar)
        ensures
            final(self)@.calendars == old(self)@.calendars.push(calendar@),
            final(self)@.objects == old(self)@.objects,
    {
        self.calendars.push(calendar);
        assert(self@.calendars =~= old(self)@.calendars.push(calendar@));
    }

    fn find_calendar(&self, principal: &str, id: &str) -> (place: Option<usize>)
        ensures
            match place {
                Some(i) => i < self.calendars.len() && calendar_index(
                    self@.calendars,
                    principal@,
                    id@,
                    self@.calendars.len(),
                ) == Some(i as int),
                None => calendar_index(self@.calendars, principal@, id@, self@.calendars.len())
                    is None,
            },
    {
        let mut i: usize = 0;
        while i < self.calendars.len()
            invariant
                i <= self.calendars.len(),
                calendar_index(self@.calendars, principal@, id@, i as nat) is None,
            decreases self.calendars.len() - i,
        {
            assert(self@.calendars[i as int] == self.calendars[i as int]@);
            if str_eq(self.calendars[i].principal.as_str(), principal) && str_eq(
                self.calendars[i].id.as_str(),
                id,
            ) {
                proof {
                    lemma_calendar_index_stays(
                        self@.calendars,
                        principal@,
                        id@,
                        (i + 1) as nat,
                        self@.calendars.len(),
                    );
                }
                return Some(i);
            }
            i = i + 1;
        }
        None
    }

    fn find_object(&self, principal: &str, cal_id: &str, object_id: &str) -> (place: Option<usize>)
        ensures
            match place {
                Some(i) => i < self.objects.len() && object_index(
                    self@.objects,
                    principal@,
                    cal_id@,
                    object_id@,
                    self@.objects.len(),
                ) == Some(i as int),
                None => object_index(
                    self@.objects,
                    principal@,
                    cal_id@,
                    object_id@,
                    self@.objects.len(),
                ) is None,
            },
    {
        let mut i: usize = 0;
        while i < self.objects.len()
            invariant
                i <= self.objects.len(),
                object_index(self@.objects, principal@, cal_id@, object_id@, i as nat) is None,
            decreases self.objects.len() - i,
        {
            assert(self@.objects[i as int] == self.objects[i as int]@);
            if str_eq(self.objects[i].principal.as_str(), principal) && str_eq(
                self.objects[i].cal_id.as_str(),
                cal_id,
            ) && str_eq(self.objects[i].object.id.as_str(), object_id) {
                proof {
                    lemma_object_index_stays(
                        self@.objects,
                        principal@,
                        cal_id@,
                        object_id@,
                        (i + 1) as nat,
                        self@.objects.len(),
                    );
                }
                return Some(i);
            }
            i = i + 1;
        }
        None
    }
}

impl CalendarStore for MemoryStore {
    open spec fn spec_get_calendar(store: MemoryStoreModel, principal: Seq<char>, id: Seq<char>) -> Result<
        CalendarModel,
        StoreError,
    > {
        match calendar_index(store.calendars, principal, id, store.calendars.len()) {
            Some(i) => Ok(store.calendars[i]),
            None => Err(StoreError::NotFound),
        }
    }

    open spec fn spec_get_events(store: MemoryStoreModel, cal_id: Seq<char>) -> Result<
        Seq<ObjectModel>,
        StoreError,
    > {
        Ok(objects_in(store.objects, cal_id, store.objects.len()))
    }

    open spec fn spec_get_object(
        store: MemoryStoreModel,
        principal: Seq<char>,
        cal_id: Seq<char>,
        object_id: Seq<char>,
    ) -> Result<ObjectModel, StoreError> {
        match object_index(store.objects, principal, cal_id, object_id, store.objects.len()) {
            Some(i) => Ok(store.objects[i].object),
            None => Err(StoreError::NotFound),
        }
    }

    open spec fn spec_update_calendar(
        store: MemoryStoreModel,
        principal: Seq<char>,
        id: Seq<char>,
        calendar: CalendarModel,
    ) -> (MemoryStoreModel, Result<(), StoreError>) {
        match calendar_index(store.calendars, principal, id, store.calendars.len()) {
            Some(i) => (
                MemoryStoreModel { calendars: store.calendars.update(i, calendar), ..store },
                Ok(()),
            ),
            None => (store, Err(StoreError::NotFound)),
        }
    }

    open spec fn spec_put_object(
        store: MemoryStoreModel,
        principal: Seq<char>,
        cal_id: Seq<char>,
        object: ObjectModel,
    ) -> (MemoryStoreModel, Result<(), StoreError>) {
        let entry = StoredObjectModel { principal, cal_id, object };
        match object_index(store.objects, principal, cal_id, object.id, store.objects.len()) {
            Some(i) => (MemoryStoreModel { objects: store.objects.update(i, entry), ..store }, Ok(())),
            None => (MemoryStoreModel { objects: store.objects.push(entry), ..store }, Ok(())),
        }
    }

    open spec fn spec_delete_object(
        store: MemoryStoreModel,
        principal: Seq<char>,
        cal_id: Seq<char>,
        object_id: Seq<char>,
        use_trashbin: bool,
    ) -> (MemoryStoreModel, Result<(), StoreError>) {
        match object_index(store.objects, principal, cal_id, object_id, store.objects.len()) {
            Some(i) => (MemoryStoreModel { objects: store.objects.remove(i), ..store }, Ok(())),
            None => (store, Err(StoreError::NotFound)),
        }
    }

    proof fn put_is_found(
        store: MemoryStoreModel,
        principal: Seq<char>,
        cal_id: Seq<char>,
        object: ObjectModel,
    ) {
        let entry = StoredObjectModel { principal, cal_id, object };
        let after = Self::spec_put_object(store, principal, cal_id, object).0;
        lemma_object_index_is_first(
            store.objects,
            principal,
            cal_id,
            object.id,
            store.objects.len(),
        );
        match object_index(store.objects, principal, cal_id, object.id, store.objects.len()) {
            Some(i) => {
                lemma_first_is_object_index(
                    after.objects,
                    principal,
                    cal_id,
                    object.id,
                    i,
                    after.objects.len(),
                );
            },
            None => {
                lemma_first_is_object_index(
                    after.objects,
                    principal,
                    cal_id,
                    object.id,
                    store.objects.len() as int,
                    after.objects.len(),
                );
            },
        }
    }

    proof fn put_keeps_calendars(
        store: MemoryStoreModel,
        principal: Seq<char>,
        cal_id: Seq<char>,
        object: ObjectModel,
        owner: Seq<char>,
        id: Seq<char>,
    ) {
    }

    proof fn updated_is_found(store: MemoryStoreModel, calendar: CalendarModel) {
        let after = Self::spec_update_calendar(store, calendar.principal, calendar.id, calendar).0;
        lemma_calendar_index_is_first(
            store.calendars,
            calendar.principal,
            calendar.id,
            store.calendars.len(),
        );
        match calendar_index(
            store.calendars,
            calendar.principal,
            calendar.id,
            store.calendars.len(),
        ) {
            Some(i) => {
                lemma_first_is_calendar_index(
                    after.calendars,
                    calendar.principal,
                    calendar.id,
                    i,
                    after.calendars.len(),
                );
            },
            None => {},
        }
    }

    fn get_calendar(&self, principal: &str, id: &str) -> (calendar: Result<Calendar, StoreError>) {
        match self.find_calendar(principal, id) {
            Some(i) => {
                assert(self@.calendars[i as int] == self.calendars[i as int]@);
                Ok(self.calendars[i].duplicate())
            },
            None => Err(StoreError::NotFound),
        }
    }

    fn get_events(&self, cal_id: &str) -> (events: Result<Vec<CalendarObject>, StoreError>) {
        let mut events: Vec<CalendarObject> = Vec::new();
        let mut i: usize = 0;
        assert(events@.map_values(|o: CalendarObject| o@) =~= seq![]);
        while i < self.objects.len()
            invariant
                i <= self.objects.len(),
                events@.map_values(|o: CalendarObject| o@) == objects_in(
                    self@.objects,
                    cal_id@,
                    i as nat,
                ),
            decreases self.objects.len() - i,
        {
            let ghost before = events@.map_values(|o: CalendarObject| o@);
            assert(self@.objects[i as int] == self.objects[i as int]@);
            if str_eq(self.objects[i].cal_id.as_str(), cal_id) {
                let copy = self.objects[i].object.duplicate();
                events.push(copy);
                assert(events@.map_values(|o: CalendarObject| o@) =~= before.push(copy@));
            }
            i = i + 1;
        }
        Ok(events)
    }

    fn get_object(&self, principal: &str, cal_id: &str, object_id: &str) -> (object: Result<
        CalendarObject,
        StoreError,
    >) {
        match self.find_object(principal, cal_id, object_id) {
            Some(i) => {
                assert(self@.objects[i as int] == self.objects[i as int]@);
                Ok(self.objects[i].object.duplicate())
            },
            None => Err(StoreError::NotFound),
        }
    }

    fn update_calendar(&mut self, principal: String, id: String, calendar: Calendar) -> (done:
        Result<(), StoreError>) {
        match self.find_calendar(principal.as_str(), id.as_str()) {
            Some(i) => {
                self.calendars.set(i, calendar);
                assert(self@.calendars =~= old(self)@.calendars.update(i as int, calendar@));
                assert(self@.objects =~= old(self)@.objects);
                Ok(())
            },
            None => Err(StoreError::NotFound),
        }
    }

    fn put_object(&mut self, principal: String, cal_id: String, object: CalendarObject) -> (done:
        Result<(), StoreError>) {
        let place = self.find_object(principal.as_str(), cal_id.as_str(), object.id.as_str());
        let entry = StoredObject { principal, cal_id, object };
        match place {
            Some(i) => {
                self.objects.set(i, entry);
                assert(self@.objects =~= old(self)@.objects.update(i as int, entry@));
            },
            None => {
                self.objects.push(entry);
                assert(self@.objects =~= old(self)@.objects.push(entry@));
            },
        }
        assert(self@.calendars =~= old(self)@.calendars);
        Ok(())
    }

    fn delete_object(
        &mut self,
        principal: &str,
        cal_id: &str,
        object_id: &str,
        use_trashbin: bool,
    ) -> (done: Result<(), StoreError>) {
        match self.find_object(principal, cal_id, object_id) {
            Some(i) => {
                self.objects.remove(i);
                assert(self@.objects =~= old(self)@.objects.remove(i as int));
                assert(self@.calendars =~= old(self)@.calendars);
                Ok(())
            },
            None => Err(StoreError::NotFound),
        }
    }
}

} // verus!
