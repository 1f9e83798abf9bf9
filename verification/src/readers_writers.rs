//! Readers and writers sharing a resource.
//!
//! Two solutions are modelled. [`ReadersPreference`] lets readers in while
//! others read, so a stream of readers can keep writers out.
//! [`WritersPreference`] adds a second semaphore that waiting writers hold,
//! so a stream of writers can keep readers out.
//!
//! Each method is one step taken under the lock that guards the model; a step
//! that returns `None` or `false` changed nothing, and the caller waits for a
//! release and tries again. The accounting of each lock is a type invariant:
//! every step keeps it, so callers need not carry it.
use vstd::prelude::*;
use crate::semaphore::Semaphore;

verus! {

/// The state of a readers-writers lock, as numbers.
pub struct RwState {
    /// The shared value.
    pub resource: int,
    /// How many readers are inside.
    pub readers: int,
    /// How many writers are registered (waiting or writing); always zero for
    /// the readers-preference lock.
    pub writers: int,
    /// Free permits of the semaphore that readers as a group and writers take
    /// to use the resource.
    pub free: nat,
    /// Free permits of the semaphore that registered writers hold to keep new
    /// readers out; always one for the readers-preference lock.
    pub try_free: nat,
    /// Whether a writer is using the resource.
    pub writing: bool,
}

/// Readers and a writer never use the resource at the same time.
pub open spec fn exclusive(s: RwState) -> bool {
    !(s.readers > 0 && s.writing)
}

/// The counting invariant of both locks: the resource semaphore's single
/// permit is free, held by the readers as a group, or held by a writer.
pub open spec fn rw_accounted(s: RwState) -> bool {
    &&& s.readers >= 0
    &&& s.free + (if s.readers > 0 { 1nat } else { 0nat }) + (if s.writing { 1nat } else { 0nat }) == 1
}

/// The invariant of the writers-preference lock: besides the counting of the
/// resource semaphore, the reader gate's single permit is free exactly when no
/// writer is registered, and a writer that writes is registered.
pub open spec fn wp_accounted(s: RwState) -> bool {
    &&& rw_accounted(s)
    &&& s.writers >= 0
    &&& s.try_free + (if s.writers > 0 { 1nat } else { 0nat }) == 1
    &&& s.writing ==> s.writers > 0
}

/// The accounting makes readers and writers exclusive.
pub proof fn lemma_accounted_exclusive(s: RwState)
    requires
        rw_accounted(s),
    ensures
        exclusive(s),
{
}

/// Under the writers-preference accounting, a registered writer keeps the
/// reader gate closed, and a writer that writes has the resource to itself:
/// no reader is inside and the resource permit is taken, so no second writer
/// can enter.
pub proof fn lemma_writers_preference(s: RwState)
    requires
        wp_accounted(s),
    ensures
        exclusive(s),
        s.writers > 0 ==> s.try_free == 0,
        s.writing ==> s.readers == 0 && s.free == 0,
{
}

/// The fields of a readers-preference lock.
struct RpFields {
    resource: i32,
    reader_count: i32,
    readers_writer_mtx: Semaphore,
    writing: bool,
}

impl RpFields {
    spec fn state(&self) -> RwState {
        RwState {
            resource: self.resource as int,
            readers: self.reader_count as int,
            writers: 0,
            free: self.readers_writer_mtx@,
            try_free: 1,
            writing: self.writing,
        }
    }

    /// Fields of a lock around `resource` with nobody inside.
    fn idle(resource: i32) -> (f: RpFields)
        ensures
            f.state() == (RwState {
                resource: resource as int,
                readers: 0,
                writers: 0,
                free: 1,
                try_free: 1,
                writing: false,
            }),
    {
        RpFields {
            resource,
            reader_count: 0,
            readers_writer_mtx: Semaphore::new(1),
            writing: false,
        }
    }
}

/// A readers-writers lock where readers have preference.
pub struct ReadersPreference {
    fields: RpFields,
}

impl View for ReadersPreference {
    type V = RwState;

    closed spec fn view(&self) -> RwState {
        self.fields.state()
    }
}

impl ReadersPreference {
    #[verifier::type_invariant]
    spec fn accounted(self) -> bool {
        rw_accounted(self@)
    }

    /// A lock around `resource`, with nobody inside.
    pub fn new(resource: i32) -> (lock: ReadersPreference)
        ensures
            lock@ == (RwState {
                resource: resource as int,
                readers: 0,
                writers: 0,
                free: 1,
                try_free: 1,
                writing: false,
            }),
            rw_accounted(lock@),
    {
        ReadersPreference { fields: RpFields::idle(resource) }
    }

    /// A reader tries to enter. The first reader takes the resource permit
    /// for all readers; while readers are inside, more readers enter at once.
    /// Returns the number of readers inside after entering, or `None` when a
    /// writer holds the resource.
    pub fn reader_enter(&mut self) -> (count: Option<i32>)
        requires
            !old(self)@.writing ==> old(self)@.readers < i32::MAX,
        ensures
            rw_accounted(final(self)@),
            count is Some <==> !old(self)@.writing,
            count is Some ==> final(self)@ == (RwState {
                readers: old(self)@.readers + 1,
                free: if old(self)@.readers == 0 { 0 } else { old(self)@.free },
                ..old(self)@
            }) && count->0 == final(self)@.readers,
            count is None ==> final(self)@ == old(self)@,
    {
        proof {
            use_type_invariant(&*self);
        }
        let mut f = RpFields::idle(0);
        std::mem::swap(&mut f, &mut self.fields);
        let mut entered = true;
        if f.reader_count == 0 {
            entered = f.readers_writer_mtx.acquire();
        }
        let count = if entered {
            f.reader_count = f.reader_count + 1;
            Some(f.reader_count)
        } else {
            None
        };
        self.fields = f;
        count
    }

    /// A reader that is inside reads the resource.
    pub fn read(&self) -> (value: i32)
        ensures
            value == self@.resource,
            rw_accounted(self@),
    {
        proof {
            use_type_invariant(self);
        }
        self.fields.resource
    }

    /// The number of readers inside.
    pub fn reader_count(&self) -> (count: i32)
        ensures
            count == self@.readers,
    {
        self.fields.reader_count
    }

    /// A reader leaves. The last reader gives the resource permit back.
    pub fn reader_exit(&mut self)
        requires
            old(self)@.readers > 0,
        ensures
            rw_accounted(final(self)@),
            final(self)@ == (RwState {
                readers: old(self)@.readers - 1,
                free: if old(self)@.readers == 1 { 1 } else { old(self)@.free },
                ..old(self)@
            }),
    {
        proof {
            use_type_invariant(&*self);
        }
        let mut f = RpFields::idle(0);
        std::mem::swap(&mut f, &mut self.fields);
        f.reader_count = f.reader_count - 1;
        if f.reader_count == 0 {
            f.readers_writer_mtx.release();
        }
        self.fields = f;
    }

    /// A writer tries to take the resource. Returns `false` when readers or
    /// another writer hold it.
    pub fn writer_enter(&mut self) -> (entered: bool)
        ensures
            rw_accounted(final(self)@),
            entered <==> (old(self)@.readers == 0 && !old(self)@.writing),
            entered ==> final(self)@ == (RwState { free: 0, writing: true, ..old(self)@ }),
            !entered ==> final(self)@ == old(self)@,
    {
        proof {
            use_type_invariant(&*self);
        }
        let mut f = RpFields::idle(0);
        std::mem::swap(&mut f, &mut self.fields);
        let entered = f.readers_writer_mtx.acquire();
        if entered {
            f.writing = true;
        }
        self.fields = f;
        entered
    }

    /// The writer that holds the resource adds one to it; returns the new
    /// value.
    pub fn write(&mut self) -> (value: i32)
        requires
            old(self)@.writing,
            old(self)@.resource < i32::MAX,
        ensures
            rw_accounted(final(self)@),
            value == old(self)@.resource + 1,
            final(self)@ == (RwState { resource: old(self)@.resource + 1, ..old(self)@ }),
    {
        proof {
            use_type_invariant(&*self);
        }
        let mut f = RpFields::idle(0);
        std::mem::swap(&mut f, &mut self.fields);
        f.resource = f.resource + 1;
        let value = f.resource;
        self.fields = f;
        value
    }

    /// The writer gives the resource back.
    pub fn writer_exit(&mut self)
        requires
            old(self)@.writing,
        ensures
            rw_accounted(final(self)@),
            final(self)@ == (RwState { free: 1, writing: false, ..old(self)@ }),
    {
        proof {
            use_type_invariant(&*self);
        }
        let mut f = RpFields::idle(0);
        std::mem::swap(&mut f, &mut self.fields);
        f.writing = false;
        f.readers_writer_mtx.release();
        self.fields = f;
    }
}

/// The fields of a writers-preference lock.
struct WpFields {
    resource: i32,
    reader_count: i32,
    writer_count: i32,
    readers_writer_mtx: Semaphore,
    try_read_mtx: Semaphore,
    writing: bool,
}

impl WpFields {
    spec fn state(&self) -> RwState {
        RwState {
            resource: self.resource as int,
            readers: self.reader_count as int,
            writers: self.writer_count as int,
            free: self.readers_writer_mtx@,
            try_free: self.try_read_mtx@,
            writing: self.writing,
        }
    }

    /// Fields of a lock around `resource` with nobody inside or waiting.
    fn idle(resource: i32) -> (f: WpFields)
        ensures
            f.state() == (RwState {
                resource: resource as int,
                readers: 0,
                writers: 0,
                free: 1,
                try_free: 1,
                writing: false,
            }),
    {
        WpFields {
            resource,
            reader_count: 0,
            writer_count: 0,
            readers_writer_mtx: Semaphore::new(1),
            try_read_mtx: Semaphore::new(1),
            writing: false,
        }
    }
}

/// A readers-writers lock where writers have preference.
pub struct WritersPreference {
    fields: WpFields,
}

impl View for WritersPreference {
    type V = RwState;

    closed spec fn view(&self) -> RwState {
        self.fields.state()
    }
}

impl WritersPreference {
    #[verifier::type_invariant]
    spec fn accounted(self) -> bool {
        wp_accounted(self@)
    }

    /// A lock around `resource`, with nobody inside or waiting.
    pub fn new(resource: i32) -> (lock: WritersPreference)
        ensures
            lock@ == (RwState {
                resource: resource as int,
                readers: 0,
                writers: 0,
                free: 1,
                try_free: 1,
                writing: false,
            }),
            wp_accounted(lock@),
    {
        WritersPreference { fields: WpFields::idle(resource) }
    }

    /// A reader tries to enter: it passes the reader gate, which registered
    /// writers hold closed, and the first reader takes the resource permit for
    /// all readers. Returns the number of readers inside after entering, or
    /// `None` when a writer is registered.
    pub fn reader_enter(&mut self) -> (count: Option<i32>)
        requires
            old(self)@.writers == 0 ==> old(self)@.readers < i32::MAX,
        ensures
            wp_accounted(final(self)@),
            count is Some <==> old(self)@.writers == 0,
            count is Some ==> final(self)@ == (RwState {
                readers: old(self)@.readers + 1,
                free: if old(self)@.readers == 0 { 0 } else { old(self)@.free },
                ..old(self)@
            }) && count->0 == final(self)@.readers,
            count is None ==> final(self)@ == old(self)@,
    {
        proof {
            use_type_invariant(&*self);
        }
        let mut f = WpFields::idle(0);
        std::mem::swap(&mut f, &mut self.fields);
        let count = if f.try_read_mtx.acquire() {
            if f.reader_count == 0 {
                f.readers_writer_mtx.acquire();
            }
            f.reader_count = f.reader_count + 1;
            f.try_read_mtx.release();
            Some(f.reader_count)
        } else {
            None
        };
        self.fields = f;
        count
    }

    /// A reader that is inside reads the resource.
    pub fn read(&self) -> (value: i32)
        ensures
            value == self@.resource,
            wp_accounted(self@),
    {
        proof {
            use_type_invariant(self);
        }
        self.fields.resource
    }

    /// The number of readers inside.
    pub fn reader_count(&self) -> (count: i32)
        ensures
            count == self@.readers,
    {
        self.fields.reader_count
    }

    /// The number of registered writers.
    pub fn writer_count(&self) -> (count: i32)
        ensures
            count == self@.writers,
    {
        self.fields.writer_count
    }

    /// A reader leaves. The last reader gives the resource permit back.
    pub fn reader_exit(&mut self)
        requires
            old(self)@.readers > 0,
        ensures
            wp_accounted(final(self)@),
            final(self)@ == (RwState {
                readers: old(self)@.readers - 1,
                free: if old(self)@.readers == 1 { 1 } else { old(self)@.free },
                ..old(self)@
            }),
    {
        proof {
            use_type_invariant(&*self);
        }
        let mut f = WpFields::idle(0);
        std::mem::swap(&mut f, &mut self.fields);
        f.reader_count = f.reader_count - 1;
        if f.reader_count == 0 {
            f.readers_writer_mtx.release();
        }
        self.fields = f;
    }

    /// A writer registers: the first registered writer closes the reader gate.
    /// Returns the number of registered writers, the caller included.
    pub fn writer_register(&mut self) -> (count: i32)
        requires
            old(self)@.writers < i32::MAX,
        ensures
            wp_accounted(final(self)@),
            count == final(self)@.writers,
            final(self)@ == (RwState {
                writers: old(self)@.writers + 1,
                try_free: 0,
                ..old(self)@
            }),
    {
        proof {
            use_type_invariant(&*self);
        }
        let mut f = WpFields::idle(0);
        std::mem::swap(&mut f, &mut self.fields);
        if f.writer_count == 0 {
            f.try_read_mtx.acquire();
        }
        f.writer_count = f.writer_count + 1;
        let count = f.writer_count;
        self.fields = f;
        count
    }

    /// A registered writer tries to take the resource. Returns `false` when
    /// readers or another writer hold it.
    pub fn writer_enter(&mut self) -> (entered: bool)
        requires
            old(self)@.writers > 0,
        ensures
            wp_accounted(final(self)@),
            entered <==> (old(self)@.readers == 0 && !old(self)@.writing),
            entered ==> final(self)@ == (RwState { free: 0, writing: true, ..old(self)@ }),
            !entered ==> final(self)@ == old(self)@,
    {
        proof {
            use_type_invariant(&*self);
        }
        let mut f = WpFields::idle(0);
        std::mem::swap(&mut f, &mut self.fields);
        let entered = f.readers_writer_mtx.acquire();
        if entered {
            f.writing = true;
        }
        self.fields = f;
        entered
    }

    /// The writer that holds the resource adds one to it; returns the new
    /// value.
    pub fn write(&mut self) -> (value: i32)
        requires
            old(self)@.writing,
            old(self)@.resource < i32::MAX,
        ensures
            wp_accounted(final(self)@),
            value == old(self)@.resource + 1,
            final(self)@ == (RwState { resource: old(self)@.resource + 1, ..old(self)@ }),
    {
        proof {
            use_type_invariant(&*self);
        }
        let mut f = WpFields::idle(0);
        std::mem::swap(&mut f, &mut self.fields);
        f.resource = f.resource + 1;
        let value = f.resource;
        self.fields = f;
        value
    }

    /// The writer gives the resource back; it stays registered.
    pub fn writer_exit(&mut self)
        requires
            old(self)@.writing,
        ensures
            wp_accounted(final(self)@),
            final(self)@ == (RwState { free: 1, writing: false, ..old(self)@ }),
    {
        proof {
            use_type_invariant(&*self);
        }
        let mut f = WpFields::idle(0);
        std::mem::swap(&mut f, &mut self.fields);
        f.writing = false;
        f.readers_writer_mtx.release();
        self.fields = f;
    }

    /// A writer that does not hold the resource unregisters; the last one
    /// opens the reader gate.
    pub fn writer_unregister(&mut self)
        requires
            old(self)@.writers > 0,
            old(self)@.writing ==> old(self)@.writers > 1,
        ensures
            wp_accounted(final(self)@),
            final(self)@ == (RwState {
                writers: old(self)@.writers - 1,
                try_free: if old(self)@.writers == 1 { 1 } else { 0 },
                ..old(self)@
            }),
    {
        proof {
            use_type_invariant(&*self);
        }
        let mut f = WpFields::idle(0);
        std::mem::swap(&mut f, &mut self.fields);
        f.writer_count = f.writer_count - 1;
        if f.writer_count == 0 {
            f.try_read_mtx.release();
        }
        self.fields = f;
    }
}

} // verus!
