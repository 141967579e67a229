//! Cancellation registry: at most one active schedule per device, each
//! represented by an opaque handle number. Installing a schedule for a device
//! that already has one hands the old handle back so its signal can be sent;
//! the caller performs register's signal-then-replace inside one critical
//! section, so no other operation on the same device interleaves.
use vstd::prelude::*;
use vstd::hash_map::StringHashMap;

verus! {

/// Maps each device identifier with an in-flight schedule to that schedule's
/// cancellation handle. Abstractly a map from character sequences to handle
/// numbers; its size is bounded by the number of in-flight schedules because
/// every path that ends a schedule removes its entry.
pub struct CancellationRegistry {
    pub handles: StringHashMap<u64>,
}

impl View for CancellationRegistry {
    type V = Map<Seq<char>, u64>;

    open spec fn view(&self) -> Map<Seq<char>, u64> {
        self.handles@
    }
}

impl CancellationRegistry {
    /// An empty registry.
    pub fn new() -> (r: CancellationRegistry)
        ensures
            r@ == Map::<Seq<char>, u64>::empty(),
    {
        CancellationRegistry { handles: StringHashMap::new() }
    }

    /// Installs `handle` for the device, superseding any prior schedule: the
    /// prior handle, if any, is returned so the caller can signal it before
    /// the new schedule starts waiting.
    pub fn register(&mut self, device_id: String, handle: u64) -> (prior: Option<u64>)
        ensures
            final(self)@ == old(self)@.insert(device_id@, handle),
            match prior {
                Some(h) => old(self)@.contains_key(device_id@) && h == old(self)@[device_id@],
                None => !old(self)@.contains_key(device_id@),
            },
    {
        let prior = match self.handles.get(device_id.as_str()) {
            Some(h) => Some(*h),
            None => None,
        };
        self.handles.insert(device_id, handle);
        prior
    }

    /// Explicit cancellation: removes the device's entry and returns its
    /// handle so the caller can signal it. Cancelling a device with no active
    /// schedule does nothing and is not an error.
    pub fn cancel(&mut self, device_id: &str) -> (prior: Option<u64>)
        ensures
            final(self)@ == old(self)@.remove(device_id@),
            match prior {
                Some(h) => old(self)@.contains_key(device_id@) && h == old(self)@[device_id@],
                None => !old(self)@.contains_key(device_id@),
            },
    {
        let prior = match self.handles.get(device_id) {
            Some(h) => Some(*h),
            None => None,
        };
        self.handles.remove(device_id);
        prior
    }

    /// Removal at natural completion: drops the device's entry only while it
    /// still refers to this schedule's own handle, so a schedule that was
    /// already superseded cannot clobber its successor's entry.
    pub fn remove_if_current(&mut self, device_id: &str, handle: u64) -> (removed: bool)
        ensures
            removed == (old(self)@.contains_key(device_id@) && old(self)@[device_id@] == handle),
            removed ==> final(self)@ == old(self)@.remove(device_id@),
            !removed ==> final(self)@ == old(self)@,
    {
        let current = match self.handles.get(device_id) {
            Some(h) => *h == handle,
            None => false,
        };
        if current {
            self.handles.remove(device_id);
        }
        current
    }

    /// Number of devices with an in-flight schedule.
    pub fn len(&self) -> (r: usize)
        ensures
            r == self@.dom().len(),
    {
        self.handles.len()
    }
}

} // verus!
