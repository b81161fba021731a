//! Storage interfaces and their in-memory variant.
//!
//! The service reads its configuration through a small storage interface
//! with pluggable backends; the in-memory backend lives here, a persistent
//! one can stand outside the verified core. Observability is a version
//! counter bumped on every write: a consumer that remembers the version it
//! last saw knows whether the value changed since.
use vstd::prelude::*;

use crate::sys::Device;

verus! {

/// A value store: read the current value, replace it. What comes out of
/// `get`, and what `set` leaves behind, is a clone of the value in question
/// (the same value, for one that copies).
pub trait SimpleStorage<T: Clone>: Sized {
    /// The stored value.
    spec fn stored(&self) -> T;

    /// The stored value.
    fn get(&self) -> (r: T)
        ensures
            vstd::pervasive::cloned::<T>(self.stored(), r),
    ;

    /// Replace the stored value.
    fn set(&mut self, value: &T)
        ensures
            vstd::pervasive::cloned::<T>(*value, final(self).stored()),
    ;
}

/// A value store whose writes can be observed: every `set` bumps the
/// version, so a reader that remembers a version knows whether the value
/// changed since.
pub trait ObservableStorage<T: Clone>: SimpleStorage<T> {
    /// The current change count.
    spec fn spec_version(&self) -> u64;

    /// The current change count.
    fn version(&self) -> (r: u64)
        ensures
            r == self.spec_version(),
    ;
}

/// The in-memory storage backend: the value, and a change counter bumped on
/// every write.
pub struct MemoryStorage<T> {
    value: T,
    version: u64,
}

impl<T: Clone> MemoryStorage<T> {
    /// A store holding the given value, with no writes seen yet.
    pub fn new(value: T) -> (r: MemoryStorage<T>)
        ensures
            r.stored() == value,
            r.spec_version() == 0,
    {
        MemoryStorage { value, version: 0 }
    }
}

impl<T: Clone> SimpleStorage<T> for MemoryStorage<T> {
    closed spec fn stored(&self) -> T {
        self.value
    }

    fn get(&self) -> (r: T)
        ensures
            vstd::pervasive::cloned::<T>(self.stored(), r),
    {
        self.value.clone()
    }

    fn set(&mut self, value: &T)
        ensures
            vstd::pervasive::cloned::<T>(*value, final(self).stored()),
    {
        self.value = value.clone();
        self.version = self.version.wrapping_add(1);
    }
}

impl<T: Clone> ObservableStorage<T> for MemoryStorage<T> {
    closed spec fn spec_version(&self) -> u64 {
        self.version
    }

    fn version(&self) -> (r: u64)
        ensures
            r == self.spec_version(),
    {
        self.version
    }
}

/// An enumeration snapshot held in memory: devices are enumerated once and
/// read-only thereafter.
pub struct MemoryDeviceStorage {
    devices: Vec<Device>,
}

impl MemoryDeviceStorage {
    /// The held snapshot.
    pub closed spec fn snapshot(self) -> Seq<Device> {
        self.devices@
    }

    /// A storage holding the given enumeration snapshot.
    pub fn new(devices: Vec<Device>) -> (r: MemoryDeviceStorage)
        ensures
            r.snapshot() == devices@,
    {
        MemoryDeviceStorage { devices }
    }

    /// The enumerated devices.
    pub fn devices(&self) -> (r: &Vec<Device>)
        ensures
            r@ == self.snapshot(),
    {
        &self.devices
    }
}

} // verus!
