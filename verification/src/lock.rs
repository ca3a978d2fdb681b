//! Locks, and stand-ins for locks.

use vstd::prelude::*;

use std::marker::PhantomData;
use std::ops::Deref;

pub use crate::observer::OwnedData;

verus! {

/// The read guards of a lock, for borrows of the lock that last for `'read`.
pub trait ReadGuardSpecifier<'read> {
    /// The underlying type that the guard is protecting.
    type Target;

    /// A read guard with shared, immutable access to the target.
    type ReadGuard: Deref<Target = Self::Target>;
}

/// A lock that can be read.
pub trait DataReadLock<'read>: ReadGuardSpecifier<'read> {
    /// Provides at least immutable access to the current value inside the lock.
    fn read(&'read self) -> Self::ReadGuard;

    /// Provides at least immutable access to the current value inside the lock, if that can be
    /// done at once.
    fn try_read(&'read self) -> Option<Self::ReadGuard>;
}

/// A lock that can be written.
pub trait DataWriteLock<'write>: DataReadLock<'write> {
    /// A write guard with exclusive, mutable access to the target.
    type WriteGuard: Deref<Target = Self::Target>;

    /// A "downgraded" write guard: a guard that is mutually exclusive with other guards of this
    /// type and with write guards, but not with read guards. For any locking mechanism this is
    /// either a write guard (if the mechanism does not support atomic downgrades or shared
    /// access) or a read guard that was atomically downgraded from a write guard.
    type DowngradedGuard: Deref<Target = Self::Target>;

    /// Provides mutable access to the current value inside the lock.
    fn write(&'write self) -> Self::WriteGuard;

    /// Provides mutable access to the current value inside the lock, if that can be done at once.
    fn try_write(&'write self) -> Option<Self::WriteGuard>;

    /// Turns a write guard into a downgraded one. By default this should just return the write
    /// guard; if the lock allows for it, it should return a read guard that was atomically
    /// downgraded from the write guard.
    fn atomic_downgrade(write_guard: Self::WriteGuard) -> Self::DowngradedGuard;
}

/// A value that needs no lock to be read.
pub struct FalseReadLock<T>(pub T);

impl<T: Clone> Clone for FalseReadLock<T> {
    fn clone(&self) -> (lock: Self)
        ensures
            cloned(self.0, lock.0),
    {
        FalseReadLock(self.0.clone())
    }
}

impl<T> FalseReadLock<T> {
    /// The value.
    pub fn deref_mut(&mut self) -> (value: &mut T)
        ensures
            *value == old(self).0,
            final(self).0 == *final(value),
    {
        &mut self.0
    }
}

impl<T> Deref for FalseReadLock<T> {
    type Target = T;

    fn deref(&self) -> (value: &T)
        ensures
            *value == self.0,
    {
        &self.0
    }
}

impl<'read, T: 'read> ReadGuardSpecifier<'read> for FalseReadLock<T> {
    type Target = T;

    type ReadGuard = &'read T;
}

impl<'read, T: 'read> DataReadLock<'read> for FalseReadLock<T> {
    fn read(&'read self) -> (guard: &'read T)
        ensures
            *guard == self.0,
    {
        &self.0
    }

    fn try_read(&'read self) -> (guard: Option<&'read T>)
        ensures
            guard == Some(&self.0),
    {
        Some(&self.0)
    }
}

/// A lock whose guards own their data.
pub struct OwnedFalseLock<T>(PhantomData<T>);

impl<T> Clone for OwnedFalseLock<T> {
    fn clone(&self) -> Self {
        OwnedFalseLock(PhantomData)
    }
}

impl<T> Copy for OwnedFalseLock<T> {

}

impl<T> Default for OwnedFalseLock<T> {
    fn default() -> Self {
        Self::new()
    }
}

impl<T> OwnedFalseLock<T> {
    /// The lock.
    pub fn new() -> Self {
        OwnedFalseLock(PhantomData)
    }
}

impl<'read, T: 'read> ReadGuardSpecifier<'read> for OwnedFalseLock<T> {
    type Target = T;

    type ReadGuard = OwnedData<T>;
}

} // verus!
