//! Versioned data for fast change detection.
//!
//! The combination of [`Version`] and [`Versioned<T>`] allows fast and
//! lightweight change detection against a single source of truth: the owner
//! holds the [`Versioned<T>`] data, and readers hold an `Option<Version>`,
//! pulling new data only when the source version is different.

use vstd::prelude::*;

verus! {

/// Identifies the "version" of some data.
///
/// Used in combination with [`Versioned<T>`] to track changes to data. The
/// number held is never zero: a counter starts at one and skips zero when
/// it wraps.
#[derive(Clone, Copy, Debug, Hash)]
pub struct Version(u64);

/// The version a counter at `v` bumps to: the next number, going back to
/// the initial version instead of hitting zero when the counter wraps.
pub open spec fn bumped(v: u64) -> u64 {
    if v == u64::MAX {
        1
    } else {
        (v + 1) as u64
    }
}

impl Version {
    /// The held number is never zero.
    #[verifier::type_invariant]
    spec fn wf(self) -> bool {
        self.0 != 0
    }

    /// The number this version holds.
    pub closed spec fn val(self) -> u64 {
        self.0
    }

    /// Creates an initial version.
    ///
    /// This is the starting version of a [`Versioned<T>`]. Created manually
    /// and used with a fresh [`Versioned<T>`], [`Pull::pull`] returns
    /// `None`, since the versions match.
    pub fn new() -> (r: Self)
        ensures
            r.val() == 1,
    {
        Version(1)
    }

    /// A version holding the given non-zero number.
    pub fn from_value(v: u64) -> (r: Self)
        requires
            v != 0,
        ensures
            r.val() == v,
    {
        Version(v)
    }

    /// The number this version holds. Never zero.
    pub fn value(&self) -> (r: u64)
        ensures
            r == self.val(),
            r != 0,
    {
        proof {
            use_type_invariant(self);
        }
        self.0
    }

    /// Increments the version.
    ///
    /// Called automatically by [`Versioned<T>`] when its data changes.
    /// Although it is very unlikely to reach the maximum, this considers
    /// going back to the initial version after the maximum is reached.
    pub fn bump(&mut self)
        ensures
            final(self).val() == bumped(old(self).val()),
    {
        let mut next = self.0.wrapping_add(1);
        if next == 0 {
            next = 1;
        }
        self.0 = next;
    }
}

impl PartialEq for Version {
    /// Two versions are equal when they hold the same number.
    fn eq(&self, other: &Self) -> (r: bool) {
        self.0 == other.0
    }
}

impl vstd::std_specs::cmp::PartialEqSpecImpl for Version {
    open spec fn obeys_eq_spec() -> bool {
        true
    }

    open spec fn eq_spec(&self, other: &Self) -> bool {
        self.val() == other.val()
    }
}

impl Eq for Version {}

impl Default for Version {
    /// The initial version.
    fn default() -> (r: Self)
        ensures
            r.val() == 1,
    {
        Version::new()
    }
}

/// A wrapper around some data paired with a [`Version`] to track changes to
/// it, without needing to duplicate, hash or compare the data itself.
///
/// The version is bumped automatically when the data is changed through
/// [`Versioned::set`] or [`Versioned::update`]. A clone carries both the
/// data and the version, but should be treated as a different entity.
#[derive(Debug)]
pub struct Versioned<T> {
    data: T,
    version: Version,
}

impl<T> Versioned<T> {
    /// The held data.
    pub closed spec fn spec_data(self) -> T {
        self.data
    }

    /// The number the held version holds.
    pub closed spec fn version_val(self) -> u64 {
        self.version.val()
    }

    /// Creates a new `Versioned<T>` wrapping the provided data with the
    /// initial version.
    pub fn new(data: T) -> (r: Self)
        ensures
            r.spec_data() == data,
            r.version_val() == 1,
    {
        Versioned { data, version: Version::new() }
    }

    /// Sets the data to the provided value, bumping the version.
    pub fn set(&mut self, data: T)
        ensures
            final(self).spec_data() == data,
            final(self).version_val() == bumped(old(self).version_val()),
    {
        self.data = data;
        self.version.bump();
    }

    /// Replaces the data with what the provided function makes of it,
    /// bumping the version at the end.
    pub fn update<F: FnOnce(&T) -> T>(&mut self, update_fn: F)
        requires
            forall|d: &T| *d == old(self).spec_data() ==> update_fn.requires((d,)),
        ensures
            update_fn.ensures((&old(self).spec_data(),), final(self).spec_data()),
            final(self).version_val() == bumped(old(self).version_val()),
    {
        let new_data = update_fn(&self.data);
        self.data = new_data;
        self.version.bump();
    }

    /// Get the current version.
    pub fn version(&self) -> (r: Version)
        ensures
            r.val() == self.version_val(),
    {
        self.version
    }

    /// Get an immutable reference to the current data.
    pub fn data(&self) -> (r: &T)
        ensures
            *r == self.spec_data(),
    {
        &self.data
    }
}

impl<T: Clone> Clone for Versioned<T> {
    /// The clone carries a clone of the data and the same version.
    fn clone(&self) -> (r: Self)
        ensures
            cloned::<T>(self.spec_data(), r.spec_data()),
            r.version_val() == self.version_val(),
    {
        Versioned { data: self.data.clone(), version: self.version }
    }
}

impl<T: Default> Default for Versioned<T> {
    /// Wraps the default data with the initial version.
    fn default() -> (r: Self)
        ensures
            T::default.ensures((), r.spec_data()),
            r.version_val() == 1,
    {
        Versioned::new(T::default())
    }
}

/// A "workflow" for reacting to version changes: a reader holds the version
/// it last saw and pulls the data only when the source moved past it.
pub trait Pull {
    /// The version this tracker last saw, if any.
    spec fn tracked_version(&self) -> Option<u64>;

    /// When the version held by `self` differs from the one in `versioned`,
    /// updates `self` to match and returns the data; otherwise returns
    /// `None`.
    fn pull<'b, T>(&mut self, versioned: &'b Versioned<T>) -> (r: Option<&'b T>)
        ensures
            final(self).tracked_version() == Some(versioned.version_val()),
            match r {
                Some(d) => old(self).tracked_version() != Some(versioned.version_val()) && *d
                    == versioned.spec_data(),
                None => old(self).tracked_version() == Some(versioned.version_val()),
            },
    ;
}

impl Pull for Version {
    open spec fn tracked_version(&self) -> Option<u64> {
        Some(self.val())
    }

    fn pull<'b, T>(&mut self, versioned: &'b Versioned<T>) -> (r: Option<&'b T>) {
        let current = versioned.version();
        if self.value() != current.value() {
            *self = current;
            Some(versioned.data())
        } else {
            None
        }
    }
}

impl Pull for Option<Version> {
    open spec fn tracked_version(&self) -> Option<u64> {
        match *self {
            Some(v) => Some(v.val()),
            None => None,
        }
    }

    fn pull<'b, T>(&mut self, versioned: &'b Versioned<T>) -> (r: Option<&'b T>) {
        match self {
            Some(v) => v.pull(versioned),
            None => {
                *self = Some(versioned.version());
                Some(versioned.data())
            }
        }
    }
}

} // verus!
