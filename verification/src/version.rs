//! Sensor versions.
//!
//! A version is a counter whose lowest bit tells whether the sensor is closed. Updates add
//! [`VERSION_BUMP`], so they never touch that bit; the counter wraps at the width of `usize`.

use vstd::prelude::*;

verus! {

/// The bit of a version that is set once the last writer of the sensor is gone.
pub const CLOSED_BIT: usize = 1;

/// What one update adds to a version.
pub const VERSION_BUMP: usize = 2;

/// The bits of a version that count updates.
pub const VERSION_MASK: usize = !CLOSED_BIT;

/// The version that lies one update before the first one.
pub const VERSION_INIT: usize = usize::MAX - 1;

/// A result whose success and failure carry the same type.
pub type SymResult<T> = Result<T, T>;

/// The number of distinct values of a raw version.
pub open spec fn version_modulus() -> int {
    usize::MAX + 1
}

/// Whether a raw version has its closed bit set.
pub open spec fn raw_closed(raw: usize) -> bool {
    raw % 2 == 1
}

/// The raw version after one update.
pub open spec fn raw_next(raw: usize) -> usize {
    if raw + VERSION_BUMP > usize::MAX {
        (raw + VERSION_BUMP - version_modulus()) as usize
    } else {
        (raw + VERSION_BUMP) as usize
    }
}

/// The raw version one update ago.
pub open spec fn raw_previous(raw: usize) -> usize {
    if raw < VERSION_BUMP {
        (raw - VERSION_BUMP + version_modulus()) as usize
    } else {
        (raw - VERSION_BUMP) as usize
    }
}

/// The raw version with its closed bit set and its update count kept.
pub open spec fn raw_close(raw: usize) -> usize {
    if raw_closed(raw) {
        raw
    } else {
        (raw + CLOSED_BIT) as usize
    }
}

/// The update count of a raw version, which is what [`VERSION_MASK`] keeps of it.
pub open spec fn raw_count(raw: usize) -> int {
    raw as int / 2
}

proof fn lemma_closed_bit(raw: usize)
    ensures
        (raw & CLOSED_BIT != 0) == raw_closed(raw),
        raw & CLOSED_BIT == raw % 2,
        raw | CLOSED_BIT == raw_close(raw),
{
    assert(raw & 1 == raw % 2) by (bit_vector);
    assert((raw | 1) == raw + (1 - raw % 2)) by (bit_vector);
}

proof fn lemma_mask(raw: usize)
    ensures
        raw & VERSION_MASK == raw - raw % 2,
{
    assert(raw & !1usize == raw - raw % 2) by (bit_vector);
}

/// Whether `version` has its closed bit set.
pub fn closed_bit_set(version: usize) -> (closed: bool)
    ensures
        closed == raw_closed(version),
{
    proof {
        lemma_closed_bit(version);
    }
    version & CLOSED_BIT != 0
}

/// Whether two raw versions count the same number of updates, closed or not.
pub fn same_update(left: usize, right: usize) -> (same: bool)
    ensures
        same == (raw_count(left) == raw_count(right)),
{
    proof {
        lemma_mask(left);
        lemma_mask(right);
    }
    left & VERSION_MASK == right & VERSION_MASK
}

/// Whether the writer that was one of `previous` writers was the last one.
pub open spec fn is_last_writer(previous: usize) -> bool {
    previous == 1
}

/// Whether a sensor with `previous` writers can have no more.
pub open spec fn has_too_many_writers(previous: usize) -> bool {
    previous > usize::MAX / 2
}

/// Whether the writer that was one of `previous` writers was the last one.
pub fn last_writer(previous: usize) -> (last: bool)
    ensures
        last == is_last_writer(previous),
{
    previous == 1
}

/// Whether a sensor with `previous` writers can have no more.
pub fn too_many_writers(previous: usize) -> (too_many: bool)
    ensures
        too_many == has_too_many_writers(previous),
{
    previous > usize::MAX / 2
}

/// The version of a sensor.
#[derive(Clone, Copy, PartialEq, Eq, Structural, Debug)]
pub struct Version(pub usize);

impl Version {
    /// Whether the closed bit is set.
    pub open spec fn is_closed(self) -> bool {
        raw_closed(self.0)
    }

    /// The version after one update.
    pub open spec fn next(self) -> Version {
        Version(raw_next(self.0))
    }

    /// The version one update ago.
    pub open spec fn previous(self) -> Version {
        Version(raw_previous(self.0))
    }

    /// The version after `count` updates.
    pub open spec fn after_updates(self, count: nat) -> Version
        decreases count,
    {
        if count == 0 {
            self
        } else {
            self.after_updates((count - 1) as nat).next()
        }
    }

    /// The version with its closed bit set.
    pub open spec fn closing(self) -> Version {
        Version(raw_close(self.0))
    }

    /// Whether the sensor is closed at this version.
    pub fn closed_bit_set(self) -> (closed: bool)
        ensures
            closed == self.is_closed(),
    {
        closed_bit_set(self.0)
    }

    /// Marks the sensor closed and keeps the update count.
    pub fn set_closed_bit(&mut self)
        ensures
            *final(self) == old(self).closing(),
    {
        proof {
            lemma_closed_bit(self.0);
        }
        self.0 = self.0 | CLOSED_BIT;
    }

    /// Counts one update.
    pub fn increment(&mut self)
        ensures
            *final(self) == old(self).next(),
    {
        self.0 = self.0.wrapping_add(VERSION_BUMP);
    }

    /// Takes one update back.
    pub fn decrement(&mut self)
        ensures
            *final(self) == old(self).previous(),
    {
        self.0 = self.0.wrapping_sub(VERSION_BUMP);
    }
}

/// What every kind of version can tell.
pub trait VersionFunctionality {
    /// Whether no further update can occur.
    spec fn ended(&self) -> bool;

    /// Returns true if the sensor is closed and no further updates can occur.
    fn closed(&self) -> (closed: bool)
        ensures
            closed == self.ended(),
    ;
}

impl VersionFunctionality for Version {
    open spec fn ended(&self) -> bool {
        self.is_closed()
    }

    fn closed(&self) -> (closed: bool) {
        self.closed_bit_set()
    }
}

/// The version of two sensors observed as one.
pub struct FusedVersion<A: VersionFunctionality, B: VersionFunctionality> {
    /// The version of the first sensor.
    pub a: A,
    /// The version of the second sensor.
    pub b: B,
}

impl<A: VersionFunctionality + Clone, B: VersionFunctionality + Clone> Clone for FusedVersion<A, B> {
    fn clone(&self) -> (copy: Self)
        ensures
            cloned(self.a, copy.a),
            cloned(self.b, copy.b),
    {
        FusedVersion { a: self.a.clone(), b: self.b.clone() }
    }
}

impl<A: VersionFunctionality, B: VersionFunctionality> VersionFunctionality for FusedVersion<A, B> {
    open spec fn ended(&self) -> bool {
        self.a.ended() && self.b.ended()
    }

    fn closed(&self) -> (closed: bool) {
        self.a.closed() && self.b.closed()
    }
}

/// An update keeps the closed bit and is taken back exactly by a decrement.
pub proof fn update_is_reversible(version: Version)
    ensures
        version.next().previous() == version,
        version.previous().next() == version,
        version.next().is_closed() == version.is_closed(),
        version.previous().is_closed() == version.is_closed(),
{
    lemma_parity_of_modulus();
}

/// A version never equals the version after it or the one before it, so an observer that holds
/// either sees a change.
pub proof fn update_is_visible(version: Version)
    ensures
        version.next() != version,
        version.previous() != version,
{
    lemma_parity_of_modulus();
}

/// Closing keeps the update count, is final, and is not undone by later updates.
pub proof fn closing_is_final(version: Version)
    ensures
        version.closing().is_closed(),
        version.closing().closing() == version.closing(),
        raw_count(version.closing().0) == raw_count(version.0),
        version.closing().next().is_closed(),
        version.is_closed() ==> version.closing() == version,
{
    lemma_parity_of_modulus();
}

/// The first update leads from [`VERSION_INIT`] to zero, and neither is closed.
pub proof fn initial_version_precedes_zero()
    ensures
        Version(VERSION_INIT).next() == Version(0),
        !Version(VERSION_INIT).is_closed(),
        !Version(0).is_closed(),
{
    lemma_parity_of_modulus();
}

proof fn lemma_parity_of_modulus()
    ensures
        version_modulus() % 2 == 0,
        version_modulus() > 4,
        usize::MAX % 2 == 1,
{
    assert(usize::MAX == 0xffff_ffff || usize::MAX == 0xffff_ffff_ffff_ffff);
}

proof fn lemma_after_updates(version: Version, count: nat)
    requires
        2 * count < version_modulus(),
    ensures
        version.after_updates(count).0 == if version.0 + 2 * count >= version_modulus() {
            version.0 + 2 * count - version_modulus()
        } else {
            version.0 + 2 * count
        },
    decreases count,
{
    if count > 0 {
        lemma_after_updates(version, (count - 1) as nat);
    }
}

/// However many updates an observer misses, the version it has seen differs from the current
/// one, as long as the counter has not come round.
pub proof fn missed_updates_are_visible(version: Version, count: nat)
    requires
        0 < count,
        2 * count < version_modulus(),
    ensures
        version.after_updates(count) != version,
{
    lemma_after_updates(version, count);
}

/// No number of updates opens a closed sensor or closes an open one.
pub proof fn updates_keep_closed_bit(version: Version, count: nat)
    ensures
        version.after_updates(count).is_closed() == version.is_closed(),
    decreases count,
{
    if count > 0 {
        updates_keep_closed_bit(version, (count - 1) as nat);
        update_is_reversible(version.after_updates((count - 1) as nat));
    }
}

/// A writer that is counted beside others can go, or let another go, and the sensor stays open:
/// where `count` writers are counted and one more can be had, the first of them to go is not the
/// last one, the count is then `count` again, and it has not come round.
pub proof fn another_writer_keeps_the_sensor_open(count: usize)
    requires
        1 <= count,
        !has_too_many_writers(count),
    ensures
        count + 1 <= usize::MAX,
        !is_last_writer((count + 1) as usize),
        !has_too_many_writers((count + 1 - 1) as usize),
        is_last_writer((count + 1 - 1) as usize) <==> count == 1,
{
    lemma_parity_of_modulus();
}

/// What the operations on a version do to its number: an update adds two and a step back takes two
/// away, both modulo the width of `usize`; closing makes an even number the odd one above it.
pub proof fn versions_count_in_twos(version: Version)
    ensures
        version.next().0 as int == (version.0 + 2) % (usize::MAX + 1),
        version.previous().0 as int == (version.0 - 2) % (usize::MAX + 1),
        version.is_closed() <==> version.0 % 2 == 1,
        version.ended() <==> version.0 % 2 == 1,
        version.0 % 2 == 0 ==> version.closing().0 == version.0 + 1,
        version.0 % 2 == 1 ==> version.closing().0 == version.0,
{
    let n = version.0 as int;
    let m = usize::MAX + 1;
    assert(m > 4);
    if n + 2 >= m {
        vstd::arithmetic::div_mod::lemma_mod_add_multiples_vanish(n + 2 - m, m);
        vstd::arithmetic::div_mod::lemma_small_mod((n + 2 - m) as nat, m as nat);
    } else {
        vstd::arithmetic::div_mod::lemma_small_mod((n + 2) as nat, m as nat);
    }
    if n < 2 {
        vstd::arithmetic::div_mod::lemma_mod_add_multiples_vanish(n - 2, m);
        vstd::arithmetic::div_mod::lemma_small_mod((n - 2 + m) as nat, m as nat);
    } else {
        vstd::arithmetic::div_mod::lemma_small_mod((n - 2) as nat, m as nat);
    }
}

/// Two versions count the same updates exactly if they are equal or differ in the closed bit alone,
/// and an update is told from the version before it, closed or not.
pub proof fn closing_is_no_update(left: Version, right: Version)
    ensures
        raw_count(left.0) == raw_count(right.0) <==> left.closing() == right.closing(),
        raw_count(left.next().0) != raw_count(left.0),
        raw_count(left.next().0) != raw_count(left.closing().0),
{
    lemma_parity_of_modulus();
}

/// The writer that goes is the last one exactly if no other is left, and writers can be added while
/// they are no more than half of what can be counted.
pub proof fn the_last_writer_leaves_nobody(previous: usize)
    ensures
        is_last_writer(previous) <==> previous - 1 == 0,
        has_too_many_writers(previous) <==> 2 * previous > usize::MAX,
{
    lemma_parity_of_modulus();
}

/// Two sensors observed as one are closed exactly if both are.
pub proof fn both_parts_have_to_close<A: VersionFunctionality, B: VersionFunctionality>(
    version: FusedVersion<A, B>,
)
    ensures
        version.a.ended() && version.b.ended() ==> version.ended(),
        version.ended() ==> version.a.ended(),
        version.ended() ==> version.b.ended(),
{
}

/// An update adds two to the number of a version and a step back takes two away, both modulo the
/// width of `usize`; marking it closed makes it odd and leaves the rest of it.
pub proof fn operations_count_in_twos()
    ensures
        forall|version: &mut Version|
            #[trigger] call_ensures(Version::increment, (version,), ()) ==> (*final(version)).0 as int
                == ((*version).0 + 2) % (usize::MAX + 1),
        forall|version: &mut Version|
            #[trigger] call_ensures(Version::decrement, (version,), ()) ==> (*final(version)).0 as int
                == ((*version).0 - 2) % (usize::MAX + 1),
        forall|version: &mut Version|
            #[trigger] call_ensures(Version::set_closed_bit, (version,), ()) ==> (*final(version)).0 % 2 == 1 && (*final(version)).0 / 2 == (*version).0 / 2,
        forall|version: Version, closed: bool|
            #[trigger] call_ensures(Version::closed_bit_set, (version,), closed) ==> closed == (
            version.0 % 2 == 1),
{
    assert forall|version: Version|
        (#[trigger] version.next()).0 as int == (version.0 + 2) % (usize::MAX + 1) by {
        versions_count_in_twos(version);
    }
    assert forall|version: Version|
        (#[trigger] version.previous()).0 as int == (version.0 - 2) % (usize::MAX + 1) by {
        versions_count_in_twos(version);
    }
}

} // verus!
