//! Coordinates, manual override entries, and the keyed tables that hold them.

use vstd::prelude::*;

verus! {

/// A resolved coordinate pair.  Each field is the bit pattern of a 64-bit
/// float, so two points are equal exactly when both floats are bit-identical;
/// the collision pass relies on this.
#[derive(Clone, Copy, Debug, PartialEq, Eq, Structural)]
pub struct GeoPoint {
    pub lat: u64,
    pub lng: u64,
}

/// One manually authored instruction for an entity: coordinates, an ignore
/// flag, or both.  Partial records are legal; an absent field leaves the
/// entity's corresponding state untouched.  Archive entries reuse this shape,
/// normally carrying coordinates only.
#[derive(Clone, Copy, Debug, PartialEq, Eq, Structural)]
pub struct LocationOverride {
    pub lat: Option<u64>,
    pub lng: Option<u64>,
    pub ignore: Option<bool>,
}

impl LocationOverride {
    /// The coordinate pair carried, if the entry carries both halves.
    pub open spec fn point(self) -> Option<GeoPoint> {
        if self.lat is Some && self.lng is Some {
            Some(GeoPoint { lat: self.lat->0, lng: self.lng->0 })
        } else {
            None
        }
    }
}

/// A table of override (or archive) entries keyed by entity key.  Lookup
/// returns the first entry with the given key.
pub struct LocationTable {
    pub entries: Vec<(String, LocationOverride)>,
}

impl LocationTable {
    /// The first entry stored under `key`, if any.
    pub open spec fn lookup(self, key: Seq<char>) -> Option<LocationOverride> {
        Self::lookup_in(self.entries@, key)
    }

    pub open spec fn lookup_in(entries: Seq<(String, LocationOverride)>, key: Seq<char>) -> Option<
        LocationOverride,
    >
        decreases entries.len(),
    {
        if entries.len() == 0 {
            None
        } else if entries[0].0@ == key {
            Some(entries[0].1)
        } else {
            Self::lookup_in(entries.drop_first(), key)
        }
    }

    /// Whether some entry is stored under `key`.
    pub open spec fn contains_key(self, key: Seq<char>) -> bool {
        self.lookup(key) is Some
    }

    pub fn new() -> (r: LocationTable)
        ensures
            r.entries@.len() == 0,
    {
        LocationTable { entries: Vec::new() }
    }

    /// Add an entry.  A key added twice keeps its first entry authoritative.
    pub fn push(&mut self, key: String, entry: LocationOverride)
        ensures
            final(self).entries@ == old(self).entries@.push((key, entry)),
    {
        self.entries.push((key, entry));
    }

    pub fn len(&self) -> (r: usize)
        ensures
            r == self.entries@.len(),
    {
        self.entries.len()
    }

    /// Look a key up.
    pub fn get(&self, key: &String) -> (r: Option<LocationOverride>)
        ensures
            r == self.lookup(key@),
    {
        let n = self.entries.len();
        let mut i: usize = 0;
        proof {
            assert(self.entries@.skip(0) =~= self.entries@);
        }
        while i < n
            invariant
                n == self.entries@.len(),
                i <= n,
                Self::lookup_in(self.entries@, key@) == Self::lookup_in(
                    self.entries@.skip(i as int),
                    key@,
                ),
            decreases n - i,
        {
            proof {
                assert(self.entries@.skip(i as int).drop_first() =~= self.entries@.skip(
                    i as int + 1,
                ));
            }
            if self.entries[i].0.eq(key) {
                return Some(self.entries[i].1);
            }
            i = i + 1;
        }
        None
    }
}

} // verus!
