//! The two locatable entity kinds — teams and events — and the capability
//! interface over "has a location" that the cascade and the collision pass
//! are written against.

use vstd::prelude::*;

use crate::event_type::EventType;
use crate::geo::GeoPoint;

verus! {

/// Shared access to an entity's location and ignore flag.
///
/// `loc` and `ignore_flag` abstract the state the resolution logic reads;
/// `with_loc` and `with_ignore` describe an entity with that state replaced
/// and everything else kept, so contracts written against this trait say
/// exactly what a mutation did and did not touch.
pub trait HasLocation: Sized {
    /// The entity's globally unique key, as assigned by the registry.
    spec fn key_spec(&self) -> Seq<char>;

    /// The entity's resolved coordinates, if any.  Latitude and longitude are
    /// both present or both absent by construction.
    spec fn loc(&self) -> Option<GeoPoint>;

    /// The entity's ignore flag: unset, or explicitly set to a value.
    spec fn ignore_flag(&self) -> Option<bool>;

    /// The same entity with its location replaced.
    spec fn with_loc(&self, l: Option<GeoPoint>) -> Self;

    /// The same entity with its ignore flag replaced.
    spec fn with_ignore(&self, v: Option<bool>) -> Self;

    /// Replacing the location changes exactly the location.
    proof fn lemma_with_loc(&self, l: Option<GeoPoint>)
        ensures
            self.with_loc(l).loc() == l,
            self.with_loc(l).ignore_flag() == self.ignore_flag(),
            self.with_loc(l).key_spec() == self.key_spec(),
    ;

    /// Replacing the ignore flag changes exactly the ignore flag.
    proof fn lemma_with_ignore(&self, v: Option<bool>)
        ensures
            self.with_ignore(v).loc() == self.loc(),
            self.with_ignore(v).ignore_flag() == v,
            self.with_ignore(v).key_spec() == self.key_spec(),
    ;

    fn key(&self) -> (r: &String)
        ensures
            r@ == self.key_spec(),
    ;

    fn location(&self) -> (r: Option<GeoPoint>)
        ensures
            r == self.loc(),
    ;

    fn ignored(&self) -> (r: bool)
        ensures
            r == (self.ignore_flag() == Some(true)),
    ;

    fn lat(&self) -> (r: Option<u64>)
        ensures
            r == (match self.loc() {
                Some(p) => Some(p.lat),
                None => None::<u64>,
            }),
    ;

    fn lng(&self) -> (r: Option<u64>)
        ensures
            r == (match self.loc() {
                Some(p) => Some(p.lng),
                None => None::<u64>,
            }),
    ;

    fn set_lat_lng(&mut self, lat: u64, lng: u64)
        ensures
            *final(self) == old(self).with_loc(Some(GeoPoint { lat, lng })),
    ;

    fn clear_location(&mut self)
        ensures
            *final(self) == old(self).with_loc(None::<GeoPoint>),
    ;

    fn set_ignore(&mut self, val: bool)
        ensures
            *final(self) == old(self).with_ignore(Some(val)),
    ;

    fn has_location(&self) -> (r: bool)
        ensures
            r == (self.loc() is Some),
    ;
}

/// A team as the resolution engine sees it: its key, the raw fields the
/// address composer reads, its resolved location, its ignore flag, and the
/// keys of the events it attends.
pub struct TeamData {
    pub key: String,
    pub school_name: Option<String>,
    pub city: Option<String>,
    pub state_prov: Option<String>,
    pub postal_code: Option<String>,
    pub country: Option<String>,
    pub loc: Option<GeoPoint>,
    pub ignore: Option<bool>,
    pub events: Vec<String>,
}

impl TeamData {
    /// A fresh team record: no ignore flag, no event list yet.
    pub fn new(
        key: String,
        school_name: Option<String>,
        city: Option<String>,
        state_prov: Option<String>,
        postal_code: Option<String>,
        country: Option<String>,
        loc: Option<GeoPoint>,
    ) -> (r: TeamData)
        ensures
            r.key == key,
            r.school_name == school_name,
            r.city == city,
            r.state_prov == state_prov,
            r.postal_code == postal_code,
            r.country == country,
            r.loc == loc,
            r.ignore is None,
            r.events@.len() == 0,
    {
        TeamData {
            key,
            school_name,
            city,
            state_prov,
            postal_code,
            country,
            loc,
            ignore: None,
            events: Vec::new(),
        }
    }
}

impl HasLocation for TeamData {
    open spec fn key_spec(&self) -> Seq<char> {
        self.key@
    }

    open spec fn loc(&self) -> Option<GeoPoint> {
        self.loc
    }

    open spec fn ignore_flag(&self) -> Option<bool> {
        self.ignore
    }

    open spec fn with_loc(&self, l: Option<GeoPoint>) -> TeamData {
        TeamData { loc: l, ..*self }
    }

    open spec fn with_ignore(&self, v: Option<bool>) -> TeamData {
        TeamData { ignore: v, ..*self }
    }

    proof fn lemma_with_loc(&self, l: Option<GeoPoint>) {
    }

    proof fn lemma_with_ignore(&self, v: Option<bool>) {
    }

    fn key(&self) -> &String {
        &self.key
    }

    fn location(&self) -> Option<GeoPoint> {
        self.loc
    }

    fn ignored(&self) -> bool {
        match self.ignore {
            Some(b) => b,
            None => false,
        }
    }

    fn lat(&self) -> Option<u64> {
        match self.loc {
            Some(p) => Some(p.lat),
            None => None,
        }
    }

    fn lng(&self) -> Option<u64> {
        match self.loc {
            Some(p) => Some(p.lng),
            None => None,
        }
    }

    fn set_lat_lng(&mut self, lat: u64, lng: u64) {
        self.loc = Some(GeoPoint { lat, lng });
    }

    fn clear_location(&mut self) {
        self.loc = None;
    }

    fn set_ignore(&mut self, val: bool) {
        self.ignore = Some(val);
    }

    fn has_location(&self) -> bool {
        match self.loc {
            Some(_) => true,
            None => false,
        }
    }
}

/// An event as the resolution engine sees it: its key, the raw fields the
/// address composer reads, the metadata code used for enrichment, its
/// category with the two flags derived from it, its resolved location, its
/// ignore flag, and its team roster.
pub struct EventData {
    pub key: String,
    pub venue: Option<String>,
    pub address: Option<String>,
    pub city: Option<String>,
    pub state_prov: Option<String>,
    pub postal_code: Option<String>,
    pub country: Option<String>,
    pub first_event_code: Option<String>,
    pub event_type: Option<EventType>,
    pub is_cmp: bool,
    pub is_official: bool,
    pub loc: Option<GeoPoint>,
    pub ignore: Option<bool>,
    pub teams: Vec<String>,
}

impl EventData {
    /// A fresh event record.  The championship and official flags are derived
    /// from the category; an absent category counts as neither.
    pub fn new(
        key: String,
        venue: Option<String>,
        address: Option<String>,
        city: Option<String>,
        state_prov: Option<String>,
        postal_code: Option<String>,
        country: Option<String>,
        first_event_code: Option<String>,
        event_type: Option<EventType>,
        loc: Option<GeoPoint>,
    ) -> (r: EventData)
        ensures
            r.key == key,
            r.venue == venue,
            r.address == address,
            r.city == city,
            r.state_prov == state_prov,
            r.postal_code == postal_code,
            r.country == country,
            r.first_event_code == first_event_code,
            r.event_type == event_type,
            r.is_cmp == (match event_type {
                Some(t) => t.spec_is_championship(),
                None => false,
            }),
            r.is_official == (match event_type {
                Some(t) => t.spec_is_official(),
                None => false,
            }),
            r.loc == loc,
            r.ignore is None,
            r.teams@.len() == 0,
    {
        let is_cmp = match event_type {
            Some(t) => t.is_championship(),
            None => false,
        };
        let is_official = match event_type {
            Some(t) => t.is_official(),
            None => false,
        };
        EventData {
            key,
            venue,
            address,
            city,
            state_prov,
            postal_code,
            country,
            first_event_code,
            event_type,
            is_cmp,
            is_official,
            loc,
            ignore: None,
            teams: Vec::new(),
        }
    }
}

impl HasLocation for EventData {
    open spec fn key_spec(&self) -> Seq<char> {
        self.key@
    }

    open spec fn loc(&self) -> Option<GeoPoint> {
        self.loc
    }

    open spec fn ignore_flag(&self) -> Option<bool> {
        self.ignore
    }

    open spec fn with_loc(&self, l: Option<GeoPoint>) -> EventData {
        EventData { loc: l, ..*self }
    }

    open spec fn with_ignore(&self, v: Option<bool>) -> EventData {
        EventData { ignore: v, ..*self }
    }

    proof fn lemma_with_loc(&self, l: Option<GeoPoint>) {
    }

    proof fn lemma_with_ignore(&self, v: Option<bool>) {
    }

    fn key(&self) -> &String {
        &self.key
    }

    fn location(&self) -> Option<GeoPoint> {
        self.loc
    }

    fn ignored(&self) -> bool {
        match self.ignore {
            Some(b) => b,
            None => false,
        }
    }

    fn lat(&self) -> Option<u64> {
        match self.loc {
            Some(p) => Some(p.lat),
            None => None,
        }
    }

    fn lng(&self) -> Option<u64> {
        match self.loc {
            Some(p) => Some(p.lng),
            None => None,
        }
    }

    fn set_lat_lng(&mut self, lat: u64, lng: u64) {
        self.loc = Some(GeoPoint { lat, lng });
    }

    fn clear_location(&mut self) {
        self.loc = None;
    }

    fn set_ignore(&mut self, val: bool) {
        self.ignore = Some(val);
    }

    fn has_location(&self) -> bool {
        match self.loc {
            Some(_) => true,
            None => false,
        }
    }
}

/// Find an entity in a table by its key: the index of the first entity whose
/// key matches, if any.
pub fn find_by_key<T: HasLocation>(objects: &Vec<T>, key: &String) -> (r: Option<usize>)
    ensures
        (match r {
            Some(i) => i < objects@.len() && objects@[i as int].key_spec() == key@ && (forall|
                j: int,
            | 0 <= j < i ==> objects@[j].key_spec() != key@),
            None => forall|j: int| 0 <= j < objects@.len() ==> objects@[j].key_spec() != key@,
        }),
{
    let n = objects.len();
    let mut i: usize = 0;
    while i < n
        invariant
            n == objects@.len(),
            i <= n,
            forall|j: int| 0 <= j < i ==> objects@[j].key_spec() != key@,
        decreases n - i,
    {
        if objects[i].key().eq(key) {
            return Some(i);
        }
        i = i + 1;
    }
    None
}

/// Latitude and longitude are both present or both absent, whichever entity
/// kind carries them and whatever state it is in.
pub proof fn lemma_has_location_invariant<T: HasLocation>(t: &T)
    ensures
        (match t.loc() {
            Some(p) => Some(p.lat),
            None => None::<u64>,
        }) is Some <==> (match t.loc() {
            Some(p) => Some(p.lng),
            None => None::<u64>,
        }) is Some,
{
}

} // verus!
