//! One stored entry and its lazy-expiry rule. All times are whole
//! milliseconds, so that the expiry rule is plain arithmetic; the wall
//! clock enters only through `now_millis`.

use vstd::prelude::*;

verus! {

/// Relies on std::time::SystemTime::now and SystemTime::duration_since:
/// the wall-clock time in whole milliseconds since the Unix epoch,
/// saturated into `u64`. Nothing is assumed of the value: callers state
/// what holds whatever the clock reads.
#[verifier::external_body]
fn now_millis() -> u64 {
    match std::time::SystemTime::now().duration_since(std::time::UNIX_EPOCH) {
        Ok(d) => {
            let ms = d.as_millis();
            if ms > u64::MAX as u128 {
                u64::MAX
            } else {
                ms as u64
            }
        },
        Err(_) => 0,
    }
}

/// One stored entry: the payload, an optional time-to-live in
/// milliseconds, and the creation time in milliseconds.
#[derive(Debug)]
pub struct StoreValue {
    pub data: String,
    pub expire_time: Option<u64>,
    pub created_at: u64,
}

/// The mathematical abstraction of a stored entry.
pub struct EntryVal {
    pub data: Seq<char>,
    pub expire_time: Option<u64>,
    pub created_at: u64,
}

impl DeepView for StoreValue {
    type V = EntryVal;

    open spec fn deep_view(&self) -> EntryVal {
        EntryVal {
            data: self.data@,
            expire_time: self.expire_time,
            created_at: self.created_at,
        }
    }
}

impl EntryVal {
    /// Whether the entry is expired at time `now`: a time-to-live is set
    /// and strictly more than that long has passed since creation. A
    /// check at exactly the boundary is not yet expired.
    pub open spec fn spec_expired_at(self, now: u64) -> bool {
        match self.expire_time {
            Some(ttl) => now as int > self.created_at as int + ttl as int,
            None => false,
        }
    }
}

impl StoreValue {
    /// Creates an entry holding `data`, stamped with the current time.
    pub fn new(data: String, expire_time: Option<u64>) -> (r: Self)
        ensures
            r.data == data,
            r.expire_time == expire_time,
    {
        Self { data, expire_time, created_at: now_millis() }
    }

    /// Decides expiry against the given clock reading, exactly as
    /// `spec_expired_at` states it.
    pub fn is_expired_at(&self, now: u64) -> (r: bool)
        ensures
            r == self.deep_view().spec_expired_at(now),
    {
        match self.expire_time {
            Some(ttl) => now > self.created_at && now - self.created_at > ttl,
            None => false,
        }
    }

    /// Decides expiry against the wall clock. An entry without a
    /// time-to-live is never expired; otherwise the answer is the expiry
    /// rule applied to whatever the clock read.
    pub fn is_expired(&self) -> (r: bool)
        ensures
            self.expire_time is None ==> !r,
            exists|now: u64| r == self.deep_view().spec_expired_at(now),
    {
        let now = now_millis();
        let r = self.is_expired_at(now);
        proof {
            assert(r == self.deep_view().spec_expired_at(now));
        }
        r
    }

    /// The payload alone, as text.
    pub fn to_string(&self) -> (r: String)
        ensures
            r@ == self.data@,
    {
        self.data.clone()
    }
}

impl PartialEq for StoreValue {
    /// Entries are compared by payload and time-to-live; the creation
    /// time is ignored.
    fn eq(&self, other: &Self) -> (r: bool) {
        self.data == other.data && self.expire_time == other.expire_time
    }
}

impl vstd::std_specs::cmp::PartialEqSpecImpl for StoreValue {
    open spec fn obeys_eq_spec() -> bool {
        true
    }

    open spec fn eq_spec(&self, other: &Self) -> bool {
        self.data@ == other.data@ && self.expire_time == other.expire_time
    }
}

impl From<String> for StoreValue {
    /// An entry with no time-to-live, stamped with the current time.
    fn from(data: String) -> (r: Self) {
        Self { data, expire_time: None, created_at: now_millis() }
    }
}

impl vstd::std_specs::convert::FromSpecImpl<String> for StoreValue {
    open spec fn obeys_from_spec() -> bool {
        false
    }

    open spec fn from_spec(v: String) -> StoreValue {
        arbitrary()
    }
}

impl<'a> From<&'a str> for StoreValue {
    /// An entry with no time-to-live, stamped with the current time.
    fn from(data: &'a str) -> (r: Self) {
        Self { data: data.to_owned(), expire_time: None, created_at: now_millis() }
    }
}

impl<'a> vstd::std_specs::convert::FromSpecImpl<&'a str> for StoreValue {
    open spec fn obeys_from_spec() -> bool {
        false
    }

    open spec fn from_spec(v: &'a str) -> StoreValue {
        arbitrary()
    }
}

impl From<StoreValue> for String {
    /// The payload alone.
    fn from(store_value: StoreValue) -> (r: String) {
        store_value.data
    }
}

impl vstd::std_specs::convert::FromSpecImpl<StoreValue> for String {
    open spec fn obeys_from_spec() -> bool {
        true
    }

    open spec fn from_spec(v: StoreValue) -> String {
        v.data
    }
}

impl Default for StoreValue {
    /// An empty entry with no time-to-live.
    fn default() -> (r: Self)
        ensures
            r.data@ == Seq::<char>::empty(),
            r.expire_time is None,
    {
        Self { data: String::new(), expire_time: None, created_at: now_millis() }
    }
}

} // verus!
