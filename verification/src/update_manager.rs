//! Data fetched from the Moesif API, kept with the entity tags that tell
//! whether a newer copy exists and the time it was last refreshed.

use vstd::prelude::*;
use crate::external::now_instant;
use crate::text::str_eq;

verus! {

/// The model of an update manager: the current and previous entity tags, the
/// time (Unix seconds) of the last update, and the data.
pub struct UpdateModel<T> {
    pub current_etag: Seq<char>,
    pub old_etag: Seq<char>,
    pub last_updated: i64,
    pub data: T,
}

/// The state after an update with `etag` and `data` at time `now`: the
/// current tag becomes the previous one.
pub open spec fn updated<T>(m: UpdateModel<T>, etag: Seq<char>, data: T, now: i64) -> UpdateModel<T> {
    UpdateModel { current_etag: etag, old_etag: m.current_etag, last_updated: now, data }
}

/// Whether `etag` announces data that is neither the current nor the
/// previous copy.
pub open spec fn reports_update<T>(m: UpdateModel<T>, etag: Seq<char>) -> bool {
    m.current_etag != etag && m.old_etag != etag
}

/// Whether data refreshed at `last_updated` is older than `ttl` seconds at
/// time `now`.
pub open spec fn expired_at<T>(m: UpdateModel<T>, ttl: i64, now: i64) -> bool {
    m.last_updated + ttl < now
}

/// Data fetched from the Moesif API with its entity tags.
pub struct UpdateManager<T> {
    current_etag: String,
    old_etag: String,
    last_updated: i64,
    data: T,
}

impl<T> View for UpdateManager<T> {
    type V = UpdateModel<T>;

    closed spec fn view(&self) -> UpdateModel<T> {
        UpdateModel {
            current_etag: self.current_etag@,
            old_etag: self.old_etag@,
            last_updated: self.last_updated,
            data: self.data,
        }
    }
}

impl<T> UpdateManager<T> {
    /// A manager holding `data`, with empty tags and update time 0 (what
    /// `UpdateManager::default()` gives for the default data).
    pub fn new(data: T) -> (m: Self)
        ensures
            m@ == (UpdateModel { current_etag: Seq::empty(), old_etag: Seq::empty(), last_updated: 0, data }),
    {
        UpdateManager { current_etag: String::new(), old_etag: String::new(), last_updated: 0, data }
    }

    /// Stores new data under `etag`, as of the clock's current time.
    pub fn update(&mut self, etag: String, data: T)
        ensures
            final(self)@ == updated(old(self)@, etag@, data, final(self)@.last_updated),
    {
        let (now, _) = now_instant();
        self.update_at(etag, data, now);
    }

    /// Stores new data under `etag` as of time `now`.
    pub fn update_at(&mut self, etag: String, data: T, now: i64)
        ensures
            final(self)@ == updated(old(self)@, etag@, data, now),
    {
        self.old_etag = self.current_etag.clone();
        self.current_etag = etag;
        self.last_updated = now;
        self.data = data;
    }

    /// Whether `etag` announces data that is neither the current nor the
    /// previous copy.
    pub fn is_updated(&self, etag: &str) -> (r: bool)
        ensures
            r == reports_update(self@, etag@),
    {
        !str_eq(self.current_etag.as_str(), etag) && !str_eq(self.old_etag.as_str(), etag)
    }

    /// Whether the data is older than `ttl` seconds by the clock's current
    /// time. What the clock reads is not known, so only the check made is
    /// stated: `is_expired_at` with that time.
    pub fn is_expired(&self, ttl: i64) -> (r: bool)
        ensures
            exists|now: i64| r == expired_at(self@, ttl, now),
    {
        let (now, _) = now_instant();
        self.is_expired_at(ttl, now)
    }

    /// Whether the data is older than `ttl` seconds at time `now` (exact
    /// arithmetic: no overflow).
    pub fn is_expired_at(&self, ttl: i64, now: i64) -> (r: bool)
        ensures
            r == expired_at(self@, ttl, now),
    {
        (self.last_updated as i128) + (ttl as i128) < (now as i128)
    }

    /// The data.
    pub fn get_data(&self) -> (d: &T)
        ensures
            *d == self@.data,
    {
        &self.data
    }
}

/// Law: after an update with a tag, that tag is no longer reported as an
/// update; after a second update, neither tag is; any other tag is.
pub proof fn law_update_tags<T>(m: UpdateModel<T>, e: Seq<char>, f: Seq<char>, g: Seq<char>, d1: T, d2: T, t1: i64, t2: i64)
    requires
        g != e,
        g != f,
    ensures
        !reports_update(updated(m, e, d1, t1), e),
        !reports_update(updated(updated(m, e, d1, t1), f, d2, t2), e),
        !reports_update(updated(updated(m, e, d1, t1), f, d2, t2), f),
        reports_update(updated(updated(m, e, d1, t1), f, d2, t2), g),
{
}

/// Law: data is expired exactly when the time since the last update exceeds
/// the time to live, and an update at `now` is not expired at `now` for a
/// non-negative time to live.
pub proof fn law_fresh_after_update<T>(m: UpdateModel<T>, e: Seq<char>, d: T, now: i64, ttl: i64)
    requires
        ttl >= 0,
    ensures
        !expired_at(updated(m, e, d, now), ttl, now),
{
}

} // verus!
