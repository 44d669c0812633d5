//! The snapshot of the latest points, replaced wholesale on every update.
//!
//! The snapshot does not look inside a point, so it is generic in the point
//! type. Sharing it between activities (a lock around it) is left to the
//! caller; a reader that holds a `&SharedData` sees either all of an update or
//! none of it, because an update needs `&mut`.

use vstd::prelude::*;
use std::time::SystemTime;
use crate::error::Error;

verus! {

/// `std::time::SystemTime`, a reading of the system clock.
#[verifier::external_type_specification]
#[verifier::external_body]
pub struct ExSystemTime(SystemTime);

/// Calls `SystemTime::now` of std. Nothing is promised of the reading.
#[verifier::external_body]
fn clock_now() -> (now: SystemTime) {
    SystemTime::now()
}

/// The latest complete set of points and the time it was published.
#[derive(Debug)]
pub struct SharedData<P> {
    /// The points of the most recent successful ingestion, in source order.
    pub points: Vec<P>,
    /// When `points` was last replaced.
    pub last_updated: SystemTime,
}

impl<P> SharedData<P> {
    /// An empty snapshot stamped `now`.
    pub fn new_at(now: SystemTime) -> (data: Self)
        ensures
            data.points@ == Seq::<P>::empty(),
            data.last_updated == now,
    {
        SharedData { points: Vec::new(), last_updated: now }
    }

    /// An empty snapshot stamped with the current time.
    pub fn new() -> (data: Self)
        ensures
            data.points@ == Seq::<P>::empty(),
    {
        Self::new_at(clock_now())
    }

    /// Replaces the points wholesale and stamps the snapshot `now`.
    pub fn publish(&mut self, new_points: Vec<P>, now: SystemTime)
        ensures
            final(self).points == new_points,
            final(self).last_updated == now,
    {
        self.points = new_points;
        self.last_updated = now;
    }

    /// Replaces the points wholesale and stamps the snapshot with the current
    /// time. Whatever the clock reads, a later look at the snapshot finds
    /// exactly `new_points`.
    pub fn update_points(&mut self, new_points: Vec<P>)
        ensures
            final(self).points == new_points,
    {
        let now = clock_now();
        self.publish(new_points, now);
    }

    /// Takes in the outcome of one ingestion: a parsed set of points replaces
    /// the snapshot, a failure leaves the snapshot exactly as it was and is
    /// handed back.
    pub fn ingest(&mut self, parsed: Result<Vec<P>, Error>) -> (res: Result<(), Error>)
        ensures
            match parsed {
                Ok(points) => res.is_ok() && final(self).points == points,
                Err(e) => res == Err::<(), Error>(e) && *final(self) == *old(self),
            },
    {
        match parsed {
            Ok(points) => {
                self.update_points(points);
                Ok(())
            },
            Err(e) => Err(e),
        }
    }

    /// Number of points in the snapshot.
    pub fn point_count(&self) -> (n: usize)
        ensures
            n == self.points@.len(),
    {
        self.points.len()
    }
}

} // verus!
