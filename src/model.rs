//! Groups, posts and scans, with timestamps in seconds from the Unix epoch.
use vstd::prelude::*;

verus! {

/// Largest magnitude, in seconds from the Unix epoch, of a timestamp. Every
/// date that chrono can represent lies within it.
pub const TIME_LIMIT: i64 = 8_796_093_022_208;

/// A timestamp, in seconds from the Unix epoch, within `TIME_LIMIT`.
pub open spec fn valid_time(t: i64) -> bool {
    -TIME_LIMIT <= t <= TIME_LIMIT
}

pub open spec fn valid_opt_time(t: Option<i64>) -> bool {
    match t {
        Some(v) => valid_time(v),
        None => true,
    }
}

/// A party progressing through the course.
pub struct Group {
    pub id: String,
    pub name: String,
    pub start_time: Option<i64>,
    pub finish_time: Option<i64>,
}

impl Group {
    pub open spec fn wf(&self) -> bool {
        valid_opt_time(self.start_time) && valid_opt_time(self.finish_time)
    }

    /// A group that has neither started nor finished.
    pub fn new(id: String, name: String) -> (r: Group)
        ensures
            r.id == id,
            r.name == name,
            r.start_time is None,
            r.finish_time is None,
            r.wf(),
    {
        Group { id, name, start_time: None, finish_time: None }
    }

    pub fn duplicate(&self) -> (r: Group)
        ensures
            r == *self,
    {
        Group {
            id: self.id.clone(),
            name: self.name.clone(),
            start_time: self.start_time,
            finish_time: self.finish_time,
        }
    }
}

/// A checkpoint of the course.
pub struct Post {
    pub id: String,
    pub name: String,
    pub order: i32,
    pub is_finish: bool,
}

impl Post {
    pub fn new(id: String, name: String, order: i32, is_finish: bool) -> (r: Post)
        ensures
            r.id == id,
            r.name == name,
            r.order == order,
            r.is_finish == is_finish,
    {
        Post { id, name, order, is_finish }
    }

    pub fn duplicate(&self) -> (r: Post)
        ensures
            r == *self,
    {
        Post { id: self.id.clone(), name: self.name.clone(), order: self.order, is_finish: self.is_finish }
    }
}

/// The record of one group at one post: arrived while `departure_time` is
/// absent, departed once it is present.
pub struct Scan {
    pub id: String,
    pub group_id: String,
    pub post_id: String,
    pub arrival_time: i64,
    pub departure_time: Option<i64>,
}

impl Scan {
    pub open spec fn wf(&self) -> bool {
        valid_time(self.arrival_time) && valid_opt_time(self.departure_time)
    }

    pub fn duplicate(&self) -> (r: Scan)
        ensures
            r == *self,
    {
        Scan {
            id: self.id.clone(),
            group_id: self.group_id.clone(),
            post_id: self.post_id.clone(),
            arrival_time: self.arrival_time,
            departure_time: self.departure_time,
        }
    }
}

pub open spec fn all_scans_wf(scans: Seq<Scan>) -> bool {
    forall|i: int| 0 <= i < scans.len() ==> (#[trigger] scans[i]).wf()
}

} // verus!
