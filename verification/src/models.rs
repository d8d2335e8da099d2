//! The `Course` domain entity and the payload rules a creation request
//! must satisfy.
//!
//! A timestamp is carried as whole seconds since the Unix epoch, which
//! is all the catalog ever reads of a posting time.

use vstd::prelude::*;

verus! {

/// Lowest tutor identifier a payload may carry.
pub const TUTOR_ID_MIN: i32 = 1;

/// Highest tutor identifier a payload may carry.
pub const TUTOR_ID_MAX: i32 = 100;

/// Lowest course identifier a lookup path may carry.
pub const COURSE_ID_MIN: i32 = 1;

/// Highest course identifier a lookup path may carry.
pub const COURSE_ID_MAX: i32 = 100;

/// Shortest course name a payload may carry, in characters.
pub const COURSE_NAME_MIN_LEN: usize = 3;

/// One course offered by one tutor.
///
/// `course_id` and `posted_time` are absent on a creation request and
/// assigned by the store; a stored record always carries both.
#[derive(Debug)]
pub struct Course {
    pub tutor_id: i32,
    pub course_id: Option<i32>,
    pub course_name: String,
    pub posted_time: Option<i64>,
}

/// The mathematical value of a [`Course`].
#[verifier::ext_equal]
pub ghost struct CourseView {
    pub tutor_id: int,
    pub course_id: Option<int>,
    pub course_name: Seq<char>,
    pub posted_time: Option<int>,
}

impl View for Course {
    type V = CourseView;

    open spec fn view(&self) -> CourseView {
        CourseView {
            tutor_id: self.tutor_id as int,
            course_id: match self.course_id {
                Some(id) => Some(id as int),
                None => None,
            },
            course_name: self.course_name@,
            posted_time: match self.posted_time {
                Some(t) => Some(t as int),
                None => None,
            },
        }
    }
}

impl Clone for Course {
    fn clone(&self) -> (copy: Self)
        ensures
            copy@ == self@,
    {
        Course {
            tutor_id: self.tutor_id,
            course_id: self.course_id,
            course_name: self.course_name.clone(),
            posted_time: self.posted_time,
        }
    }
}

/// Whether a creation payload satisfies every field rule: tutor id in
/// range, course id (when supplied) in range, name long enough.
pub open spec fn payload_valid(c: CourseView) -> bool {
    &&& TUTOR_ID_MIN <= c.tutor_id <= TUTOR_ID_MAX
    &&& match c.course_id {
        Some(id) => COURSE_ID_MIN <= id <= COURSE_ID_MAX,
        None => true,
    }
    &&& c.course_name.len() >= COURSE_NAME_MIN_LEN
}

} // verus!
