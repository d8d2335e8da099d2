//! Request handlers' decision logic: what each endpoint computes once
//! the surrounding server has parsed the request into plain values.
//!
//! The handlers orchestrate only: the health check reports and bumps
//! the visit counter, and course creation checks the payload before it
//! ever touches the store. Listing and single lookup delegate directly
//! to [`CourseStore::list_for_tutor`] and [`CourseStore::get_one`].

use vstd::prelude::*;

use crate::errors::{CustomErrorResponse, EzyTutorError};
use crate::models::{payload_valid, Course};
use crate::numerals::{dec_digits, u64_to_string};
use crate::store::{for_tutor, CourseStore};
use crate::validation::{
    course_rule_failures, detail_lines, error_handler, flatten_entries, validate_course,
};

verus! {

/// Reports the greeting with the number of visits so far, and counts
/// this visit.
pub fn health_check_handler(health_check_response: &str, visit_count: &mut u64) -> (response:
    String)
    requires
        *old(visit_count) < u64::MAX,
    ensures
        *final(visit_count) == *old(visit_count) + 1,
        response@ == health_check_response@ + " "@ + dec_digits(*old(visit_count) as nat)
            + " times"@,
{
    let count_string = u64_to_string(*visit_count);
    let response = health_check_response.to_owned().concat(" ").concat(
        count_string.as_str(),
    ).concat(" times");
    *visit_count = *visit_count + 1;
    response
}

/// Creates a course from a client payload: a payload that breaks a
/// field rule is rejected with the flattened detail list and the store
/// is left untouched; a valid one is stored with the next sequential
/// id for its tutor and a fresh timestamp.
pub fn new_course(store: &mut CourseStore, payload: &Course) -> (outcome: Result<
    Course,
    CustomErrorResponse,
>)
    requires
        old(store).wf(),
        for_tutor(old(store)@, payload@.tutor_id).len() < i32::MAX,
    ensures
        final(store).wf(),
        match outcome {
            Ok(created) => {
                &&& payload_valid(payload@)
                &&& created@.tutor_id == payload@.tutor_id
                &&& created@.course_name == payload@.course_name
                &&& created@.course_id == Some(
                    for_tutor(old(store)@, payload@.tutor_id).len() + 1 as int,
                )
                &&& created@.posted_time is Some
                &&& final(store)@ == old(store)@.push(created@)
            },
            Err(response) => {
                &&& !payload_valid(payload@)
                &&& final(store)@ == old(store)@
                &&& response.custom_message@ == "Validation error"@
                &&& response.spec_details() == detail_lines(
                    flatten_entries(course_rule_failures(payload@), None, 0),
                )
            },
        },
{
    let outcome = validate_course(payload);
    if outcome.entries.len() > 0 {
        Err(error_handler(&outcome))
    } else {
        Ok(store.create_now(payload))
    }
}

/// The listing endpoint's decision: all of one tutor's courses, in
/// insertion order, possibly none.
pub fn get_courses_for_tutor(store: &CourseStore, tutor_id: i32) -> (courses: Vec<Course>)
    ensures
        courses@.map_values(|c: Course| c@) == for_tutor(store@, tutor_id as int),
{
    store.list_for_tutor(tutor_id)
}

/// The single-course endpoint's decision: the unique matching course,
/// or `NotFount` when no record matches.
pub fn get_course_detail(store: &CourseStore, tutor_id: i32, course_id: i32) -> (found: Result<
    Course,
    EzyTutorError,
>)
    ensures
        match found {
            Ok(c) => {
                &&& exists|i: int| 0 <= i < store@.len() && #[trigger] store@[i] == c@
                &&& c@.tutor_id == tutor_id
                &&& c@.course_id == Some(course_id as int)
            },
            Err(e) => {
                &&& e is NotFount
                &&& e.spec_error_response() == "Course not found"@
                &&& forall|i: int|
                    0 <= i < store@.len() ==> !((#[trigger] store@[i]).tutor_id == tutor_id
                        && store@[i].course_id == Some(course_id as int))
            },
        },
{
    store.get_one(tutor_id, course_id)
}

} // verus!
