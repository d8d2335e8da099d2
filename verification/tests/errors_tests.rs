use ezytutors::errors::{CustomErrorResponse, EzyTutorError, MyError};
use ezytutors::handlers::new_course;
use ezytutors::models::Course;
use ezytutors::store::CourseStore;

#[test]
fn db_error_is_masked_with_generic_message() {
    let error = EzyTutorError::DBError("connection refused at port 5432".to_string());
    assert_eq!(error.status_code(), 500);
    assert_eq!(error.error_response(), "Database error");
    assert_eq!(error.error_body().message(), "Database error");
}

#[test]
fn actix_error_is_masked_with_generic_message() {
    let error = EzyTutorError::ActixError("payload decode failed".to_string());
    assert_eq!(error.status_code(), 500);
    assert_eq!(error.error_response(), "Internal server error");
}

#[test]
fn not_found_passes_its_description_through() {
    let error = EzyTutorError::NotFount("Course not found".to_string());
    assert_eq!(error.status_code(), 404);
    assert_eq!(error.error_response(), "Course not found");
}

#[test]
fn validation_failure_reports_bad_request_and_details() {
    let mut store = CourseStore::new();
    let bad = Course {
        tutor_id: 1,
        course_id: None,
        course_name: "ab".to_string(),
        posted_time: None,
    };
    let response: CustomErrorResponse =
        new_course(&mut store, &bad).expect_err("short name must be rejected");
    assert_eq!(response.status_code(), 400);
    assert_eq!(response.custom_message, "Validation error");
    assert_eq!(response.errors.len(), 1);
    // the store was never touched
    assert!(store.list_for_tutor(1).is_empty());
}

#[test]
fn my_error_messages() {
    assert_eq!(MyError::ParseError.message(), "Parse Error");
    assert_eq!(MyError::IOError.message(), "IO Error");
}
