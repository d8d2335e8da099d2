use ezytutors::handlers::{get_course_detail, get_courses_for_tutor, new_course};
use ezytutors::models::Course;
use ezytutors::store::CourseStore;

fn payload(tutor_id: i32, name: &str) -> Course {
    Course {
        tutor_id,
        course_id: None,
        course_name: name.to_string(),
        posted_time: None,
    }
}

#[test]
fn post_course_test() {
    let mut store = CourseStore::new();
    let course = payload(1, "Hello, this is test course");
    let created = new_course(&mut store, &course).expect("valid payload must be stored");
    assert_eq!(created.tutor_id, 1);
    assert_eq!(created.course_id, Some(1));
    assert_eq!(created.course_name, "Hello, this is test course");
    assert!(created.posted_time.is_some());
}

#[test]
fn get_all_courses_success() {
    let store = CourseStore::new();
    let courses = get_courses_for_tutor(&store, 1);
    assert!(courses.is_empty());
}

#[test]
fn get_one_course_success() {
    let mut store = CourseStore::new();
    new_course(&mut store, &payload(1, "first course")).expect("valid payload");
    let found = get_course_detail(&store, 1, 1).expect("stored course must be found");
    assert_eq!(found.tutor_id, 1);
    assert_eq!(found.course_id, Some(1));
    assert_eq!(found.course_name, "first course");
}

#[test]
fn create_assigns_sequential_ids_per_tutor() {
    let mut store = CourseStore::new();
    for expected in 1..=5 {
        let created = store.create(&payload(7, "course number n"), 100 + expected as i64);
        assert_eq!(created.course_id, Some(expected));
        assert_eq!(created.posted_time, Some(100 + expected as i64));
    }
    // another tutor's numbering starts at one again
    let created = store.create(&payload(8, "other tutor course"), 999);
    assert_eq!(created.course_id, Some(1));
}

#[test]
fn interleaved_creates_keep_each_tutor_sequential() {
    let mut store = CourseStore::new();
    let mut ids_for_one = Vec::new();
    let mut ids_for_two = Vec::new();
    for round in 0..4 {
        let a = store.create(&payload(1, "tutor one course"), round);
        let b = store.create(&payload(2, "tutor two course"), round);
        ids_for_one.push(a.course_id.unwrap());
        ids_for_two.push(b.course_id.unwrap());
    }
    assert_eq!(ids_for_one, vec![1, 2, 3, 4]);
    assert_eq!(ids_for_two, vec![1, 2, 3, 4]);
}

#[test]
fn list_returns_only_matching_in_insertion_order() {
    let mut store = CourseStore::new();
    store.create(&payload(1, "first of one"), 1);
    store.create(&payload(2, "first of two"), 2);
    store.create(&payload(1, "second of one"), 3);
    let courses = store.list_for_tutor(1);
    assert_eq!(courses.len(), 2);
    assert_eq!(courses[0].course_name, "first of one");
    assert_eq!(courses[1].course_name, "second of one");
    assert!(courses.iter().all(|c| c.tutor_id == 1));
    assert!(store.list_for_tutor(3).is_empty());
}

#[test]
fn end_to_end_create_list_get() {
    let mut store = CourseStore::new();
    let first = new_course(&mut store, &payload(1, "Rust 101")).expect("valid payload");
    assert_eq!(first.course_id, Some(1));
    let second = new_course(&mut store, &payload(1, "Rust 102")).expect("valid payload");
    assert_eq!(second.course_id, Some(2));

    let courses = get_courses_for_tutor(&store, 1);
    assert_eq!(courses.len(), 2);
    assert_eq!(courses[0].course_name, "Rust 101");
    assert_eq!(courses[1].course_name, "Rust 102");

    let found = get_course_detail(&store, 1, 2).expect("second course exists");
    assert_eq!(found.course_name, "Rust 102");

    let missing = get_course_detail(&store, 1, 99);
    let error = missing.expect_err("no course 99");
    assert_eq!(error.error_response(), "Course not found");
    assert_eq!(error.status_code(), 404);
}
