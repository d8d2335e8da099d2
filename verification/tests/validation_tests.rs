use ezytutors::models::Course;
use ezytutors::validation::{
    error_handler, flatten_errors, validate_course, ValidationError, ValidationErrors,
    ValidationErrorsKind,
};

fn payload(tutor_id: i32, name: &str) -> Course {
    Course {
        tutor_id,
        course_id: None,
        course_name: name.to_string(),
        posted_time: None,
    }
}

fn failure(code: &str, message: Option<&str>) -> ValidationError {
    ValidationError {
        code: code.to_string(),
        message: message.map(|m| m.to_string()),
    }
}

#[test]
fn short_name_gives_one_course_name_detail() {
    let outcome = validate_course(&payload(1, "ab"));
    let response = error_handler(&outcome);
    assert_eq!(response.custom_message, "Validation error");
    assert_eq!(response.errors, vec!["course_name: 3글자 이상 입력하세요".to_string()]);
}

#[test]
fn tutor_id_out_of_range_gives_tutor_id_detail() {
    let outcome = validate_course(&payload(101, "a valid name"));
    let response = error_handler(&outcome);
    assert_eq!(response.errors, vec!["tutor_id: 100 이하의 값을 입력하세요".to_string()]);
}

#[test]
fn two_violations_come_in_field_declaration_order() {
    let outcome = validate_course(&payload(0, "ab"));
    let response = error_handler(&outcome);
    assert_eq!(
        response.errors,
        vec![
            "tutor_id: 100 이하의 값을 입력하세요".to_string(),
            "course_name: 3글자 이상 입력하세요".to_string(),
        ]
    );
    assert_eq!(response.status_code(), 400);
}

#[test]
fn course_id_out_of_range_falls_back_to_code() {
    let course = Course {
        tutor_id: 1,
        course_id: Some(200),
        course_name: "a valid name".to_string(),
        posted_time: None,
    };
    let outcome = validate_course(&course);
    let response = error_handler(&outcome);
    // this rule carries no message, so the detail shows the code
    assert_eq!(response.errors, vec!["course_id: range".to_string()]);
}

#[test]
fn valid_payload_gives_no_entries() {
    let outcome = validate_course(&payload(1, "abc"));
    assert!(outcome.entries.is_empty());
}

#[test]
fn list_index_violations_share_the_indexed_prefix() {
    let inner = ValidationErrors {
        entries: vec![
            (
                "name".to_string(),
                ValidationErrorsKind::Field(vec![failure("length", Some("too short"))]),
            ),
            (
                "age".to_string(),
                ValidationErrorsKind::Field(vec![failure("range", None)]),
            ),
        ],
    };
    let tree = ValidationErrors {
        entries: vec![("field".to_string(), ValidationErrorsKind::List(vec![(2, inner)]))],
    };
    let flat = flatten_errors(&tree, None, None);
    assert_eq!(flat.len(), 2);
    assert_eq!(flat[0].1, "field[2].name");
    assert_eq!(flat[1].1, "field[2].age");
    assert!(flat.iter().all(|row| row.1.starts_with("field[2]")));
    assert_eq!(flat[0].0, 1);
    assert_eq!(flat[1].0, 1);
}

#[test]
fn nested_struct_gets_dotted_path_and_deeper_indent() {
    let inner = ValidationErrors {
        entries: vec![(
            "street".to_string(),
            ValidationErrorsKind::Field(vec![failure("required", None)]),
        )],
    };
    let tree = ValidationErrors {
        entries: vec![("address".to_string(), ValidationErrorsKind::Struct(inner))],
    };
    let flat = flatten_errors(&tree, None, None);
    assert_eq!(flat.len(), 1);
    assert_eq!(flat[0].0, 1);
    assert_eq!(flat[0].1, "address.street");
    assert_eq!(flat[0].2.code, "required");
}

#[test]
fn flatten_keeps_field_then_index_order() {
    let first_inner = ValidationErrors {
        entries: vec![(
            "x".to_string(),
            ValidationErrorsKind::Field(vec![failure("a", None)]),
        )],
    };
    let second_inner = ValidationErrors {
        entries: vec![(
            "y".to_string(),
            ValidationErrorsKind::Field(vec![failure("b", None)]),
        )],
    };
    let tree = ValidationErrors {
        entries: vec![
            (
                "plain".to_string(),
                ValidationErrorsKind::Field(vec![failure("c", None), failure("d", None)]),
            ),
            (
                "items".to_string(),
                ValidationErrorsKind::List(vec![(0, first_inner), (3, second_inner)]),
            ),
        ],
    };
    let flat = flatten_errors(&tree, None, None);
    let paths: Vec<&str> = flat.iter().map(|row| row.1.as_str()).collect();
    assert_eq!(paths, vec!["plain", "plain", "items[0].x", "items[3].y"]);
    let codes: Vec<&str> = flat.iter().map(|row| row.2.code.as_str()).collect();
    assert_eq!(codes, vec!["c", "d", "a", "b"]);
}

#[test]
fn flatten_under_a_parent_path_prefixes_it() {
    let tree = ValidationErrors {
        entries: vec![(
            "name".to_string(),
            ValidationErrorsKind::Field(vec![failure("length", None)]),
        )],
    };
    let flat = flatten_errors(&tree, Some("root".to_string()), Some(3));
    assert_eq!(flat.len(), 1);
    assert_eq!(flat[0].0, 3);
    assert_eq!(flat[0].1, "root.name");
}
