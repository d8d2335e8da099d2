//! Validation aggregator: turns a nested validation outcome into the
//! flat, ordered list of (field path, failure) pairs that a rejected
//! request reports.
//!
//! A validation outcome is a tree: each failing field carries either
//! its own constraint failures, a list of failing sub-structures keyed
//! by index, or one nested failing structure. Flattening walks the
//! tree depth-first in field order, qualifying paths with `.` for
//! nesting and `[index]` for list entries, so the same outcome always
//! yields the same detail list.

use vstd::prelude::*;

use crate::errors::CustomErrorResponse;
use crate::models::{
    Course, CourseView, payload_valid, COURSE_ID_MAX, COURSE_ID_MIN, COURSE_NAME_MIN_LEN,
    TUTOR_ID_MAX, TUTOR_ID_MIN,
};
use crate::numerals::{dec_digits, u64_to_string};

verus! {

/// One constraint failure: a machine-readable code and an optional
/// human-readable message.
pub struct ValidationError {
    pub code: String,
    pub message: Option<String>,
}

/// The mathematical value of a [`ValidationError`].
#[verifier::ext_equal]
pub ghost struct ValidationErrorView {
    pub code: Seq<char>,
    pub message: Option<Seq<char>>,
}

impl View for ValidationError {
    type V = ValidationErrorView;

    open spec fn view(&self) -> ValidationErrorView {
        ValidationErrorView {
            code: self.code@,
            message: match self.message {
                Some(m) => Some(m@),
                None => None,
            },
        }
    }
}

impl Clone for ValidationError {
    fn clone(&self) -> (copy: Self)
        ensures
            copy@ == self@,
    {
        ValidationError {
            code: self.code.clone(),
            message: match &self.message {
                Some(m) => Some(m.clone()),
                None => None,
            },
        }
    }
}

/// What hangs off one failing field: direct constraint failures, a
/// list of failing sub-structures keyed by index, or one nested
/// failing structure.
pub enum ValidationErrorsKind {
    Field(Vec<ValidationError>),
    List(Vec<(u64, ValidationErrors)>),
    Struct(ValidationErrors),
}

/// A nested validation outcome: each failing field, in the structure's
/// declaration order, with what failed beneath it.
pub struct ValidationErrors {
    pub entries: Vec<(String, ValidationErrorsKind)>,
}

/// The mathematical value of a [`ValidationErrorsKind`].
#[verifier::ext_equal]
pub ghost enum ErrorsKindView {
    Field(Seq<ValidationErrorView>),
    List(Seq<(nat, Seq<(Seq<char>, ErrorsKindView)>)>),
    Struct(Seq<(Seq<char>, ErrorsKindView)>),
}

pub open spec fn kind_view(kind: ValidationErrorsKind) -> ErrorsKindView
    decreases kind,
{
    match kind {
        ValidationErrorsKind::Field(failures) => ErrorsKindView::Field(
            failures@.map_values(|f: ValidationError| f@),
        ),
        ValidationErrorsKind::List(items) => ErrorsKindView::List(list_view(items@)),
        ValidationErrorsKind::Struct(inner) => ErrorsKindView::Struct(
            entries_view(inner.entries@),
        ),
    }
}

pub open spec fn entries_view(entries: Seq<(String, ValidationErrorsKind)>) -> Seq<
    (Seq<char>, ErrorsKindView),
>
    decreases entries,
{
    if entries.len() == 0 {
        Seq::empty()
    } else {
        entries_view(entries.drop_last()).push(
            (entries.last().0@, kind_view(entries.last().1)),
        )
    }
}

pub open spec fn list_view(items: Seq<(u64, ValidationErrors)>) -> Seq<
    (nat, Seq<(Seq<char>, ErrorsKindView)>),
>
    decreases items,
{
    if items.len() == 0 {
        Seq::empty()
    } else {
        list_view(items.drop_last()).push(
            (items.last().0 as nat, entries_view(items.last().1.entries@)),
        )
    }
}

impl View for ValidationErrors {
    type V = Seq<(Seq<char>, ErrorsKindView)>;

    open spec fn view(&self) -> Seq<(Seq<char>, ErrorsKindView)> {
        entries_view(self.entries@)
    }
}

/// One flattened failure: its nesting depth, its dot/bracket-qualified
/// field path, and the failure itself.
#[verifier::ext_equal]
pub ghost struct FlatEntry {
    pub indent: int,
    pub path: Seq<char>,
    pub error: ValidationErrorView,
}

/// A field's path under its parent: qualified with a dot below a
/// parent path, bare at the root.
pub open spec fn joined_path(path: Option<Seq<char>>, field: Seq<char>) -> Seq<char> {
    match path {
        Some(p) => p + "."@ + field,
        None => field,
    }
}

/// The path of a list entry: the list field's path with the entry's
/// index in brackets.
pub open spec fn indexed_path(path: Seq<char>, index: nat) -> Seq<char> {
    path + "["@ + dec_digits(index) + "]"@
}

/// The flattened failures beneath one field whose own constraints
/// failed: one entry per failure, all at the field's path.
pub open spec fn leaf_entries(
    failures: Seq<ValidationErrorView>,
    path: Seq<char>,
    indent: int,
) -> Seq<FlatEntry> {
    failures.map_values(|f: ValidationErrorView| FlatEntry { indent, path, error: f })
}

/// The flattened failures of a sequence of fields, in field order.
pub open spec fn flatten_entries(
    entries: Seq<(Seq<char>, ErrorsKindView)>,
    path: Option<Seq<char>>,
    indent: int,
) -> Seq<FlatEntry>
    decreases entries,
{
    if entries.len() == 0 {
        Seq::empty()
    } else {
        flatten_entries(entries.drop_last(), path, indent) + flatten_kind(
            entries.last().1,
            joined_path(path, entries.last().0),
            indent,
        )
    }
}

/// The flattened failures beneath one field.
pub open spec fn flatten_kind(
    kind: ErrorsKindView,
    actual_path: Seq<char>,
    indent: int,
) -> Seq<FlatEntry>
    decreases kind,
{
    match kind {
        ErrorsKindView::Field(failures) => leaf_entries(failures, actual_path, indent),
        ErrorsKindView::List(items) => flatten_list(items, actual_path, indent),
        ErrorsKindView::Struct(entries) => flatten_entries(entries, Some(actual_path), indent + 1),
    }
}

/// The flattened failures of a list field, in index order.
pub open spec fn flatten_list(
    items: Seq<(nat, Seq<(Seq<char>, ErrorsKindView)>)>,
    path: Seq<char>,
    indent: int,
) -> Seq<FlatEntry>
    decreases items,
{
    if items.len() == 0 {
        Seq::empty()
    } else {
        flatten_list(items.drop_last(), path, indent) + flatten_entries(
            items.last().1,
            Some(indexed_path(path, items.last().0)),
            indent + 1,
        )
    }
}

/// How deep the nesting below a sequence of fields goes.
pub open spec fn entries_depth(entries: Seq<(Seq<char>, ErrorsKindView)>) -> nat
    decreases entries,
{
    if entries.len() == 0 {
        0
    } else {
        let rest = entries_depth(entries.drop_last());
        let last = kind_depth(entries.last().1);
        if rest >= last {
            rest
        } else {
            last
        }
    }
}

/// How deep the nesting below one field goes.
pub open spec fn kind_depth(kind: ErrorsKindView) -> nat
    decreases kind,
{
    match kind {
        ErrorsKindView::Field(_) => 0,
        ErrorsKindView::List(items) => list_depth(items) + 1,
        ErrorsKindView::Struct(entries) => entries_depth(entries) + 1,
    }
}

/// How deep the nesting below a list field's entries goes.
pub open spec fn list_depth(items: Seq<(nat, Seq<(Seq<char>, ErrorsKindView)>)>) -> nat
    decreases items,
{
    if items.len() == 0 {
        0
    } else {
        let rest = list_depth(items.drop_last());
        let last = entries_depth(items.last().1);
        if rest >= last {
            rest
        } else {
            last
        }
    }
}

proof fn lemma_entries_view_len(entries: Seq<(String, ValidationErrorsKind)>)
    ensures
        entries_view(entries).len() == entries.len(),
    decreases entries.len(),
{
    if entries.len() > 0 {
        lemma_entries_view_len(entries.drop_last());
    }
}

proof fn lemma_entries_view_index(entries: Seq<(String, ValidationErrorsKind)>, k: int)
    requires
        0 <= k < entries.len(),
    ensures
        entries_view(entries).len() == entries.len(),
        entries_view(entries)[k] == (entries[k].0@, kind_view(entries[k].1)),
    decreases entries.len(),
{
    lemma_entries_view_len(entries);
    lemma_entries_view_len(entries.drop_last());
    if k < entries.len() - 1 {
        lemma_entries_view_index(entries.drop_last(), k);
        assert(entries.drop_last()[k] == entries[k]);
    }
}

proof fn lemma_list_view_len(items: Seq<(u64, ValidationErrors)>)
    ensures
        list_view(items).len() == items.len(),
    decreases items.len(),
{
    if items.len() > 0 {
        lemma_list_view_len(items.drop_last());
    }
}

proof fn lemma_list_view_index(items: Seq<(u64, ValidationErrors)>, k: int)
    requires
        0 <= k < items.len(),
    ensures
        list_view(items).len() == items.len(),
        list_view(items)[k] == (items[k].0 as nat, entries_view(items[k].1.entries@)),
    decreases items.len(),
{
    lemma_list_view_len(items);
    lemma_list_view_len(items.drop_last());
    if k < items.len() - 1 {
        lemma_list_view_index(items.drop_last(), k);
        assert(items.drop_last()[k] == items[k]);
    }
}

proof fn lemma_entries_depth_bound(entries: Seq<(Seq<char>, ErrorsKindView)>, k: int)
    requires
        0 <= k < entries.len(),
    ensures
        kind_depth(entries[k].1) <= entries_depth(entries),
    decreases entries.len(),
{
    if k < entries.len() - 1 {
        lemma_entries_depth_bound(entries.drop_last(), k);
    }
}

proof fn lemma_list_depth_bound(items: Seq<(nat, Seq<(Seq<char>, ErrorsKindView)>)>, k: int)
    requires
        0 <= k < items.len(),
    ensures
        entries_depth(items[k].1) <= list_depth(items),
    decreases items.len(),
{
    if k < items.len() - 1 {
        lemma_list_depth_bound(items.drop_last(), k);
    }
}

/// The flattened list as mathematical values.
pub open spec fn flat_view(flat: Seq<(u16, String, ValidationError)>) -> Seq<FlatEntry> {
    flat.map_values(
        |e: (u16, String, ValidationError)| FlatEntry { indent: e.0 as int, path: e.1@, error: e.2@ },
    )
}

/// The nesting depth a flattening starts at.
pub open spec fn indent_value(indent: Option<u16>) -> int {
    match indent {
        Some(v) => v as int,
        None => 0,
    }
}

/// The parent path a flattening starts under.
pub open spec fn path_view(path: Option<String>) -> Option<Seq<char>> {
    match path {
        Some(p) => Some(p@),
        None => None,
    }
}

/// Flattens a validation outcome depth-first: one row per constraint
/// failure, carrying the nesting depth and the qualified field path,
/// fields in declaration order and list entries in index order.
#[verifier::loop_isolation(false)]
pub fn flatten_errors(
    errors: &ValidationErrors,
    path: Option<String>,
    indent: Option<u16>,
) -> (flat: Vec<(u16, String, ValidationError)>)
    requires
        indent_value(indent) + entries_depth(errors@) <= u16::MAX,
    ensures
        flat_view(flat@) == flatten_entries(errors@, path_view(path), indent_value(indent)),
    decreases *errors,
{
    let ind: u16 = match indent {
        Some(v) => v,
        None => 0,
    };
    let ghost pv = path_view(path);
    let mut flat: Vec<(u16, String, ValidationError)> = Vec::new();
    proof {
        assert(errors.entries@.take(0) =~= Seq::<(String, ValidationErrorsKind)>::empty());
        assert(flat_view(flat@) =~= flatten_entries(
            entries_view(errors.entries@.take(0)),
            pv,
            ind as int,
        ));
    }
    let mut e: usize = 0;
    while e < errors.entries.len()
        invariant
            e <= errors.entries.len(),
            flat_view(flat@) == flatten_entries(
                entries_view(errors.entries@.take(e as int)),
                pv,
                ind as int,
            ),
        decreases errors.entries.len() - e,
    {
        let entry = &errors.entries[e];
        let field = &entry.0;
        let kind = &entry.1;
        let actual_path: String = match &path {
            Some(p) => p.clone().concat(".").concat(field.as_str()),
            None => field.clone(),
        };
        let ghost done = flatten_entries(entries_view(errors.entries@.take(e as int)), pv, ind as int);
        let ghost kv = kind_view(errors.entries@[e as int].1);
        proof {
            assert(actual_path@ == joined_path(pv, field@));
            lemma_entries_view_index(errors.entries@, e as int);
            lemma_entries_depth_bound(errors@, e as int);
            assert(errors.entries@.take(e + 1).drop_last() =~= errors.entries@.take(e as int));
        }
        match kind {
            ValidationErrorsKind::Field(failures) => {
                let ghost fv = failures@.map_values(|f: ValidationError| f@);
                let mut j: usize = 0;
                proof {
                    assert(fv.take(0) =~= Seq::<ValidationErrorView>::empty());
                    assert(leaf_entries(fv.take(0), actual_path@, ind as int) =~= Seq::<
                        FlatEntry,
                    >::empty());
                    assert(flat_view(flat@) =~= done + leaf_entries(
                        fv.take(0),
                        actual_path@,
                        ind as int,
                    ));
                }
                while j < failures.len()
                    invariant
                        j <= failures.len(),
                        flat_view(flat@) == done + leaf_entries(
                            fv.take(j as int),
                            actual_path@,
                            ind as int,
                        ),
                    decreases failures.len() - j,
                {
                    let failure = failures[j].clone();
                    let ghost before = flat@;
                    flat.push((ind, actual_path.clone(), failure));
                    proof {
                        assert(fv.take(j + 1) =~= fv.take(j as int).push(fv[j as int]));
                        assert(flat_view(flat@) =~= flat_view(before).push(
                            FlatEntry { indent: ind as int, path: actual_path@, error: fv[j as int] },
                        ));
                        assert(leaf_entries(fv.take(j + 1), actual_path@, ind as int) =~= leaf_entries(
                            fv.take(j as int),
                            actual_path@,
                            ind as int,
                        ).push(
                            FlatEntry { indent: ind as int, path: actual_path@, error: fv[j as int] },
                        ));
                        assert(flat_view(flat@) =~= done + leaf_entries(
                            fv.take(j + 1),
                            actual_path@,
                            ind as int,
                        ));
                    }
                    j = j + 1;
                }
                proof {
                    assert(fv.take(failures@.len() as int) =~= fv);
                    assert(flat_view(flat@) == done + flatten_kind(kv, actual_path@, ind as int));
                }
            },
            ValidationErrorsKind::List(items) => {
                let ghost lv = list_view(items@);
                let mut k: usize = 0;
                proof {
                    assert(items@.take(0) =~= Seq::<(u64, ValidationErrors)>::empty());
                    assert(flatten_list(list_view(items@.take(0)), actual_path@, ind as int) =~= Seq::<
                        FlatEntry,
                    >::empty());
                    assert(flat_view(flat@) =~= done + flatten_list(
                        list_view(items@.take(0)),
                        actual_path@,
                        ind as int,
                    ));
                }
                while k < items.len()
                    invariant
                        k <= items.len(),
                        flat_view(flat@) == done + flatten_list(
                            list_view(items@.take(k as int)),
                            actual_path@,
                            ind as int,
                        ),
                    decreases items.len() - k,
                {
                    let item = &items[k];
                    let index = item.0;
                    let sub_errors = &item.1;
                    let index_string = u64_to_string(index);
                    let child_path = actual_path.clone().concat("[").concat(
                        index_string.as_str(),
                    ).concat("]");
                    let ghost cpv = child_path@;
                    proof {
                        assert(cpv == indexed_path(actual_path@, index as nat));
                        lemma_list_view_index(items@, k as int);
                        lemma_list_depth_bound(lv, k as int);
                        assert(decreases_to!(items@ => items@[k as int]));
                        assert(decreases_to!(*errors => *sub_errors));
                    }
                    let mut sub = flatten_errors(sub_errors, Some(child_path), Some(ind + 1));
                    let ghost subv = sub@;
                    let ghost before = flat@;
                    flat.append(&mut sub);
                    proof {
                        assert(items@.take(k + 1).drop_last() =~= items@.take(k as int));
                        assert(flat_view(flat@) =~= flat_view(before) + flat_view(subv));
                        assert(list_view(items@.take(k + 1)) == list_view(
                            items@.take(k as int),
                        ).push((index as nat, sub_errors@)));
                        assert(list_view(items@.take(k + 1)).drop_last() =~= list_view(
                            items@.take(k as int),
                        ));
                        assert(flat_view(flat@) =~= done + flatten_list(
                            list_view(items@.take(k + 1)),
                            actual_path@,
                            ind as int,
                        ));
                    }
                    k = k + 1;
                }
                proof {
                    assert(items@.take(items@.len() as int) =~= items@);
                    assert(flat_view(flat@) == done + flatten_kind(kv, actual_path@, ind as int));
                }
            },
            ValidationErrorsKind::Struct(inner) => {
                let ghost apv = actual_path@;
                proof {
                    assert(decreases_to!(*errors => *inner));
                }
                let mut sub = flatten_errors(inner, Some(actual_path), Some(ind + 1));
                let ghost subv = sub@;
                let ghost before = flat@;
                flat.append(&mut sub);
                proof {
                    assert(flat_view(flat@) =~= flat_view(before) + flat_view(subv));
                    assert(flat_view(flat@) == done + flatten_kind(kv, apv, ind as int));
                }
            },
        }
        proof {
            assert(entries_view(errors.entries@.take(e + 1)) == entries_view(
                errors.entries@.take(e as int),
            ).push((field@, kv)));
            assert(entries_view(errors.entries@.take(e + 1)).drop_last() =~= entries_view(
                errors.entries@.take(e as int),
            ));
            assert(flat_view(flat@) == flatten_entries(
                entries_view(errors.entries@.take(e + 1)),
                pv,
                ind as int,
            ));
        }
        e = e + 1;
    }
    proof {
        assert(errors.entries@.take(errors.entries@.len() as int) =~= errors.entries@);
    }
    flat
}


/// The failure recorded for a tutor id out of range.
pub open spec fn tutor_range_failure() -> ValidationErrorView {
    ValidationErrorView { code: "range"@, message: Some("100 이하의 값을 입력하세요"@) }
}

/// The failure recorded for a course id out of range.
pub open spec fn course_id_range_failure() -> ValidationErrorView {
    ValidationErrorView { code: "range"@, message: None }
}

/// The failure recorded for a course name that is too short.
pub open spec fn name_length_failure() -> ValidationErrorView {
    ValidationErrorView { code: "length"@, message: Some("3글자 이상 입력하세요"@) }
}

/// The validation outcome of a creation payload: one entry per failing
/// field, in field declaration order.
pub open spec fn course_rule_failures(c: CourseView) -> Seq<(Seq<char>, ErrorsKindView)> {
    let tutor: Seq<(Seq<char>, ErrorsKindView)> = if !(TUTOR_ID_MIN <= c.tutor_id
        <= TUTOR_ID_MAX) {
        seq![("tutor_id"@, ErrorsKindView::Field(seq![tutor_range_failure()]))]
    } else {
        Seq::empty()
    };
    let cid: Seq<(Seq<char>, ErrorsKindView)> = match c.course_id {
        Some(id) => if !(COURSE_ID_MIN <= id <= COURSE_ID_MAX) {
            seq![("course_id"@, ErrorsKindView::Field(seq![course_id_range_failure()]))]
        } else {
            Seq::empty()
        },
        None => Seq::empty(),
    };
    let name: Seq<(Seq<char>, ErrorsKindView)> = if c.course_name.len() < COURSE_NAME_MIN_LEN {
        seq![("course_name"@, ErrorsKindView::Field(seq![name_length_failure()]))]
    } else {
        Seq::empty()
    };
    tutor + cid + name
}

/// Checks a creation payload against the field rules; the outcome is
/// empty exactly when the payload is valid.
pub fn validate_course(course: &Course) -> (outcome: ValidationErrors)
    ensures
        outcome@ == course_rule_failures(course@),
        outcome.entries@.len() == 0 <==> payload_valid(course@),
        entries_depth(outcome@) == 0,
{
    let mut entries: Vec<(String, ValidationErrorsKind)> = Vec::new();
    if course.tutor_id < TUTOR_ID_MIN || course.tutor_id > TUTOR_ID_MAX {
        let failure = ValidationError {
            code: "range".to_owned(),
            message: Some("100 이하의 값을 입력하세요".to_owned()),
        };
        entries.push(("tutor_id".to_owned(), ValidationErrorsKind::Field(vec![failure])));
    }
    match course.course_id {
        Some(id) => {
            if id < COURSE_ID_MIN || id > COURSE_ID_MAX {
                let failure = ValidationError { code: "range".to_owned(), message: None };
                entries.push(
                    ("course_id".to_owned(), ValidationErrorsKind::Field(vec![failure])),
                );
            }
        },
        None => {},
    }
    if course.course_name.as_str().unicode_len() < COURSE_NAME_MIN_LEN {
        let failure = ValidationError {
            code: "length".to_owned(),
            message: Some("3글자 이상 입력하세요".to_owned()),
        };
        entries.push(("course_name".to_owned(), ValidationErrorsKind::Field(vec![failure])));
    }
    let outcome = ValidationErrors { entries };
    proof {
        reveal_with_fuel(entries_view, 5);
        reveal_with_fuel(entries_depth, 5);
        reveal_with_fuel(kind_depth, 2);
        assert(outcome@ =~~= course_rule_failures(course@));
    }
    outcome
}

/// The client-facing line for one flattened failure: the field path,
/// then the failure's message, or its code where no message was given.
pub open spec fn detail_line(entry: FlatEntry) -> Seq<char> {
    entry.path + ": "@ + (match entry.error.message {
        Some(m) => m,
        None => entry.error.code,
    })
}

/// The client-facing lines for a flattened failure list, in order.
pub open spec fn detail_lines(entries: Seq<FlatEntry>) -> Seq<Seq<char>> {
    entries.map_values(|e: FlatEntry| detail_line(e))
}

/// Builds the body of a rejected request: the fixed top-level message
/// and one detail line per flattened failure, in flattening order.
#[verifier::loop_isolation(false)]
pub fn error_handler(errors: &ValidationErrors) -> (response: CustomErrorResponse)
    requires
        entries_depth(errors@) <= u16::MAX,
    ensures
        response.custom_message@ == "Validation error"@,
        response.spec_details() == detail_lines(flatten_entries(errors@, None, 0)),
{
    let flat = flatten_errors(errors, None, None);
    let mut details: Vec<String> = Vec::new();
    proof {
        assert(details.deep_view() =~= detail_lines(flat_view(flat@).take(0)));
    }
    let mut i: usize = 0;
    while i < flat.len()
        invariant
            i <= flat.len(),
            details.deep_view() == detail_lines(flat_view(flat@).take(i as int)),
        decreases flat.len() - i,
    {
        let entry = &flat[i];
        let message: &String = match &entry.2.message {
            Some(m) => m,
            None => &entry.2.code,
        };
        let line = entry.1.clone().concat(": ").concat(message.as_str());
        let ghost before = details.deep_view();
        details.push(line);
        proof {
            assert(details.deep_view() =~= before.push(line@));
            assert(flat_view(flat@).take(i + 1) =~= flat_view(flat@).take(i as int).push(
                flat_view(flat@)[i as int],
            ));
            assert(details.deep_view() =~= detail_lines(flat_view(flat@).take(i + 1)));
        }
        i = i + 1;
    }
    proof {
        assert(flat_view(flat@).take(flat@.len() as int) =~= flat_view(flat@));
    }
    CustomErrorResponse { custom_message: "Validation error".to_owned(), errors: details }
}

} // verus!

