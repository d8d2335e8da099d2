//! The course store: the single source of truth for course records.
//!
//! Courses live in one append-only collection. Within one tutor's
//! courses, `course_id` is assigned sequentially: the record created
//! when the tutor already has `n` courses receives id `n + 1`. That
//! invariant, [`store_wf`], makes the id set of a tutor exactly
//! `{1, ..., n}` and makes a `(tutor_id, course_id)` lookup unique.
//!
//! Callers that serve concurrent requests place the store behind a
//! mutual-exclusion guard; every operation here is sequential and the
//! guard linearizes them.

use vstd::prelude::*;

use crate::errors::EzyTutorError;
use crate::models::{payload_valid, Course, CourseView};

verus! {

/// The records of `s` that belong to `tutor_id`, in insertion order.
pub open spec fn for_tutor(s: Seq<CourseView>, tutor_id: int) -> Seq<CourseView> {
    s.filter(|c: CourseView| c.tutor_id == tutor_id)
}

/// Whether a tutor's records carry ids `1, 2, ...` in order.
pub open spec fn ids_sequential(f: Seq<CourseView>) -> bool {
    forall|i: int| 0 <= i < f.len() ==> (#[trigger] f[i]).course_id == Some(i + 1)
}

/// The store's invariant: every tutor's records carry sequential ids.
pub open spec fn store_wf(s: Seq<CourseView>) -> bool {
    forall|t: int| ids_sequential(#[trigger] for_tutor(s, t))
}

/// The authoritative holder of course records.
pub struct CourseStore {
    courses: Vec<Course>,
}

impl View for CourseStore {
    type V = Seq<CourseView>;

    closed spec fn view(&self) -> Seq<CourseView> {
        self.courses@.map_values(|c: Course| c@)
    }
}

/// Appending a record either extends a tutor's slice by that record or
/// leaves it unchanged, depending on whose record it is: composed with
/// [`CourseStore::create`]'s contract, each create grows exactly its
/// own tutor's slice by one.
pub proof fn lemma_for_tutor_push(s: Seq<CourseView>, t: int, c: CourseView)
    ensures
        for_tutor(s.push(c), t) == if c.tutor_id == t {
            for_tutor(s, t).push(c)
        } else {
            for_tutor(s, t)
        },
{
    reveal(Seq::filter);
    assert(s.push(c).drop_last() =~= s);
}

/// A record of tutor `t` at position `i` of the store stands in the
/// tutor's slice at the position counted among the first `i` records.
proof fn lemma_for_tutor_position(s: Seq<CourseView>, t: int, i: int)
    requires
        0 <= i < s.len(),
        s[i].tutor_id == t,
    ensures
        for_tutor(s.take(i), t).len() < for_tutor(s, t).len(),
        for_tutor(s, t)[for_tutor(s.take(i), t).len() as int] == s[i],
    decreases s.len(),
{
    if i == s.len() - 1 {
        assert(s =~= s.take(i).push(s[i]));
        lemma_for_tutor_push(s.take(i), t, s[i]);
    } else {
        let d = s.drop_last();
        lemma_for_tutor_position(d, t, i);
        assert(d.take(i) =~= s.take(i));
        assert(s =~= d.push(s.last()));
        lemma_for_tutor_push(d, t, s.last());
    }
}

/// Every record of a tutor's slice comes from the store.
proof fn lemma_for_tutor_elem(s: Seq<CourseView>, t: int, p: int)
    requires
        0 <= p < for_tutor(s, t).len(),
    ensures
        exists|i: int|
            0 <= i < s.len() && s[i] == for_tutor(s, t)[p] && s[i].tutor_id == t,
    decreases s.len(),
{
    reveal(Seq::filter);
    if s.len() > 0 {
        let d = s.drop_last();
        assert(s =~= d.push(s.last()));
        lemma_for_tutor_push(d, t, s.last());
        if s.last().tutor_id == t && p == for_tutor(d, t).len() {
            assert(s[s.len() - 1] == for_tutor(s, t)[p]);
        } else {
            lemma_for_tutor_elem(d, t, p);
            let i = choose|i: int|
                0 <= i < d.len() && d[i] == for_tutor(d, t)[p] && d[i].tutor_id == t;
            assert(s[i] == for_tutor(s, t)[p]);
        }
    }
}

/// In a well-formed store, two distinct records of the same tutor
/// never share a course id: a `(tutor_id, course_id)` pair names at
/// most one record.
pub proof fn lemma_course_id_unique(s: Seq<CourseView>, t: int, i: int, j: int)
    requires
        store_wf(s),
        0 <= i < s.len(),
        0 <= j < s.len(),
        i != j,
        s[i].tutor_id == t,
        s[j].tutor_id == t,
    ensures
        s[i].course_id != s[j].course_id,
{
    let lo = if i < j { i } else { j };
    let hi = if i < j { j } else { i };
    lemma_for_tutor_position(s, t, lo);
    lemma_for_tutor_position(s, t, hi);
    let plo = for_tutor(s.take(lo), t).len() as int;
    let phi = for_tutor(s.take(hi), t).len() as int;
    assert(s.take(hi) =~= s.take(lo + 1) + s.subrange(lo + 1, hi));
    Seq::filter_distributes_over_add(
        s.take(lo + 1),
        s.subrange(lo + 1, hi),
        |c: CourseView| c.tutor_id == t,
    );
    assert(s.take(lo + 1) =~= s.take(lo).push(s[lo]));
    lemma_for_tutor_push(s.take(lo), t, s[lo]);
    assert(plo < phi);
    assert(for_tutor(s, t)[plo].course_id == Some(plo + 1));
    assert(for_tutor(s, t)[phi].course_id == Some(phi + 1));
}

/// In a well-formed store, a tutor with `n` courses holds exactly the
/// ids `{1, ..., n}`: a sequence of `n` creates for one tutor, however
/// interleaved with other tutors' creates, yields those ids with no
/// duplicate.
pub proof fn lemma_ids_exactly_count(s: Seq<CourseView>, t: int, k: int)
    requires
        store_wf(s),
    ensures
        (1 <= k <= for_tutor(s, t).len()) <==> exists|i: int|
            0 <= i < s.len() && (#[trigger] s[i]).tutor_id == t && s[i].course_id == Some(k),
{
    if 1 <= k <= for_tutor(s, t).len() {
        lemma_for_tutor_elem(s, t, k - 1);
        let i = choose|i: int|
            0 <= i < s.len() && s[i] == for_tutor(s, t)[k - 1] && s[i].tutor_id == t;
        assert(s[i].course_id == Some(k));
    }
    if exists|i: int|
        0 <= i < s.len() && (#[trigger] s[i]).tutor_id == t && s[i].course_id == Some(k) {
        let i = choose|i: int|
            0 <= i < s.len() && (#[trigger] s[i]).tutor_id == t && s[i].course_id == Some(k);
        lemma_for_tutor_position(s, t, i);
        let p = for_tutor(s.take(i), t).len() as int;
        assert(for_tutor(s, t)[p].course_id == Some(p + 1));
    }
}

/// A tutor's slice holds only that tutor's records.
pub proof fn lemma_for_tutor_only_matching(s: Seq<CourseView>, t: int)
    ensures
        forall|p: int|
            0 <= p < for_tutor(s, t).len() ==> (#[trigger] for_tutor(s, t)[p]).tutor_id == t,
{
    broadcast use vstd::seq_lib::group_filter_ensures;

}

impl CourseStore {
    /// The store's invariant; every operation preserves it.
    pub open spec fn wf(&self) -> bool {
        store_wf(self@)
    }

    /// An empty store.
    pub fn new() -> (store: Self)
        ensures
            store@ == Seq::<CourseView>::empty(),
            store.wf(),
    {
        let store = CourseStore { courses: Vec::new() };
        proof {
            assert(store@ =~= Seq::<CourseView>::empty());
            assert forall|t: int| ids_sequential(#[trigger] for_tutor(store@, t)) by {
                reveal(Seq::filter);
            }
        }
        store
    }

    /// Creates a course: assigns the next sequential id for the
    /// payload's tutor, stamps it with `now`, appends it, and returns
    /// the stored record. The payload's own `course_id` is ignored.
    pub fn create(&mut self, new_course: &Course, now: i64) -> (created: Course)
        requires
            old(self).wf(),
            payload_valid(new_course@),
            for_tutor(old(self)@, new_course@.tutor_id).len() < i32::MAX,
        ensures
            final(self).wf(),
            created@.tutor_id == new_course@.tutor_id,
            created@.course_name == new_course@.course_name,
            created@.course_id == Some(for_tutor(old(self)@, new_course@.tutor_id).len() + 1 as int),
            created@.posted_time == Some(now as int),
            final(self)@ == old(self)@.push(created@),
    {
        let tutor_id = new_course.tutor_id;
        let ghost t = tutor_id as int;
        let mut count: usize = 0;
        let mut i: usize = 0;
        proof {
            assert(self@.take(0) =~= Seq::<CourseView>::empty());
            reveal(Seq::filter);
        }
        while i < self.courses.len()
            invariant
                t == tutor_id as int,
                i <= self.courses.len(),
                count == for_tutor(self@.take(i as int), t).len(),
                count <= i,
                self@.len() == self.courses.len(),
            decreases self.courses.len() - i,
        {
            proof {
                assert(self@.take(i + 1) =~= self@.take(i as int).push(self@[i as int]));
                lemma_for_tutor_push(self@.take(i as int), t, self@[i as int]);
            }
            if self.courses[i].tutor_id == tutor_id {
                count = count + 1;
            }
            i = i + 1;
        }
        proof {
            assert(self@.take(self.courses.len() as int) =~= self@);
        }
        let created = Course {
            tutor_id,
            course_id: Some((count as i32) + 1),
            course_name: new_course.course_name.clone(),
            posted_time: Some(now),
        };
        let stored = created.clone();
        let ghost pre = self@;
        self.courses.push(stored);
        proof {
            assert(self@ =~= pre.push(created@));
            assert forall|u: int| ids_sequential(#[trigger] for_tutor(self@, u)) by {
                lemma_for_tutor_push(pre, u, created@);
            }
        }
        created
    }

    /// Creates a course stamped with the clock's current second.
    pub fn create_now(&mut self, new_course: &Course) -> (created: Course)
        requires
            old(self).wf(),
            payload_valid(new_course@),
            for_tutor(old(self)@, new_course@.tutor_id).len() < i32::MAX,
        ensures
            final(self).wf(),
            created@.tutor_id == new_course@.tutor_id,
            created@.course_name == new_course@.course_name,
            created@.course_id == Some(for_tutor(old(self)@, new_course@.tutor_id).len() + 1 as int),
            created@.posted_time is Some,
            final(self)@ == old(self)@.push(created@),
    {
        let now = now_timestamp();
        self.create(new_course, now)
    }

    /// All courses of `tutor_id`, in insertion order; empty when the
    /// tutor has none.
    pub fn list_for_tutor(&self, tutor_id: i32) -> (courses: Vec<Course>)
        ensures
            courses@.map_values(|c: Course| c@) == for_tutor(self@, tutor_id as int),
    {
        let ghost t = tutor_id as int;
        let mut found: Vec<Course> = Vec::new();
        let mut i: usize = 0;
        proof {
            assert(self@.take(0) =~= Seq::<CourseView>::empty());
            reveal(Seq::filter);
            assert(found@.map_values(|c: Course| c@) =~= for_tutor(self@.take(0), t));
        }
        while i < self.courses.len()
            invariant
                t == tutor_id as int,
                i <= self.courses.len(),
                self@.len() == self.courses.len(),
                found@.map_values(|c: Course| c@) == for_tutor(self@.take(i as int), t),
            decreases self.courses.len() - i,
        {
            proof {
                assert(self@.take(i + 1) =~= self@.take(i as int).push(self@[i as int]));
                lemma_for_tutor_push(self@.take(i as int), t, self@[i as int]);
            }
            let ghost prev = found@;
            if self.courses[i].tutor_id == tutor_id {
                found.push(self.courses[i].clone());
                proof {
                    assert(found@.map_values(|c: Course| c@) =~= prev.map_values(
                        |c: Course| c@,
                    ).push(self@[i as int]));
                }
            }
            i = i + 1;
        }
        proof {
            assert(self@.take(self.courses.len() as int) =~= self@);
        }
        found
    }

    /// The unique course of `tutor_id` with `course_id`, or `NotFount`
    /// when no record matches. Uniqueness of a match is
    /// [`lemma_course_id_unique`].
    pub fn get_one(&self, tutor_id: i32, course_id: i32) -> (found: Result<
        Course,
        EzyTutorError,
    >)
        ensures
            match found {
                Ok(c) => {
                    &&& exists|i: int| 0 <= i < self@.len() && #[trigger] self@[i] == c@
                    &&& c@.tutor_id == tutor_id
                    &&& c@.course_id == Some(course_id as int)
                },
                Err(e) => {
                    &&& e is NotFount
                    &&& e.spec_error_response() == "Course not found"@
                    &&& forall|i: int|
                        0 <= i < self@.len() ==> !((#[trigger] self@[i]).tutor_id == tutor_id
                            && self@[i].course_id == Some(course_id as int))
                },
            },
    {
        let mut i: usize = 0;
        while i < self.courses.len()
            invariant
                i <= self.courses.len(),
                self@.len() == self.courses.len(),
                forall|j: int|
                    0 <= j < i ==> !((#[trigger] self@[j]).tutor_id == tutor_id
                        && self@[j].course_id == Some(course_id as int)),
            decreases self.courses.len() - i,
        {
            proof {
                assert(self@[i as int] == self.courses@[i as int]@);
            }
            let c = &self.courses[i];
            let id_matches = match c.course_id {
                Some(id) => id == course_id,
                None => false,
            };
            if c.tutor_id == tutor_id && id_matches {
                return Ok(c.clone());
            }
            i = i + 1;
        }
        Err(EzyTutorError::NotFount("Course not found".to_owned()))
    }
}

/// Relies on chrono's `Utc::now` and `DateTime::timestamp` for the
/// clock's current second; nothing is promised of the value read.
#[verifier::external_body]
fn now_timestamp() -> i64 {
    chrono::Utc::now().timestamp()
}

} // verus!
