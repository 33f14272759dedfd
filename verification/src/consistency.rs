use crate::catalog::{close_gap, delete_lesson_outcome, id_is, swap_removed};
use crate::contract::{
    course_is, enrollment_is, lesson_is, module_is, quizz_is, ContractView,
};
use crate::models::{CourseView, EnrollmentView, LessonView, ModuleView, QuizzView};
use crate::seqs::{first_where, lemma_first_where, lemma_first_where_push, lemma_first_where_same};
use vstd::prelude::*;

verus! {

impl ContractView {
    /// No two courses, modules, lessons, quizzes or enrollments share an id, and no student
    /// has two enrollments in one course.
    pub open spec fn keys_distinct(self) -> bool {
        &&& forall|i: int, j: int|
            0 <= i < j < self.courses.len() ==> (#[trigger] self.courses[i]).id
                != (#[trigger] self.courses[j]).id
        &&& forall|i: int, j: int|
            0 <= i < j < self.modules.len() ==> (#[trigger] self.modules[i]).id
                != (#[trigger] self.modules[j]).id
        &&& forall|i: int, j: int|
            0 <= i < j < self.lessons.len() ==> (#[trigger] self.lessons[i]).id
                != (#[trigger] self.lessons[j]).id
        &&& forall|i: int, j: int|
            0 <= i < j < self.quizzes.len() ==> (#[trigger] self.quizzes[i]).id
                != (#[trigger] self.quizzes[j]).id
        &&& forall|i: int, j: int|
            0 <= i < j < self.enrollments.len() ==> !((#[trigger] self.enrollments[i]).course_id
                == (#[trigger] self.enrollments[j]).course_id && self.enrollments[i].student_id
                == self.enrollments[j].student_id)
        &&& forall|i: int, j: int|
            0 <= i < j < self.enrollments.len() ==> (#[trigger] self.enrollments[i]).id
                != (#[trigger] self.enrollments[j]).id
    }

    /// Every id counter is above every id that is in use, so the next id is fresh.
    pub open spec fn counters_ahead(self) -> bool {
        &&& forall|i: int|
            0 <= i < self.courses.len() ==> (#[trigger] self.courses[i]).id < self.course_count
        &&& forall|i: int|
            0 <= i < self.modules.len() ==> (#[trigger] self.modules[i]).id < self.module_count
        &&& forall|i: int|
            0 <= i < self.lessons.len() ==> (#[trigger] self.lessons[i]).id < self.lesson_count
        &&& forall|i: int|
            0 <= i < self.quizzes.len() ==> (#[trigger] self.quizzes[i]).id < self.quizz_count
        &&& forall|i: int|
            0 <= i < self.enrollments.len() ==> (#[trigger] self.enrollments[i]).id
                < self.enrollment_count
    }

    /// Every reference from one record to another leads somewhere: the modules listed in a
    /// course, the course of a module, the lessons listed in a module, the quiz of a module,
    /// the module of a lesson, the module of a quiz and the course of an enrollment all exist.
    pub open spec fn links_resolve(self) -> bool {
        &&& forall|c: int, k: int|
            0 <= c < self.courses.len() && 0 <= k < self.courses[c].modules_ids.len()
                ==> self.module(#[trigger] self.courses[c].modules_ids[k]) is Some
        &&& forall|m: int|
            0 <= m < self.modules.len() ==> self.course((#[trigger] self.modules[m]).course_id)
                is Some
        &&& forall|m: int, k: int|
            0 <= m < self.modules.len() && 0 <= k < self.modules[m].lessons_ids.len()
                ==> self.lesson(#[trigger] self.modules[m].lessons_ids[k]) is Some
        &&& forall|m: int|
            0 <= m < self.modules.len() && (#[trigger] self.modules[m]).quizz_id is Some
                ==> self.quizz(self.modules[m].quizz_id.unwrap()) is Some
        &&& forall|l: int|
            0 <= l < self.lessons.len() ==> self.module((#[trigger] self.lessons[l]).module_id)
                is Some
        &&& forall|q: int|
            0 <= q < self.quizzes.len() ==> self.module((#[trigger] self.quizzes[q]).module_id)
                is Some
        &&& forall|e: int|
            0 <= e < self.enrollments.len() ==> self.course(
                (#[trigger] self.enrollments[e]).course_id,
            ) is Some
    }

    /// A module lists exactly its own lessons, each once: every listed lesson says that it
    /// belongs to the module, no id is listed twice, and every stored lesson is listed in
    /// the module it belongs to.
    pub open spec fn lessons_listed_once(self) -> bool {
        &&& forall|m: int, k: int|
            0 <= m < self.modules.len() && 0 <= k < self.modules[m].lessons_ids.len() ==> {
                let l = self.lesson(#[trigger] self.modules[m].lessons_ids[k]);
                l is Some ==> l.unwrap().module_id == self.modules[m].id
            }
        &&& forall|m: int, j: int, k: int|
            0 <= m < self.modules.len() && 0 <= j < k < self.modules[m].lessons_ids.len()
                ==> #[trigger] self.modules[m].lessons_ids[j]
                != #[trigger] self.modules[m].lessons_ids[k]
        &&& forall|l: int|
            0 <= l < self.lessons.len() ==> {
                let m = self.module((#[trigger] self.lessons[l]).module_id);
                m is Some ==> m.unwrap().lessons_ids.contains(self.lessons[l].id)
            }
    }

    /// A course lists its own modules, each once: every listed module says that it belongs
    /// to the course, and no id is listed twice.
    pub open spec fn modules_listed_once(self) -> bool {
        &&& forall|c: int, k: int|
            0 <= c < self.courses.len() && 0 <= k < self.courses[c].modules_ids.len() ==> {
                let m = self.module(#[trigger] self.courses[c].modules_ids[k]);
                m is Some ==> m.unwrap().course_id == self.courses[c].id
            }
        &&& forall|c: int, j: int, k: int|
            0 <= c < self.courses.len() && 0 <= j < k < self.courses[c].modules_ids.len()
                ==> #[trigger] self.courses[c].modules_ids[j]
                != #[trigger] self.courses[c].modules_ids[k]
    }

    /// The quiz of a module says that it belongs to the module.
    pub open spec fn quizzes_point_back(self) -> bool {
        forall|m: int|
            0 <= m < self.modules.len() && (#[trigger] self.modules[m]).quizz_id is Some ==> {
                let q = self.quizz(self.modules[m].quizz_id.unwrap());
                q is Some ==> q.unwrap().module_id == self.modules[m].id
            }
    }

    /// The catalog and the enrollments hang together.
    pub open spec fn consistent(self) -> bool {
        &&& self.keys_distinct()
        &&& self.counters_ahead()
        &&& self.links_resolve()
        &&& self.lessons_listed_once()
        &&& self.modules_listed_once()
        &&& self.quizzes_point_back()
    }
}

/// Whether two states have the same records under the same keys with the same references
/// between them, and the same counters: they may differ in everything else.
pub open spec fn same_links(a: ContractView, b: ContractView) -> bool {
    &&& a.courses.len() == b.courses.len()
    &&& a.modules.len() == b.modules.len()
    &&& a.lessons.len() == b.lessons.len()
    &&& a.quizzes.len() == b.quizzes.len()
    &&& a.enrollments.len() == b.enrollments.len()
    &&& forall|i: int|
        0 <= i < a.courses.len() ==> (#[trigger] a.courses[i]).id == b.courses[i].id
            && a.courses[i].modules_ids == b.courses[i].modules_ids
    &&& forall|i: int|
        0 <= i < a.modules.len() ==> (#[trigger] a.modules[i]).id == b.modules[i].id
            && a.modules[i].course_id == b.modules[i].course_id && a.modules[i].lessons_ids
            == b.modules[i].lessons_ids && a.modules[i].quizz_id == b.modules[i].quizz_id
    &&& forall|i: int|
        0 <= i < a.lessons.len() ==> (#[trigger] a.lessons[i]).id == b.lessons[i].id
            && a.lessons[i].module_id == b.lessons[i].module_id
    &&& forall|i: int|
        0 <= i < a.quizzes.len() ==> (#[trigger] a.quizzes[i]).id == b.quizzes[i].id
            && a.quizzes[i].module_id == b.quizzes[i].module_id
    &&& forall|i: int|
        0 <= i < a.enrollments.len() ==> (#[trigger] a.enrollments[i]).course_id
            == b.enrollments[i].course_id && a.enrollments[i].student_id
            == b.enrollments[i].student_id && a.enrollments[i].id == b.enrollments[i].id
    &&& a.enrollment_count == b.enrollment_count
    &&& a.course_count == b.course_count
    &&& a.module_count == b.module_count
    &&& a.lesson_count == b.lesson_count
    &&& a.quizz_count == b.quizz_count
}

/// In two states with the same links every key leads to the same place.
pub proof fn lemma_same_links_same_lookups(a: ContractView, b: ContractView)
    requires
        same_links(a, b),
    ensures
        forall|id: u64| #[trigger] b.course_pos(id) == a.course_pos(id),
        forall|id: u64| #[trigger] b.module_pos(id) == a.module_pos(id),
        forall|id: u64| #[trigger] b.lesson_pos(id) == a.lesson_pos(id),
        forall|id: u64| #[trigger] b.quizz_pos(id) == a.quizz_pos(id),
        forall|id: u64, student: Seq<char>| #[trigger]
            b.enrollment_pos(id, student) == a.enrollment_pos(id, student),
{
    assert forall|id: u64| #[trigger] b.course_pos(id) == a.course_pos(id) by {
        lemma_first_where_same(b.courses, course_is(id), a.courses, course_is(id));
    }
    assert forall|id: u64| #[trigger] b.module_pos(id) == a.module_pos(id) by {
        lemma_first_where_same(b.modules, module_is(id), a.modules, module_is(id));
    }
    assert forall|id: u64| #[trigger] b.lesson_pos(id) == a.lesson_pos(id) by {
        lemma_first_where_same(b.lessons, lesson_is(id), a.lessons, lesson_is(id));
    }
    assert forall|id: u64| #[trigger] b.quizz_pos(id) == a.quizz_pos(id) by {
        lemma_first_where_same(b.quizzes, quizz_is(id), a.quizzes, quizz_is(id));
    }
    assert forall|id: u64, student: Seq<char>| #[trigger]
        b.enrollment_pos(id, student) == a.enrollment_pos(id, student) by {
        lemma_first_where_same(
            b.enrollments,
            enrollment_is(id, student),
            a.enrollments,
            enrollment_is(id, student),
        );
    }
}

/// Consistency depends on the links alone: a state with the same links as a consistent
/// state is consistent.
#[verifier::rlimit(40)]
pub proof fn lemma_same_links_stay_consistent(a: ContractView, b: ContractView)
    requires
        a.consistent(),
        same_links(a, b),
    ensures
        b.consistent(),
{
    lemma_same_links_same_lookups(a, b);
    lemma_lookups_in_range(a);
    assert(b.keys_distinct()) by {
        assert forall|i: int, j: int| 0 <= i < j < b.courses.len() implies (#[trigger] b.courses[i]).id
            != (#[trigger] b.courses[j]).id by {
            assert(a.courses[i].id != a.courses[j].id);
        }
        assert forall|i: int, j: int| 0 <= i < j < b.modules.len() implies (#[trigger] b.modules[i]).id
            != (#[trigger] b.modules[j]).id by {
            assert(a.modules[i].id != a.modules[j].id);
        }
        assert forall|i: int, j: int| 0 <= i < j < b.lessons.len() implies (#[trigger] b.lessons[i]).id
            != (#[trigger] b.lessons[j]).id by {
            assert(a.lessons[i].id != a.lessons[j].id);
        }
        assert forall|i: int, j: int| 0 <= i < j < b.quizzes.len() implies (#[trigger] b.quizzes[i]).id
            != (#[trigger] b.quizzes[j]).id by {
            assert(a.quizzes[i].id != a.quizzes[j].id);
        }
        assert forall|i: int, j: int| 0 <= i < j < b.enrollments.len() implies !((
        #[trigger] b.enrollments[i]).course_id == (#[trigger] b.enrollments[j]).course_id
            && b.enrollments[i].student_id == b.enrollments[j].student_id) by {
            assert(!(a.enrollments[i].course_id == a.enrollments[j].course_id
                && a.enrollments[i].student_id == a.enrollments[j].student_id));
        }
        assert forall|i: int, j: int| 0 <= i < j < b.enrollments.len() implies (
        #[trigger] b.enrollments[i]).id != (#[trigger] b.enrollments[j]).id by {
            assert(a.enrollments[i].id != a.enrollments[j].id);
        }
    }
    assert(b.counters_ahead()) by {
        assert forall|i: int| 0 <= i < b.courses.len() implies (#[trigger] b.courses[i]).id
            < b.course_count by {
            assert(a.courses[i].id < a.course_count);
        }
        assert forall|i: int| 0 <= i < b.modules.len() implies (#[trigger] b.modules[i]).id
            < b.module_count by {
            assert(a.modules[i].id < a.module_count);
        }
        assert forall|i: int| 0 <= i < b.lessons.len() implies (#[trigger] b.lessons[i]).id
            < b.lesson_count by {
            assert(a.lessons[i].id < a.lesson_count);
        }
        assert forall|i: int| 0 <= i < b.quizzes.len() implies (#[trigger] b.quizzes[i]).id
            < b.quizz_count by {
            assert(a.quizzes[i].id < a.quizz_count);
        }
        assert forall|i: int| 0 <= i < b.enrollments.len() implies (
        #[trigger] b.enrollments[i]).id < b.enrollment_count by {
            assert(a.enrollments[i].id < a.enrollment_count);
        }
    }
    assert(b.links_resolve()) by {
        assert forall|c: int, k: int|
            0 <= c < b.courses.len() && 0 <= k < b.courses[c].modules_ids.len() implies b.module(
            #[trigger] b.courses[c].modules_ids[k],
        ) is Some by {
            assert(a.module(a.courses[c].modules_ids[k]) is Some);
        }
        assert forall|m: int| 0 <= m < b.modules.len() implies b.course(
            (#[trigger] b.modules[m]).course_id,
        ) is Some by {
            assert(a.course(a.modules[m].course_id) is Some);
        }
        assert forall|m: int, k: int|
            0 <= m < b.modules.len() && 0 <= k < b.modules[m].lessons_ids.len() implies b.lesson(
            #[trigger] b.modules[m].lessons_ids[k],
        ) is Some by {
            assert(a.lesson(a.modules[m].lessons_ids[k]) is Some);
        }
        assert forall|m: int|
            0 <= m < b.modules.len() && (#[trigger] b.modules[m]).quizz_id is Some implies b.quizz(
            b.modules[m].quizz_id.unwrap(),
        ) is Some by {
            assert(a.modules[m].quizz_id is Some);
        }
        assert forall|l: int| 0 <= l < b.lessons.len() implies b.module(
            (#[trigger] b.lessons[l]).module_id,
        ) is Some by {
            assert(a.module(a.lessons[l].module_id) is Some);
        }
        assert forall|q: int| 0 <= q < b.quizzes.len() implies b.module(
            (#[trigger] b.quizzes[q]).module_id,
        ) is Some by {
            assert(a.module(a.quizzes[q].module_id) is Some);
        }
        assert forall|e: int| 0 <= e < b.enrollments.len() implies b.course(
            (#[trigger] b.enrollments[e]).course_id,
        ) is Some by {
            assert(a.course(a.enrollments[e].course_id) is Some);
        }
    }
    assert(b.lessons_listed_once()) by {
        assert forall|m: int, k: int|
            0 <= m < b.modules.len() && 0 <= k < b.modules[m].lessons_ids.len() implies {
            let l = b.lesson(#[trigger] b.modules[m].lessons_ids[k]);
            l is Some ==> l.unwrap().module_id == b.modules[m].id
        } by {
            let l = a.lesson(a.modules[m].lessons_ids[k]);
            assert(l is Some ==> l.unwrap().module_id == a.modules[m].id);
        }
        assert forall|m: int, j: int, k: int|
            0 <= m < b.modules.len() && 0 <= j < k < b.modules[m].lessons_ids.len()
                implies #[trigger] b.modules[m].lessons_ids[j]
            != #[trigger] b.modules[m].lessons_ids[k] by {
            assert(a.modules[m].lessons_ids[j] != a.modules[m].lessons_ids[k]);
        }
        assert forall|l: int| 0 <= l < b.lessons.len() implies {
            let m = b.module((#[trigger] b.lessons[l]).module_id);
            m is Some ==> m.unwrap().lessons_ids.contains(b.lessons[l].id)
        } by {
            let m = a.module(a.lessons[l].module_id);
            assert(m is Some ==> m.unwrap().lessons_ids.contains(a.lessons[l].id));
        }
    }
    assert(b.modules_listed_once()) by {
        assert forall|c: int, k: int|
            0 <= c < b.courses.len() && 0 <= k < b.courses[c].modules_ids.len() implies {
            let m = b.module(#[trigger] b.courses[c].modules_ids[k]);
            m is Some ==> m.unwrap().course_id == b.courses[c].id
        } by {
            let m = a.module(a.courses[c].modules_ids[k]);
            assert(m is Some ==> m.unwrap().course_id == a.courses[c].id);
        }
        assert forall|c: int, j: int, k: int|
            0 <= c < b.courses.len() && 0 <= j < k < b.courses[c].modules_ids.len()
                implies #[trigger] b.courses[c].modules_ids[j]
            != #[trigger] b.courses[c].modules_ids[k] by {
            assert(a.courses[c].modules_ids[j] != a.courses[c].modules_ids[k]);
        }
    }
    assert(b.quizzes_point_back()) by {
        assert forall|m: int|
            0 <= m < b.modules.len() && (#[trigger] b.modules[m]).quizz_id is Some implies {
            let q = b.quizz(b.modules[m].quizz_id.unwrap());
            q is Some ==> q.unwrap().module_id == b.modules[m].id
        } by {
            assert(a.modules[m].quizz_id is Some);
            let q = a.quizz(a.modules[m].quizz_id.unwrap());
            assert(q is Some ==> q.unwrap().module_id == a.modules[m].id);
        }
    }
}

/// Whatever a key leads to lies within its collection and carries the key.
pub proof fn lemma_lookups_in_range(st: ContractView)
    ensures
        forall|id: u64| #[trigger]
            st.course_pos(id) is Some ==> 0 <= st.course_pos(id).unwrap() < st.courses.len()
                && st.courses[st.course_pos(id).unwrap()].id == id,
        forall|id: u64| #[trigger]
            st.module_pos(id) is Some ==> 0 <= st.module_pos(id).unwrap() < st.modules.len()
                && st.modules[st.module_pos(id).unwrap()].id == id,
        forall|id: u64| #[trigger]
            st.lesson_pos(id) is Some ==> 0 <= st.lesson_pos(id).unwrap() < st.lessons.len()
                && st.lessons[st.lesson_pos(id).unwrap()].id == id,
        forall|id: u64| #[trigger]
            st.quizz_pos(id) is Some ==> 0 <= st.quizz_pos(id).unwrap() < st.quizzes.len()
                && st.quizzes[st.quizz_pos(id).unwrap()].id == id,
        forall|id: u64, student: Seq<char>| #[trigger]
            st.enrollment_pos(id, student) is Some ==> 0 <= st.enrollment_pos(id, student).unwrap()
                < st.enrollments.len(),
{
    assert forall|id: u64| #[trigger]
        st.course_pos(id) is Some implies 0 <= st.course_pos(id).unwrap() < st.courses.len()
        && st.courses[st.course_pos(id).unwrap()].id == id by {
        lemma_first_where(st.courses, course_is(id));
    }
    assert forall|id: u64| #[trigger]
        st.module_pos(id) is Some implies 0 <= st.module_pos(id).unwrap() < st.modules.len()
        && st.modules[st.module_pos(id).unwrap()].id == id by {
        lemma_first_where(st.modules, module_is(id));
    }
    assert forall|id: u64| #[trigger]
        st.lesson_pos(id) is Some implies 0 <= st.lesson_pos(id).unwrap() < st.lessons.len()
        && st.lessons[st.lesson_pos(id).unwrap()].id == id by {
        lemma_first_where(st.lessons, lesson_is(id));
    }
    assert forall|id: u64| #[trigger]
        st.quizz_pos(id) is Some implies 0 <= st.quizz_pos(id).unwrap() < st.quizzes.len()
        && st.quizzes[st.quizz_pos(id).unwrap()].id == id by {
        lemma_first_where(st.quizzes, quizz_is(id));
    }
    assert forall|id: u64, student: Seq<char>| #[trigger]
        st.enrollment_pos(id, student) is Some implies 0 <= st.enrollment_pos(
        id,
        student,
    ).unwrap() < st.enrollments.len() by {
        lemma_first_where(st.enrollments, enrollment_is(id, student));
    }
}

/// Where keys are distinct, every stored record is the one that its own key names.
pub proof fn lemma_records_are_found(st: ContractView)
    requires
        st.keys_distinct(),
    ensures
        forall|i: int|
            0 <= i < st.courses.len() ==> st.course_pos((#[trigger] st.courses[i]).id) == Some(i),
        forall|i: int|
            0 <= i < st.modules.len() ==> st.module_pos((#[trigger] st.modules[i]).id) == Some(i),
        forall|i: int|
            0 <= i < st.lessons.len() ==> st.lesson_pos((#[trigger] st.lessons[i]).id) == Some(i),
        forall|i: int|
            0 <= i < st.quizzes.len() ==> st.quizz_pos((#[trigger] st.quizzes[i]).id) == Some(i),
        forall|i: int|
            0 <= i < st.enrollments.len() ==> st.enrollment_pos(
                (#[trigger] st.enrollments[i]).course_id,
                st.enrollments[i].student_id,
            ) == Some(i),
{
    assert forall|i: int| 0 <= i < st.courses.len() implies st.course_pos(
        (#[trigger] st.courses[i]).id,
    ) == Some(i) by {
        lemma_first_where(st.courses, course_is(st.courses[i].id));
    }
    assert forall|i: int| 0 <= i < st.modules.len() implies st.module_pos(
        (#[trigger] st.modules[i]).id,
    ) == Some(i) by {
        lemma_first_where(st.modules, module_is(st.modules[i].id));
    }
    assert forall|i: int| 0 <= i < st.lessons.len() implies st.lesson_pos(
        (#[trigger] st.lessons[i]).id,
    ) == Some(i) by {
        lemma_first_where(st.lessons, lesson_is(st.lessons[i].id));
    }
    assert forall|i: int| 0 <= i < st.quizzes.len() implies st.quizz_pos(
        (#[trigger] st.quizzes[i]).id,
    ) == Some(i) by {
        lemma_first_where(st.quizzes, quizz_is(st.quizzes[i].id));
    }
    assert forall|i: int| 0 <= i < st.enrollments.len() implies st.enrollment_pos(
        (#[trigger] st.enrollments[i]).course_id,
        st.enrollments[i].student_id,
    ) == Some(i) by {
        lemma_first_where(
            st.enrollments,
            enrollment_is(st.enrollments[i].course_id, st.enrollments[i].student_id),
        );
    }
}

/// An empty platform is consistent.
pub proof fn lemma_empty_is_consistent(st: ContractView)
    requires
        st.courses.len() == 0,
        st.modules.len() == 0,
        st.lessons.len() == 0,
        st.quizzes.len() == 0,
        st.enrollments.len() == 0,
    ensures
        st.consistent(),
{
}

/// A new course with a fresh id and no modules keeps the platform consistent.
#[verifier::rlimit(40)]
pub proof fn lemma_new_course_keeps_consistent(st: ContractView, course: CourseView)
    requires
        st.consistent(),
        course.id == st.course_count,
        st.course_count < u64::MAX,
        course.modules_ids.len() == 0,
    ensures
        (ContractView {
            courses: st.courses.push(course),
            course_count: (st.course_count + 1) as u64,
            ..st
        }).consistent(),
{
    let after = ContractView {
        courses: st.courses.push(course),
        course_count: (st.course_count + 1) as u64,
        ..st
    };
    assert forall|id: u64| st.course(id) is Some implies #[trigger] after.course(id) is Some by {
        lemma_first_where_push(st.courses, course_is(id), course);
    }
    assert(after.links_resolve()) by {
        assert forall|m: int| 0 <= m < after.modules.len() implies after.course(
            (#[trigger] after.modules[m]).course_id,
        ) is Some by {
            assert(st.course(st.modules[m].course_id) is Some);
        }
        assert forall|e: int| 0 <= e < after.enrollments.len() implies after.course(
            (#[trigger] after.enrollments[e]).course_id,
        ) is Some by {
            assert(st.course(st.enrollments[e].course_id) is Some);
        }
        assert forall|c: int, k: int|
            0 <= c < after.courses.len() && 0 <= k < after.courses[c].modules_ids.len() implies after.module(
            #[trigger] after.courses[c].modules_ids[k],
        ) is Some by {
            assert(c < st.courses.len());
            assert(st.module(st.courses[c].modules_ids[k]) is Some);
        }
    }
    assert(after.modules_listed_once()) by {
        assert forall|c: int, k: int|
            0 <= c < after.courses.len() && 0 <= k < after.courses[c].modules_ids.len() implies {
            let m = after.module(#[trigger] after.courses[c].modules_ids[k]);
            m is Some ==> m.unwrap().course_id == after.courses[c].id
        } by {
            assert(c < st.courses.len());
            let m = st.module(st.courses[c].modules_ids[k]);
            assert(m is Some ==> m.unwrap().course_id == st.courses[c].id);
        }
        assert forall|c: int, j: int, k: int|
            0 <= c < after.courses.len() && 0 <= j < k < after.courses[c].modules_ids.len()
                implies #[trigger] after.courses[c].modules_ids[j]
            != #[trigger] after.courses[c].modules_ids[k] by {
            assert(c < st.courses.len());
            assert(st.courses[c].modules_ids[j] != st.courses[c].modules_ids[k]);
        }
    }
    assert(after.quizzes_point_back()) by {
        assert forall|m: int|
            0 <= m < after.modules.len() && (#[trigger] after.modules[m]).quizz_id is Some implies {
            let q = after.quizz(after.modules[m].quizz_id.unwrap());
            q is Some ==> q.unwrap().module_id == after.modules[m].id
        } by {
            assert(st.modules[m].quizz_id is Some);
            let q = st.quizz(st.modules[m].quizz_id.unwrap());
            assert(q is Some ==> q.unwrap().module_id == st.modules[m].id);
        }
    }
}

/// A new module with a fresh id, no lessons and no quiz, listed at the end of an existing
/// course, keeps the platform consistent.
#[verifier::rlimit(40)]
pub proof fn lemma_new_module_keeps_consistent(st: ContractView, module: ModuleView)
    requires
        st.consistent(),
        st.course_pos(module.course_id) is Some,
        module.id == st.module_count,
        st.module_count < u64::MAX,
        module.lessons_ids.len() == 0,
        module.quizz_id is None,
    ensures
        st.with_module(module).consistent(),
{
    let after = st.with_module(module);
    let c = st.course_pos(module.course_id).unwrap();
    lemma_lookups_in_range(st);
    assert forall|id: u64| #[trigger] after.course_pos(id) == st.course_pos(id) by {
        lemma_first_where_same(after.courses, course_is(id), st.courses, course_is(id));
    }
    assert forall|id: u64| st.module_pos(id) is Some implies #[trigger] after.module_pos(id)
        == st.module_pos(id) by {
        lemma_first_where_push(st.modules, module_is(id), module);
    }
    assert(after.module(module.id) is Some) by {
        lemma_first_where_push(st.modules, module_is(module.id), module);
    }
    assert(after.keys_distinct()) by {
        assert forall|i: int, j: int| 0 <= i < j < after.courses.len() implies (
        #[trigger] after.courses[i]).id != (#[trigger] after.courses[j]).id by {
            assert(st.courses[i].id != st.courses[j].id);
        }
        assert forall|i: int, j: int| 0 <= i < j < after.modules.len() implies (
        #[trigger] after.modules[i]).id != (#[trigger] after.modules[j]).id by {
            assert(st.modules[i].id < st.module_count);
            if j < st.modules.len() {
                assert(st.modules[i].id != st.modules[j].id);
            }
        }
    }
    assert(after.counters_ahead()) by {
        assert forall|i: int| 0 <= i < after.courses.len() implies (#[trigger] after.courses[i]).id
            < after.course_count by {
            assert(st.courses[i].id < st.course_count);
        }
        assert forall|i: int| 0 <= i < after.modules.len() implies (#[trigger] after.modules[i]).id
            < after.module_count by {
            if i < st.modules.len() {
                assert(st.modules[i].id < st.module_count);
            }
        }
    }
    assert(after.links_resolve()) by {
        assert forall|x: int, k: int|
            0 <= x < after.courses.len() && 0 <= k < after.courses[x].modules_ids.len() implies after.module(
            #[trigger] after.courses[x].modules_ids[k],
        ) is Some by {
            if k < st.courses[x].modules_ids.len() {
                assert(st.module(st.courses[x].modules_ids[k]) is Some);
            }
        }
        assert forall|m: int| 0 <= m < after.modules.len() implies after.course(
            (#[trigger] after.modules[m]).course_id,
        ) is Some by {
            if m < st.modules.len() {
                assert(st.course(st.modules[m].course_id) is Some);
            }
        }
        assert forall|m: int, k: int|
            0 <= m < after.modules.len() && 0 <= k < after.modules[m].lessons_ids.len() implies after.lesson(
            #[trigger] after.modules[m].lessons_ids[k],
        ) is Some by {
            assert(st.lesson(st.modules[m].lessons_ids[k]) is Some);
        }
        assert forall|m: int|
            0 <= m < after.modules.len() && (#[trigger] after.modules[m]).quizz_id
                is Some implies after.quizz(after.modules[m].quizz_id.unwrap()) is Some by {
            assert(st.modules[m].quizz_id is Some);
        }
        assert forall|l: int| 0 <= l < after.lessons.len() implies after.module(
            (#[trigger] after.lessons[l]).module_id,
        ) is Some by {
            assert(st.module(st.lessons[l].module_id) is Some);
        }
        assert forall|q: int| 0 <= q < after.quizzes.len() implies after.module(
            (#[trigger] after.quizzes[q]).module_id,
        ) is Some by {
            if q < st.quizzes.len() {
                assert(st.module(st.quizzes[q].module_id) is Some);
            }
        }
        assert forall|e: int| 0 <= e < after.enrollments.len() implies after.course(
            (#[trigger] after.enrollments[e]).course_id,
        ) is Some by {
            assert(st.course(st.enrollments[e].course_id) is Some);
        }
    }
    assert(after.lessons_listed_once()) by {
        assert forall|m: int, k: int|
            0 <= m < after.modules.len() && 0 <= k < after.modules[m].lessons_ids.len() implies {
            let l = after.lesson(#[trigger] after.modules[m].lessons_ids[k]);
            l is Some ==> l.unwrap().module_id == after.modules[m].id
        } by {
            let l = st.lesson(st.modules[m].lessons_ids[k]);
            assert(l is Some ==> l.unwrap().module_id == st.modules[m].id);
        }
        assert forall|m: int, j: int, k: int|
            0 <= m < after.modules.len() && 0 <= j < k < after.modules[m].lessons_ids.len()
                implies #[trigger] after.modules[m].lessons_ids[j]
            != #[trigger] after.modules[m].lessons_ids[k] by {
            assert(st.modules[m].lessons_ids[j] != st.modules[m].lessons_ids[k]);
        }
        assert forall|l: int| 0 <= l < after.lessons.len() implies {
            let m = after.module((#[trigger] after.lessons[l]).module_id);
            m is Some ==> m.unwrap().lessons_ids.contains(after.lessons[l].id)
        } by {
            let m = st.module(st.lessons[l].module_id);
            assert(m is Some);
            assert(m.unwrap().lessons_ids.contains(st.lessons[l].id));
        }
    }
    assert(after.modules_listed_once()) by {
        assert forall|c: int, k: int|
            0 <= c < after.courses.len() && 0 <= k < after.courses[c].modules_ids.len() implies {
            let m = after.module(#[trigger] after.courses[c].modules_ids[k]);
            m is Some ==> m.unwrap().course_id == after.courses[c].id
        } by {
            if k < st.courses[c].modules_ids.len() {
                let m = st.module(st.courses[c].modules_ids[k]);
                assert(m is Some);
                assert(m.unwrap().course_id == st.courses[c].id);
            } else {
                assert(st.module_pos(module.id) is None);
                lemma_first_where_push(st.modules, module_is(module.id), module);
                assert(after.module(module.id) == Some(module));
            }
        }
        assert forall|c: int, j: int, k: int|
            0 <= c < after.courses.len() && 0 <= j < k < after.courses[c].modules_ids.len()
                implies #[trigger] after.courses[c].modules_ids[j]
            != #[trigger] after.courses[c].modules_ids[k] by {
            if k < st.courses[c].modules_ids.len() {
                assert(st.courses[c].modules_ids[j] != st.courses[c].modules_ids[k]);
            } else {
                assert(st.module(st.courses[c].modules_ids[j]) is Some);
            }
        }
    }
    assert(after.quizzes_point_back()) by {
        assert forall|m: int|
            0 <= m < after.modules.len() && (#[trigger] after.modules[m]).quizz_id is Some implies {
            let q = after.quizz(after.modules[m].quizz_id.unwrap());
            q is Some ==> q.unwrap().module_id == after.modules[m].id
        } by {
            if m < st.modules.len() {
                assert(st.modules[m].quizz_id is Some);
                let q = st.quizz(st.modules[m].quizz_id.unwrap());
                assert(q is Some ==> q.unwrap().module_id == st.modules[m].id);
            }
        }
    }
}

/// A new lesson with a fresh id, listed at the end of the module that it names, keeps the
/// platform consistent.
#[verifier::rlimit(40)]
pub proof fn lemma_new_lesson_keeps_consistent(st: ContractView, lesson: LessonView)
    requires
        st.consistent(),
        st.module_pos(lesson.module_id) is Some,
        lesson.id == st.lesson_count,
        st.lesson_count < u64::MAX,
    ensures
        st.with_lesson(lesson).consistent(),
{
    let after = st.with_lesson(lesson);
    let m0 = st.module_pos(lesson.module_id).unwrap();
    lemma_lookups_in_range(st);
    lemma_records_are_found(st);
    assert forall|id: u64| #[trigger] after.module_pos(id) == st.module_pos(id) by {
        lemma_first_where_same(after.modules, module_is(id), st.modules, module_is(id));
    }
    assert forall|id: u64| st.lesson_pos(id) is Some implies #[trigger] after.lesson_pos(id)
        == st.lesson_pos(id) by {
        lemma_first_where_push(st.lessons, lesson_is(id), lesson);
    }
    assert(st.lesson_pos(lesson.id) is None);
    assert(after.lesson_pos(lesson.id) == Some(st.lessons.len() as int)) by {
        lemma_first_where_push(st.lessons, lesson_is(lesson.id), lesson);
    }
    assert(after.keys_distinct()) by {
        assert forall|i: int, j: int| 0 <= i < j < after.modules.len() implies (
        #[trigger] after.modules[i]).id != (#[trigger] after.modules[j]).id by {
            assert(st.modules[i].id != st.modules[j].id);
        }
        assert forall|i: int, j: int| 0 <= i < j < after.lessons.len() implies (
        #[trigger] after.lessons[i]).id != (#[trigger] after.lessons[j]).id by {
            assert(st.lessons[i].id < st.lesson_count);
            if j < st.lessons.len() {
                assert(st.lessons[i].id != st.lessons[j].id);
            }
        }
    }
    assert(after.counters_ahead()) by {
        assert forall|i: int| 0 <= i < after.modules.len() implies (#[trigger] after.modules[i]).id
            < after.module_count by {
            assert(st.modules[i].id < st.module_count);
        }
        assert forall|i: int| 0 <= i < after.lessons.len() implies (#[trigger] after.lessons[i]).id
            < after.lesson_count by {
            if i < st.lessons.len() {
                assert(st.lessons[i].id < st.lesson_count);
            }
        }
    }
    assert(after.links_resolve()) by {
        assert forall|x: int, k: int|
            0 <= x < after.courses.len() && 0 <= k < after.courses[x].modules_ids.len() implies after.module(
            #[trigger] after.courses[x].modules_ids[k],
        ) is Some by {
            assert(st.module(st.courses[x].modules_ids[k]) is Some);
        }
        assert forall|m: int| 0 <= m < after.modules.len() implies after.course(
            (#[trigger] after.modules[m]).course_id,
        ) is Some by {
            assert(st.course(st.modules[m].course_id) is Some);
        }
        assert forall|m: int, k: int|
            0 <= m < after.modules.len() && 0 <= k < after.modules[m].lessons_ids.len() implies after.lesson(
            #[trigger] after.modules[m].lessons_ids[k],
        ) is Some by {
            if k < st.modules[m].lessons_ids.len() {
                assert(st.lesson(st.modules[m].lessons_ids[k]) is Some);
            }
        }
        assert forall|m: int|
            0 <= m < after.modules.len() && (#[trigger] after.modules[m]).quizz_id
                is Some implies after.quizz(after.modules[m].quizz_id.unwrap()) is Some by {
            assert(st.modules[m].quizz_id is Some);
        }
        assert forall|l: int| 0 <= l < after.lessons.len() implies after.module(
            (#[trigger] after.lessons[l]).module_id,
        ) is Some by {
            if l < st.lessons.len() {
                assert(st.module(st.lessons[l].module_id) is Some);
            }
        }
        assert forall|q: int| 0 <= q < after.quizzes.len() implies after.module(
            (#[trigger] after.quizzes[q]).module_id,
        ) is Some by {
            if q < st.quizzes.len() {
                assert(st.module(st.quizzes[q].module_id) is Some);
            }
        }
    }
    assert(after.lessons_listed_once()) by {
        assert forall|m: int, k: int|
            0 <= m < after.modules.len() && 0 <= k < after.modules[m].lessons_ids.len() implies {
            let l = after.lesson(#[trigger] after.modules[m].lessons_ids[k]);
            l is Some ==> l.unwrap().module_id == after.modules[m].id
        } by {
            if k < st.modules[m].lessons_ids.len() {
                let l = st.lesson(st.modules[m].lessons_ids[k]);
                assert(l is Some);
                assert(l.unwrap().module_id == st.modules[m].id);
            }
        }
        assert forall|m: int, j: int, k: int|
            0 <= m < after.modules.len() && 0 <= j < k < after.modules[m].lessons_ids.len()
                implies #[trigger] after.modules[m].lessons_ids[j]
            != #[trigger] after.modules[m].lessons_ids[k] by {
            if k < st.modules[m].lessons_ids.len() {
                assert(st.modules[m].lessons_ids[j] != st.modules[m].lessons_ids[k]);
            } else {
                assert(st.lesson(st.modules[m].lessons_ids[j]) is Some);
            }
        }
        assert forall|l: int| 0 <= l < after.lessons.len() implies {
            let m = after.module((#[trigger] after.lessons[l]).module_id);
            m is Some ==> m.unwrap().lessons_ids.contains(after.lessons[l].id)
        } by {
            if l < st.lessons.len() {
                let m = st.module(st.lessons[l].module_id);
                assert(m is Some);
                let k = choose|k: int|
                    0 <= k < m.unwrap().lessons_ids.len() && m.unwrap().lessons_ids[k]
                        == st.lessons[l].id;
                let mm = after.module(after.lessons[l].module_id).unwrap();
                assert(mm.lessons_ids[k] == st.lessons[l].id);
            } else {
                let mm = after.modules[m0];
                assert(mm.lessons_ids[mm.lessons_ids.len() - 1] == lesson.id);
            }
        }
    }
    assert(after.modules_listed_once()) by {
        assert forall|c: int, k: int|
            0 <= c < after.courses.len() && 0 <= k < after.courses[c].modules_ids.len() implies {
            let m = after.module(#[trigger] after.courses[c].modules_ids[k]);
            m is Some ==> m.unwrap().course_id == after.courses[c].id
        } by {
            let m = st.module(st.courses[c].modules_ids[k]);
            assert(m is Some ==> m.unwrap().course_id == st.courses[c].id);
        }
        assert forall|c: int, j: int, k: int|
            0 <= c < after.courses.len() && 0 <= j < k < after.courses[c].modules_ids.len()
                implies #[trigger] after.courses[c].modules_ids[j]
            != #[trigger] after.courses[c].modules_ids[k] by {
            assert(st.courses[c].modules_ids[j] != st.courses[c].modules_ids[k]);
        }
    }
    assert(after.quizzes_point_back()) by {
        assert forall|m: int|
            0 <= m < after.modules.len() && (#[trigger] after.modules[m]).quizz_id is Some implies {
            let q = after.quizz(after.modules[m].quizz_id.unwrap());
            q is Some ==> q.unwrap().module_id == after.modules[m].id
        } by {
            assert(st.modules[m].quizz_id is Some);
            let q = st.quizz(st.modules[m].quizz_id.unwrap());
            assert(q is Some ==> q.unwrap().module_id == st.modules[m].id);
        }
    }
}

/// A new quiz with a fresh id, made the quiz of an existing module, keeps the platform
/// consistent.
#[verifier::rlimit(40)]
pub proof fn lemma_new_quizz_keeps_consistent(st: ContractView, quizz: QuizzView)
    requires
        st.consistent(),
        st.module_pos(quizz.module_id) is Some,
        quizz.id == st.quizz_count,
        st.quizz_count < u64::MAX,
    ensures
        (ContractView {
            quizzes: st.quizzes.push(quizz),
            modules: st.modules.update(
                st.module_pos(quizz.module_id).unwrap(),
                ModuleView {
                    quizz_id: Some(quizz.id),
                    ..st.modules[st.module_pos(quizz.module_id).unwrap()]
                },
            ),
            quizz_count: (st.quizz_count + 1) as u64,
            ..st
        }).consistent(),
{
    let m0 = st.module_pos(quizz.module_id).unwrap();
    let after = ContractView {
        quizzes: st.quizzes.push(quizz),
        modules: st.modules.update(m0, ModuleView { quizz_id: Some(quizz.id), ..st.modules[m0] }),
        quizz_count: (st.quizz_count + 1) as u64,
        ..st
    };
    lemma_lookups_in_range(st);
    assert forall|id: u64| #[trigger] after.module_pos(id) == st.module_pos(id) by {
        lemma_first_where_same(after.modules, module_is(id), st.modules, module_is(id));
    }
    assert forall|id: u64| st.quizz_pos(id) is Some implies #[trigger] after.quizz_pos(id)
        == st.quizz_pos(id) by {
        lemma_first_where_push(st.quizzes, quizz_is(id), quizz);
    }
    assert(after.quizz_pos(quizz.id) is Some) by {
        lemma_first_where_push(st.quizzes, quizz_is(quizz.id), quizz);
    }
    assert(after.keys_distinct()) by {
        assert forall|i: int, j: int| 0 <= i < j < after.modules.len() implies (
        #[trigger] after.modules[i]).id != (#[trigger] after.modules[j]).id by {
            assert(st.modules[i].id != st.modules[j].id);
        }
        assert forall|i: int, j: int| 0 <= i < j < after.quizzes.len() implies (
        #[trigger] after.quizzes[i]).id != (#[trigger] after.quizzes[j]).id by {
            assert(st.quizzes[i].id < st.quizz_count);
            if j < st.quizzes.len() {
                assert(st.quizzes[i].id != st.quizzes[j].id);
            }
        }
    }
    assert(after.counters_ahead()) by {
        assert forall|i: int| 0 <= i < after.modules.len() implies (#[trigger] after.modules[i]).id
            < after.module_count by {
            assert(st.modules[i].id < st.module_count);
        }
        assert forall|i: int| 0 <= i < after.quizzes.len() implies (#[trigger] after.quizzes[i]).id
            < after.quizz_count by {
            if i < st.quizzes.len() {
                assert(st.quizzes[i].id < st.quizz_count);
            }
        }
    }
    assert(after.links_resolve()) by {
        assert forall|x: int, k: int|
            0 <= x < after.courses.len() && 0 <= k < after.courses[x].modules_ids.len() implies after.module(
            #[trigger] after.courses[x].modules_ids[k],
        ) is Some by {
            assert(st.module(st.courses[x].modules_ids[k]) is Some);
        }
        assert forall|m: int| 0 <= m < after.modules.len() implies after.course(
            (#[trigger] after.modules[m]).course_id,
        ) is Some by {
            assert(st.course(st.modules[m].course_id) is Some);
        }
        assert forall|m: int, k: int|
            0 <= m < after.modules.len() && 0 <= k < after.modules[m].lessons_ids.len() implies after.lesson(
            #[trigger] after.modules[m].lessons_ids[k],
        ) is Some by {
            assert(st.lesson(st.modules[m].lessons_ids[k]) is Some);
        }
        assert forall|m: int|
            0 <= m < after.modules.len() && (#[trigger] after.modules[m]).quizz_id
                is Some implies after.quizz(after.modules[m].quizz_id.unwrap()) is Some by {
            if m != m0 {
                assert(st.modules[m].quizz_id is Some);
            }
        }
        assert forall|l: int| 0 <= l < after.lessons.len() implies after.module(
            (#[trigger] after.lessons[l]).module_id,
        ) is Some by {
            assert(st.module(st.lessons[l].module_id) is Some);
        }
        assert forall|q: int| 0 <= q < after.quizzes.len() implies after.module(
            (#[trigger] after.quizzes[q]).module_id,
        ) is Some by {
            if q < st.quizzes.len() {
                assert(st.module(st.quizzes[q].module_id) is Some);
            }
        }
    }
    assert(after.lessons_listed_once()) by {
        assert forall|m: int, k: int|
            0 <= m < after.modules.len() && 0 <= k < after.modules[m].lessons_ids.len() implies {
            let l = after.lesson(#[trigger] after.modules[m].lessons_ids[k]);
            l is Some ==> l.unwrap().module_id == after.modules[m].id
        } by {
            let l = st.lesson(st.modules[m].lessons_ids[k]);
            assert(l is Some ==> l.unwrap().module_id == st.modules[m].id);
        }
        assert forall|m: int, j: int, k: int|
            0 <= m < after.modules.len() && 0 <= j < k < after.modules[m].lessons_ids.len()
                implies #[trigger] after.modules[m].lessons_ids[j]
            != #[trigger] after.modules[m].lessons_ids[k] by {
            assert(st.modules[m].lessons_ids[j] != st.modules[m].lessons_ids[k]);
        }
        assert forall|l: int| 0 <= l < after.lessons.len() implies {
            let m = after.module((#[trigger] after.lessons[l]).module_id);
            m is Some ==> m.unwrap().lessons_ids.contains(after.lessons[l].id)
        } by {
            let m = st.module(st.lessons[l].module_id);
            assert(m is Some ==> m.unwrap().lessons_ids.contains(st.lessons[l].id));
        }
    }
    assert(after.modules_listed_once()) by {
        assert forall|c: int, k: int|
            0 <= c < after.courses.len() && 0 <= k < after.courses[c].modules_ids.len() implies {
            let m = after.module(#[trigger] after.courses[c].modules_ids[k]);
            m is Some ==> m.unwrap().course_id == after.courses[c].id
        } by {
            let m = st.module(st.courses[c].modules_ids[k]);
            assert(m is Some ==> m.unwrap().course_id == st.courses[c].id);
        }
        assert forall|c: int, j: int, k: int|
            0 <= c < after.courses.len() && 0 <= j < k < after.courses[c].modules_ids.len()
                implies #[trigger] after.courses[c].modules_ids[j]
            != #[trigger] after.courses[c].modules_ids[k] by {
            assert(st.courses[c].modules_ids[j] != st.courses[c].modules_ids[k]);
        }
    }
    assert(after.quizzes_point_back()) by {
        assert forall|m: int|
            0 <= m < after.modules.len() && (#[trigger] after.modules[m]).quizz_id is Some implies {
            let q = after.quizz(after.modules[m].quizz_id.unwrap());
            q is Some ==> q.unwrap().module_id == after.modules[m].id
        } by {
            if m != m0 {
                assert(st.modules[m].quizz_id is Some);
                let q = st.quizz(st.modules[m].quizz_id.unwrap());
                assert(q is Some);
                assert(q.unwrap().module_id == st.modules[m].id);
            } else {
                assert(st.quizz_pos(quizz.id) is None);
                lemma_first_where_push(st.quizzes, quizz_is(quizz.id), quizz);
                assert(after.quizz(quizz.id) == Some(quizz));
            }
        }
    }
}

/// A new enrollment with a fresh id in an existing course, for a student who has none in
/// it, keeps the platform consistent.
#[verifier::rlimit(40)]
pub proof fn lemma_new_enrollment_keeps_consistent(st: ContractView, enrollment: EnrollmentView)
    requires
        st.consistent(),
        st.course(enrollment.course_id) is Some,
        st.enrollment(enrollment.course_id, enrollment.student_id) is None,
        enrollment.id == st.enrollment_count,
        st.enrollment_count < u64::MAX,
    ensures
        (ContractView {
            enrollments: st.enrollments.push(enrollment),
            enrollment_count: (st.enrollment_count + 1) as u64,
            ..st
        }).consistent(),
{
    let after = ContractView {
        enrollments: st.enrollments.push(enrollment),
        enrollment_count: (st.enrollment_count + 1) as u64,
        ..st
    };
    lemma_first_where(
        st.enrollments,
        enrollment_is(enrollment.course_id, enrollment.student_id),
    );
    assert(after.keys_distinct()) by {
        assert forall|i: int, j: int| 0 <= i < j < after.enrollments.len() implies !((
        #[trigger] after.enrollments[i]).course_id == (#[trigger] after.enrollments[j]).course_id
            && after.enrollments[i].student_id == after.enrollments[j].student_id) by {
            if j < st.enrollments.len() {
                assert(!(st.enrollments[i].course_id == st.enrollments[j].course_id
                    && st.enrollments[i].student_id == st.enrollments[j].student_id));
            } else {
                assert(!enrollment_is(enrollment.course_id, enrollment.student_id)(
                    st.enrollments[i],
                ));
            }
        }
        assert forall|i: int, j: int| 0 <= i < j < after.enrollments.len() implies (
        #[trigger] after.enrollments[i]).id != (#[trigger] after.enrollments[j]).id by {
            assert(st.enrollments[i].id < st.enrollment_count);
            if j < st.enrollments.len() {
                assert(st.enrollments[i].id != st.enrollments[j].id);
            }
        }
    }
    assert(after.counters_ahead()) by {
        assert forall|i: int| 0 <= i < after.enrollments.len() implies (
        #[trigger] after.enrollments[i]).id < after.enrollment_count by {
            if i < st.enrollments.len() {
                assert(st.enrollments[i].id < st.enrollment_count);
            }
        }
    }
    assert(after.links_resolve()) by {
        assert forall|e: int| 0 <= e < after.enrollments.len() implies after.course(
            (#[trigger] after.enrollments[e]).course_id,
        ) is Some by {
            if e < st.enrollments.len() {
                assert(st.course(st.enrollments[e].course_id) is Some);
            }
        }
    }
    assert(after.modules_listed_once()) by {
        assert forall|c: int, k: int|
            0 <= c < after.courses.len() && 0 <= k < after.courses[c].modules_ids.len() implies {
            let m = after.module(#[trigger] after.courses[c].modules_ids[k]);
            m is Some ==> m.unwrap().course_id == after.courses[c].id
        } by {
            let m = st.module(st.courses[c].modules_ids[k]);
            assert(m is Some ==> m.unwrap().course_id == st.courses[c].id);
        }
        assert forall|c: int, j: int, k: int|
            0 <= c < after.courses.len() && 0 <= j < k < after.courses[c].modules_ids.len()
                implies #[trigger] after.courses[c].modules_ids[j]
            != #[trigger] after.courses[c].modules_ids[k] by {
            assert(st.courses[c].modules_ids[j] != st.courses[c].modules_ids[k]);
        }
    }
    assert(after.quizzes_point_back()) by {
        assert forall|m: int|
            0 <= m < after.modules.len() && (#[trigger] after.modules[m]).quizz_id is Some implies {
            let q = after.quizz(after.modules[m].quizz_id.unwrap());
            q is Some ==> q.unwrap().module_id == after.modules[m].id
        } by {
            assert(st.modules[m].quizz_id is Some);
            let q = st.quizz(st.modules[m].quizz_id.unwrap());
            assert(q is Some ==> q.unwrap().module_id == st.modules[m].id);
        }
    }
}

/// Taking an enrollment out keeps the platform consistent.
#[verifier::rlimit(40)]
pub proof fn lemma_enrollment_removal_keeps_consistent(st: ContractView, e: int)
    requires
        st.consistent(),
        0 <= e < st.enrollments.len(),
    ensures
        (ContractView { enrollments: swap_removed(st.enrollments, e), ..st }).consistent(),
{
    let after = ContractView { enrollments: swap_removed(st.enrollments, e), ..st };
    let last = st.enrollments.len() - 1;
    assert(after.keys_distinct()) by {
        assert forall|i: int, j: int| 0 <= i < j < after.enrollments.len() implies !((
        #[trigger] after.enrollments[i]).course_id == (#[trigger] after.enrollments[j]).course_id
            && after.enrollments[i].student_id == after.enrollments[j].student_id) by {
            let si = if i == e {
                last
            } else {
                i
            };
            let sj = if j == e {
                last
            } else {
                j
            };
            assert(after.enrollments[i] == st.enrollments[si]);
            assert(after.enrollments[j] == st.enrollments[sj]);
            if si < sj {
                assert(!(st.enrollments[si].course_id == st.enrollments[sj].course_id
                    && st.enrollments[si].student_id == st.enrollments[sj].student_id));
            } else {
                assert(!(st.enrollments[sj].course_id == st.enrollments[si].course_id
                    && st.enrollments[sj].student_id == st.enrollments[si].student_id));
            }
        }
        assert forall|i: int, j: int| 0 <= i < j < after.enrollments.len() implies (
        #[trigger] after.enrollments[i]).id != (#[trigger] after.enrollments[j]).id by {
            let si = stored_before(i, e, last);
            let sj = stored_before(j, e, last);
            assert(after.enrollments[i] == st.enrollments[si]);
            assert(after.enrollments[j] == st.enrollments[sj]);
            if si < sj {
                assert(st.enrollments[si].id != st.enrollments[sj].id);
            } else {
                assert(st.enrollments[sj].id != st.enrollments[si].id);
            }
        }
    }
    assert(after.counters_ahead()) by {
        assert forall|i: int| 0 <= i < after.enrollments.len() implies (
        #[trigger] after.enrollments[i]).id < after.enrollment_count by {
            let si = stored_before(i, e, last);
            assert(after.enrollments[i] == st.enrollments[si]);
            assert(st.enrollments[si].id < st.enrollment_count);
        }
    }
    assert(after.links_resolve()) by {
        assert forall|x: int| 0 <= x < after.enrollments.len() implies after.course(
            (#[trigger] after.enrollments[x]).course_id,
        ) is Some by {
            let sx = if x == e {
                last
            } else {
                x
            };
            assert(after.enrollments[x] == st.enrollments[sx]);
            assert(st.course(st.enrollments[sx].course_id) is Some);
        }
    }
    assert(after.modules_listed_once()) by {
        assert forall|c: int, k: int|
            0 <= c < after.courses.len() && 0 <= k < after.courses[c].modules_ids.len() implies {
            let m = after.module(#[trigger] after.courses[c].modules_ids[k]);
            m is Some ==> m.unwrap().course_id == after.courses[c].id
        } by {
            let m = st.module(st.courses[c].modules_ids[k]);
            assert(m is Some ==> m.unwrap().course_id == st.courses[c].id);
        }
        assert forall|c: int, j: int, k: int|
            0 <= c < after.courses.len() && 0 <= j < k < after.courses[c].modules_ids.len()
                implies #[trigger] after.courses[c].modules_ids[j]
            != #[trigger] after.courses[c].modules_ids[k] by {
            assert(st.courses[c].modules_ids[j] != st.courses[c].modules_ids[k]);
        }
    }
    assert(after.quizzes_point_back()) by {
        assert forall|m: int|
            0 <= m < after.modules.len() && (#[trigger] after.modules[m]).quizz_id is Some implies {
            let q = after.quizz(after.modules[m].quizz_id.unwrap());
            q is Some ==> q.unwrap().module_id == after.modules[m].id
        } by {
            assert(st.modules[m].quizz_id is Some);
            let q = st.quizz(st.modules[m].quizz_id.unwrap());
            assert(q is Some ==> q.unwrap().module_id == st.modules[m].id);
        }
    }
}

/// Where the lesson now stored at `i` was stored before the lesson at `l` was taken out
/// and the last one moved into its place.
pub open spec fn stored_before(i: int, l: int, last: int) -> int {
    if i == l {
        last
    } else {
        i
    }
}

/// What a successful deletion does to the lessons and the lists: every lesson that stays
/// is one that was there, under the same id and in the same module; every other lesson
/// is still found; and no list names the deleted lesson any more.
#[verifier::rlimit(40)]
pub proof fn lemma_deletion_shape(st: ContractView, caller: Seq<char>, lesson_id: u64)
    requires
        st.consistent(),
        delete_lesson_outcome(st, caller, lesson_id) is Ok,
    ensures
        ({
            let after = delete_lesson_outcome(st, caller, lesson_id).unwrap();
            let l = st.lesson_pos(lesson_id).unwrap();
            let m = st.module_pos(st.lessons[l].module_id).unwrap();
            let last = st.lessons.len() - 1;
            &&& 0 <= l <= last
            &&& 0 <= m < st.modules.len()
            &&& after.lessons.len() == last
            &&& after.modules.len() == st.modules.len()
            &&& after.courses == st.courses
            &&& after.quizzes == st.quizzes
            &&& after.enrollments == st.enrollments
            &&& after.course_count == st.course_count
            &&& after.module_count == st.module_count
            &&& after.lesson_count == st.lesson_count
            &&& after.quizz_count == st.quizz_count
            &&& forall|x: int|
                0 <= x < st.modules.len() ==> (#[trigger] after.modules[x]).id == st.modules[x].id
                    && after.modules[x].course_id == st.modules[x].course_id
                    && after.modules[x].quizz_id == st.modules[x].quizz_id && (x != m
                    ==> after.modules[x].lessons_ids == st.modules[x].lessons_ids)
            &&& forall|i: int|
                0 <= i < last ==> {
                    let p = stored_before(i, l, last);
                    &&& p != l
                    &&& 0 <= p <= last
                    &&& (#[trigger] after.lessons[i]).id == st.lessons[p].id
                    &&& after.lessons[i].module_id == st.lessons[p].module_id
                    &&& after.lessons[i].id != lesson_id
                }
            &&& forall|id: u64| #[trigger] after.module_pos(id) == st.module_pos(id)
            &&& forall|x: u64|
                x != lesson_id && st.lesson(x) is Some ==> #[trigger] after.lesson(x) is Some
                    && after.lesson(x).unwrap().module_id == st.lesson(x).unwrap().module_id
            &&& forall|x: int, k: int|
                0 <= x < after.modules.len() && 0 <= k < after.modules[x].lessons_ids.len() ==> {
                    let id = #[trigger] after.modules[x].lessons_ids[k];
                    &&& id != lesson_id
                    &&& st.lesson(id) is Some
                    &&& st.lesson(id).unwrap().module_id == st.modules[x].id
                    &&& st.modules[x].lessons_ids.contains(id)
                }
            &&& forall|x: int, j: int, k: int|
                0 <= x < after.modules.len() && 0 <= j < k < after.modules[x].lessons_ids.len()
                    ==> #[trigger] after.modules[x].lessons_ids[j]
                    != #[trigger] after.modules[x].lessons_ids[k]
            &&& forall|x: int, id: u64|
                0 <= x < st.modules.len() && id != lesson_id
                    && st.modules[x].lessons_ids.contains(id) ==> #[trigger] after.modules[x].lessons_ids.contains(
                    id,
                )
        }),
{
    let after = delete_lesson_outcome(st, caller, lesson_id).unwrap();
    let l = st.lesson_pos(lesson_id).unwrap();
    let gone = st.lessons[l];
    let m = st.module_pos(gone.module_id).unwrap();
    let list = st.modules[m].lessons_ids;
    let k0 = first_where(list, id_is(lesson_id)).unwrap();
    let siblings = list.remove(k0);
    let gapped = close_gap(st.lessons, siblings, gone.order);
    let last = st.lessons.len() - 1;
    lemma_lookups_in_range(st);
    lemma_records_are_found(st);
    lemma_first_where(list, id_is(lesson_id));
    assert(list[k0] == lesson_id);
    assert(after.lessons.len() == last);
    assert forall|i: int| 0 <= i < last implies {
        let p = stored_before(i, l, last);
        &&& p != l
        &&& 0 <= p <= last
        &&& (#[trigger] after.lessons[i]).id == st.lessons[p].id
        &&& after.lessons[i].module_id == st.lessons[p].module_id
        &&& after.lessons[i].id != lesson_id
    } by {
        let p = stored_before(i, l, last);
        assert(after.lessons[i] == gapped[p]);
        if p < l {
            assert(st.lessons[p].id != st.lessons[l].id);
        } else {
            assert(st.lessons[l].id != st.lessons[p].id);
        }
    }
    assert forall|id: u64| #[trigger] after.module_pos(id) == st.module_pos(id) by {
        lemma_first_where_same(after.modules, module_is(id), st.modules, module_is(id));
    }
    assert forall|x: u64| x != lesson_id && st.lesson(x) is Some implies #[trigger] after.lesson(
        x,
    ) is Some && after.lesson(x).unwrap().module_id == st.lesson(x).unwrap().module_id by {
        let p = st.lesson_pos(x).unwrap();
        let i = if p == last {
            l
        } else {
            p
        };
        assert(stored_before(i, l, last) == p);
        assert(after.lessons[i].id == x);
        lemma_first_where(after.lessons, lesson_is(x));
        let q = after.lesson_pos(x).unwrap();
        let pq = stored_before(q, l, last);
        assert(after.lessons[q].id == st.lessons[pq].id);
        assert(st.lesson_pos(st.lessons[pq].id) == Some(pq));
    }
    assert forall|x: int, k: int|
        0 <= x < after.modules.len() && 0 <= k < after.modules[x].lessons_ids.len() implies {
        let id = #[trigger] after.modules[x].lessons_ids[k];
        &&& id != lesson_id
        &&& st.lesson(id) is Some
        &&& st.lesson(id).unwrap().module_id == st.modules[x].id
        &&& st.modules[x].lessons_ids.contains(id)
    } by {
        if x == m {
            let k1 = if k < k0 {
                k
            } else {
                k + 1
            };
            assert(siblings[k] == list[k1]);
            if k1 < k0 {
                assert(st.modules[m].lessons_ids[k1] != st.modules[m].lessons_ids[k0]);
            } else {
                assert(st.modules[m].lessons_ids[k0] != st.modules[m].lessons_ids[k1]);
            }
            let found = st.lesson(st.modules[m].lessons_ids[k1]);
            assert(found is Some ==> found.unwrap().module_id == st.modules[m].id);
        } else {
            let found = st.lesson(st.modules[x].lessons_ids[k]);
            assert(found is Some ==> found.unwrap().module_id == st.modules[x].id);
            if x < m {
                assert(st.modules[x].id != st.modules[m].id);
            } else {
                assert(st.modules[m].id != st.modules[x].id);
            }
        }
    }
    assert forall|x: int, j: int, k: int|
        0 <= x < after.modules.len() && 0 <= j < k < after.modules[x].lessons_ids.len()
            implies #[trigger] after.modules[x].lessons_ids[j]
        != #[trigger] after.modules[x].lessons_ids[k] by {
        if x == m {
            let j1 = if j < k0 {
                j
            } else {
                j + 1
            };
            let k1 = if k < k0 {
                k
            } else {
                k + 1
            };
            assert(siblings[j] == list[j1]);
            assert(siblings[k] == list[k1]);
            assert(st.modules[m].lessons_ids[j1] != st.modules[m].lessons_ids[k1]);
        } else {
            assert(st.modules[x].lessons_ids[j] != st.modules[x].lessons_ids[k]);
        }
    }
    assert forall|x: int, id: u64|
        0 <= x < st.modules.len() && id != lesson_id && st.modules[x].lessons_ids.contains(
            id,
        ) implies #[trigger] after.modules[x].lessons_ids.contains(id) by {
        let k = choose|k: int|
            0 <= k < st.modules[x].lessons_ids.len() && st.modules[x].lessons_ids[k] == id;
        if x == m {
            let k2 = if k < k0 {
                k
            } else {
                k - 1
            };
            assert(k != k0);
            assert(siblings[k2] == list[k]);
            assert(after.modules[m].lessons_ids[k2] == id);
        } else {
            assert(after.modules[x].lessons_ids[k] == id);
        }
    }
}

#[verifier::rlimit(40)]
proof fn lemma_deletion_keeps_keys(st: ContractView, caller: Seq<char>, lesson_id: u64)
    requires
        st.consistent(),
        delete_lesson_outcome(st, caller, lesson_id) is Ok,
    ensures
        delete_lesson_outcome(st, caller, lesson_id).unwrap().keys_distinct(),
        delete_lesson_outcome(st, caller, lesson_id).unwrap().counters_ahead(),
{
    let after = delete_lesson_outcome(st, caller, lesson_id).unwrap();
    let l = st.lesson_pos(lesson_id).unwrap();
    let last = st.lessons.len() - 1;
    lemma_deletion_shape(st, caller, lesson_id);
    assert forall|i: int, j: int| 0 <= i < j < after.modules.len() implies (
    #[trigger] after.modules[i]).id != (#[trigger] after.modules[j]).id by {
        assert(st.modules[i].id != st.modules[j].id);
    }
    assert forall|i: int, j: int| 0 <= i < j < after.lessons.len() implies (
    #[trigger] after.lessons[i]).id != (#[trigger] after.lessons[j]).id by {
        let pi = stored_before(i, l, last);
        let pj = stored_before(j, l, last);
        if pi < pj {
            assert(st.lessons[pi].id != st.lessons[pj].id);
        } else {
            assert(st.lessons[pj].id != st.lessons[pi].id);
        }
    }
    assert forall|i: int| 0 <= i < after.modules.len() implies (#[trigger] after.modules[i]).id
        < after.module_count by {
        assert(st.modules[i].id < st.module_count);
    }
    assert forall|i: int| 0 <= i < after.lessons.len() implies (#[trigger] after.lessons[i]).id
        < after.lesson_count by {
        assert(st.lessons[stored_before(i, l, last)].id < st.lesson_count);
    }
}

#[verifier::rlimit(40)]
proof fn lemma_deletion_keeps_links(st: ContractView, caller: Seq<char>, lesson_id: u64)
    requires
        st.consistent(),
        delete_lesson_outcome(st, caller, lesson_id) is Ok,
    ensures
        delete_lesson_outcome(st, caller, lesson_id).unwrap().links_resolve(),
{
    let after = delete_lesson_outcome(st, caller, lesson_id).unwrap();
    let l = st.lesson_pos(lesson_id).unwrap();
    let last = st.lessons.len() - 1;
    lemma_deletion_shape(st, caller, lesson_id);
    assert forall|x: int, k: int|
        0 <= x < after.courses.len() && 0 <= k < after.courses[x].modules_ids.len() implies after.module(
        #[trigger] after.courses[x].modules_ids[k],
    ) is Some by {
        assert(st.module(st.courses[x].modules_ids[k]) is Some);
    }
    assert forall|x: int| 0 <= x < after.modules.len() implies after.course(
        (#[trigger] after.modules[x]).course_id,
    ) is Some by {
        assert(st.course(st.modules[x].course_id) is Some);
    }
    assert forall|x: int, k: int|
        0 <= x < after.modules.len() && 0 <= k < after.modules[x].lessons_ids.len() implies after.lesson(
        #[trigger] after.modules[x].lessons_ids[k],
    ) is Some by {
        assert(after.modules[x].lessons_ids[k] != lesson_id);
    }
    assert forall|x: int|
        0 <= x < after.modules.len() && (#[trigger] after.modules[x]).quizz_id
            is Some implies after.quizz(after.modules[x].quizz_id.unwrap()) is Some by {
        assert(st.modules[x].quizz_id is Some);
    }
    assert forall|i: int| 0 <= i < after.lessons.len() implies after.module(
        (#[trigger] after.lessons[i]).module_id,
    ) is Some by {
        assert(st.module(st.lessons[stored_before(i, l, last)].module_id) is Some);
    }
    assert forall|q: int| 0 <= q < after.quizzes.len() implies after.module(
        (#[trigger] after.quizzes[q]).module_id,
    ) is Some by {
        assert(st.module(st.quizzes[q].module_id) is Some);
    }
    assert forall|e: int| 0 <= e < after.enrollments.len() implies after.course(
        (#[trigger] after.enrollments[e]).course_id,
    ) is Some by {
        assert(st.course(st.enrollments[e].course_id) is Some);
    }
}

#[verifier::rlimit(40)]
proof fn lemma_deletion_keeps_lists(st: ContractView, caller: Seq<char>, lesson_id: u64)
    requires
        st.consistent(),
        delete_lesson_outcome(st, caller, lesson_id) is Ok,
    ensures
        delete_lesson_outcome(st, caller, lesson_id).unwrap().lessons_listed_once(),
{
    let after = delete_lesson_outcome(st, caller, lesson_id).unwrap();
    let l = st.lesson_pos(lesson_id).unwrap();
    let last = st.lessons.len() - 1;
    lemma_deletion_shape(st, caller, lesson_id);
    lemma_lookups_in_range(st);
    assert forall|x: int, k: int|
        0 <= x < after.modules.len() && 0 <= k < after.modules[x].lessons_ids.len() implies {
        let found = after.lesson(#[trigger] after.modules[x].lessons_ids[k]);
        found is Some ==> found.unwrap().module_id == after.modules[x].id
    } by {
        assert(after.modules[x].lessons_ids[k] != lesson_id);
    }
    assert forall|i: int| 0 <= i < after.lessons.len() implies {
        let home = after.module((#[trigger] after.lessons[i]).module_id);
        home is Some ==> home.unwrap().lessons_ids.contains(after.lessons[i].id)
    } by {
        let stays = st.lessons[stored_before(i, l, last)];
        let home = st.module(stays.module_id);
        assert(home is Some);
        assert(home.unwrap().lessons_ids.contains(stays.id));
        let x = st.module_pos(stays.module_id).unwrap();
        assert(after.modules[x].lessons_ids.contains(stays.id));
    }
}

#[verifier::rlimit(40)]
proof fn lemma_deletion_keeps_modules(st: ContractView, caller: Seq<char>, lesson_id: u64)
    requires
        st.consistent(),
        delete_lesson_outcome(st, caller, lesson_id) is Ok,
    ensures
        delete_lesson_outcome(st, caller, lesson_id).unwrap().modules_listed_once(),
        delete_lesson_outcome(st, caller, lesson_id).unwrap().quizzes_point_back(),
{
    let after = delete_lesson_outcome(st, caller, lesson_id).unwrap();
    lemma_deletion_shape(st, caller, lesson_id);
    lemma_lookups_in_range(st);
    assert(after.modules_listed_once()) by {
        assert forall|c: int, k: int|
            0 <= c < after.courses.len() && 0 <= k < after.courses[c].modules_ids.len() implies {
            let m = after.module(#[trigger] after.courses[c].modules_ids[k]);
            m is Some ==> m.unwrap().course_id == after.courses[c].id
        } by {
            let m = st.module(st.courses[c].modules_ids[k]);
            assert(m is Some ==> m.unwrap().course_id == st.courses[c].id);
            if m is Some {
                let p = st.module_pos(st.courses[c].modules_ids[k]).unwrap();
                assert(after.modules[p].course_id == st.modules[p].course_id);
            }
        }
        assert forall|c: int, j: int, k: int|
            0 <= c < after.courses.len() && 0 <= j < k < after.courses[c].modules_ids.len()
                implies #[trigger] after.courses[c].modules_ids[j]
            != #[trigger] after.courses[c].modules_ids[k] by {
            assert(st.courses[c].modules_ids[j] != st.courses[c].modules_ids[k]);
        }
    }
    assert(after.quizzes_point_back()) by {
        assert forall|m: int|
            0 <= m < after.modules.len() && (#[trigger] after.modules[m]).quizz_id is Some implies {
            let q = after.quizz(after.modules[m].quizz_id.unwrap());
            q is Some ==> q.unwrap().module_id == after.modules[m].id
        } by {
            assert(st.modules[m].quizz_id is Some);
            let q = st.quizz(st.modules[m].quizz_id.unwrap());
            assert(q is Some ==> q.unwrap().module_id == st.modules[m].id);
        }
    }
}

/// Deleting a lesson keeps the platform consistent: the lesson leaves its module's list
/// and the store together, and nothing else refers to it.
pub proof fn lemma_delete_lesson_keeps_consistent(
    st: ContractView,
    caller: Seq<char>,
    lesson_id: u64,
)
    requires
        st.consistent(),
        delete_lesson_outcome(st, caller, lesson_id) is Ok,
    ensures
        delete_lesson_outcome(st, caller, lesson_id).unwrap().consistent(),
{
    lemma_deletion_keeps_keys(st, caller, lesson_id);
    lemma_deletion_keeps_links(st, caller, lesson_id);
    lemma_deletion_keeps_lists(st, caller, lesson_id);
    lemma_deletion_keeps_modules(st, caller, lesson_id);
}

} // verus!
