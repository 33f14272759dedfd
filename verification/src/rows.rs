use crate::catalog::{delete_lesson_outcome, swap_removed};
use crate::checkout::{
    carted_course_id, checkout_outcome, in_cart_of, lessons_of, modules_of, quizz_of,
    stored_lesson,
};
use crate::consistency::{
    lemma_delete_lesson_keeps_consistent, lemma_deletion_shape, lemma_lookups_in_range,
    lemma_records_are_found, lemma_same_links_same_lookups, same_links, stored_before,
};
use crate::contract::{enrollment_is, lesson_is, module_is, quizz_is, ContractView};
use crate::models::{EnrollmentStatus, EnrollmentView, LessonView, ModuleView, QuizzView};
use crate::seqs::{
    distinct, first_where, lemma_collect_distinct, lemma_collect_keeps_all,
    lemma_collect_members, lemma_first_where, lemma_first_where_push, lemma_first_where_same,
    lemma_gather_distinct, lemma_gather_members,
};
use vstd::prelude::*;

verus! {

impl ContractView {
    /// The student has an enrollment in the course that has left the cart.
    pub open spec fn has_joined(self, student: Seq<char>, course_id: u64) -> bool {
        match self.enrollment(course_id, student) {
            Some(e) => e.status != EnrollmentStatus::Carted,
            None => false,
        }
    }

    /// No student has two progress rows for one module, one lesson or one quiz.
    pub open spec fn row_keys_distinct(self) -> bool {
        &&& forall|i: int, j: int|
            0 <= i < j < self.module_progresses.len() ==> !((
            #[trigger] self.module_progresses[i]).module_id == (
            #[trigger] self.module_progresses[j]).module_id && self.module_progresses[i].student_id
                == self.module_progresses[j].student_id)
        &&& forall|i: int, j: int|
            0 <= i < j < self.lesson_progresses.len() ==> !((
            #[trigger] self.lesson_progresses[i]).lesson_id == (
            #[trigger] self.lesson_progresses[j]).lesson_id && self.lesson_progresses[i].student_id
                == self.lesson_progresses[j].student_id)
        &&& forall|i: int, j: int|
            0 <= i < j < self.quizz_progresses.len() ==> !((
            #[trigger] self.quizz_progresses[i]).quizz_id == (
            #[trigger] self.quizz_progresses[j]).quizz_id && self.quizz_progresses[i].student_id
                == self.quizz_progresses[j].student_id)
    }

    /// Progress rows name ids that have been given out: none names an id that a later
    /// module, lesson or quiz could get.
    pub open spec fn rows_name_used_ids(self) -> bool {
        &&& forall|i: int|
            0 <= i < self.module_progresses.len() ==> (#[trigger] self.module_progresses[i]).module_id
                < self.module_count
        &&& forall|i: int|
            0 <= i < self.lesson_progresses.len() ==> (#[trigger] self.lesson_progresses[i]).lesson_id
                < self.lesson_count
        &&& forall|i: int|
            0 <= i < self.quizz_progresses.len() ==> (#[trigger] self.quizz_progresses[i]).quizz_id
                < self.quizz_count
    }

    /// Every progress row has an id of its own, below the counter that the next row of
    /// its kind will take its id from.
    pub open spec fn row_ids_fresh(self) -> bool {
        &&& forall|i: int|
            0 <= i < self.module_progresses.len() ==> (#[trigger] self.module_progresses[i]).id
                < self.module_progress_count
        &&& forall|i: int|
            0 <= i < self.lesson_progresses.len() ==> (#[trigger] self.lesson_progresses[i]).id
                < self.lesson_progress_count
        &&& forall|i: int|
            0 <= i < self.quizz_progresses.len() ==> (#[trigger] self.quizz_progresses[i]).id
                < self.quizz_progress_count
        &&& forall|i: int, j: int|
            0 <= i < j < self.module_progresses.len() ==> (#[trigger] self.module_progresses[i]).id
                != (#[trigger] self.module_progresses[j]).id
        &&& forall|i: int, j: int|
            0 <= i < j < self.lesson_progresses.len() ==> (#[trigger] self.lesson_progresses[i]).id
                != (#[trigger] self.lesson_progresses[j]).id
        &&& forall|i: int, j: int|
            0 <= i < j < self.quizz_progresses.len() ==> (#[trigger] self.quizz_progresses[i]).id
                != (#[trigger] self.quizz_progresses[j]).id
    }

    /// The course that a lesson belongs to, through its module.
    pub open spec fn course_of_lesson(self, lesson_id: u64) -> Option<u64> {
        match self.lesson(lesson_id) {
            Some(l) => match self.module(l.module_id) {
                Some(m) => Some(m.course_id),
                None => None,
            },
            None => None,
        }
    }

    /// The course that a quiz belongs to, through its module.
    pub open spec fn course_of_quizz(self, quizz_id: u64) -> Option<u64> {
        match self.quizz(quizz_id) {
            Some(q) => match self.module(q.module_id) {
                Some(m) => Some(m.course_id),
                None => None,
            },
            None => None,
        }
    }

    /// A progress row exists only for a student who has joined the course: whoever has a
    /// row for a module, a lesson or a quiz that is still in the catalog has an enrollment
    /// in its course that has left the cart.
    pub open spec fn rows_follow_enrollments(self) -> bool {
        &&& forall|i: int|
            0 <= i < self.module_progresses.len() ==> {
                let row = #[trigger] self.module_progresses[i];
                self.module(row.module_id) is Some ==> self.has_joined(
                    row.student_id,
                    self.module(row.module_id).unwrap().course_id,
                )
            }
        &&& forall|i: int|
            0 <= i < self.lesson_progresses.len() ==> {
                let row = #[trigger] self.lesson_progresses[i];
                self.course_of_lesson(row.lesson_id) is Some ==> self.has_joined(
                    row.student_id,
                    self.course_of_lesson(row.lesson_id).unwrap(),
                )
            }
        &&& forall|i: int|
            0 <= i < self.quizz_progresses.len() ==> {
                let row = #[trigger] self.quizz_progresses[i];
                self.course_of_quizz(row.quizz_id) is Some ==> self.has_joined(
                    row.student_id,
                    self.course_of_quizz(row.quizz_id).unwrap(),
                )
            }
    }

    /// The progress rows hang together with the catalog and the enrollments.
    pub open spec fn rows_consistent(self) -> bool {
        &&& self.row_keys_distinct()
        &&& self.row_ids_fresh()
        &&& self.rows_name_used_ids()
        &&& self.rows_follow_enrollments()
    }

    /// The whole platform hangs together.
    pub open spec fn sound(self) -> bool {
        self.consistent() && self.rows_consistent()
    }
}

/// Whether two states have progress rows under the same keys and ids, and every
/// enrollment that has left the cart in the first has left it in the second.
pub open spec fn same_rows(a: ContractView, b: ContractView) -> bool {
    &&& a.module_progresses.len() == b.module_progresses.len()
    &&& a.lesson_progresses.len() == b.lesson_progresses.len()
    &&& a.quizz_progresses.len() == b.quizz_progresses.len()
    &&& a.module_progress_count == b.module_progress_count
    &&& a.lesson_progress_count == b.lesson_progress_count
    &&& a.quizz_progress_count == b.quizz_progress_count
    &&& forall|i: int|
        0 <= i < a.module_progresses.len() ==> (#[trigger] a.module_progresses[i]).module_id
            == b.module_progresses[i].module_id && a.module_progresses[i].student_id
            == b.module_progresses[i].student_id && a.module_progresses[i].id
            == b.module_progresses[i].id
    &&& forall|i: int|
        0 <= i < a.lesson_progresses.len() ==> (#[trigger] a.lesson_progresses[i]).lesson_id
            == b.lesson_progresses[i].lesson_id && a.lesson_progresses[i].student_id
            == b.lesson_progresses[i].student_id && a.lesson_progresses[i].id
            == b.lesson_progresses[i].id
    &&& forall|i: int|
        0 <= i < a.quizz_progresses.len() ==> (#[trigger] a.quizz_progresses[i]).quizz_id
            == b.quizz_progresses[i].quizz_id && a.quizz_progresses[i].student_id
            == b.quizz_progresses[i].student_id && a.quizz_progresses[i].id
            == b.quizz_progresses[i].id
    &&& forall|i: int|
        0 <= i < a.enrollments.len() && (#[trigger] a.enrollments[i]).status
            != EnrollmentStatus::Carted ==> b.enrollments[i].status != EnrollmentStatus::Carted
}

/// Whoever has joined a course in one state has joined it in a state with the same links
/// in which no enrollment has gone back to the cart.
proof fn lemma_joined_stays(a: ContractView, b: ContractView)
    requires
        same_links(a, b),
        same_rows(a, b),
    ensures
        forall|student: Seq<char>, course_id: u64|
            a.has_joined(student, course_id) ==> #[trigger] b.has_joined(student, course_id),
        forall|id: u64| #[trigger] b.module(id) is Some == a.module(id) is Some,
        forall|id: u64|
            a.module(id) is Some ==> (#[trigger] b.module(id)).unwrap().course_id == a.module(
                id,
            ).unwrap().course_id,
        forall|id: u64| #[trigger] b.course_of_lesson(id) == a.course_of_lesson(id),
        forall|id: u64| #[trigger] b.course_of_quizz(id) == a.course_of_quizz(id),
{
    lemma_same_links_same_lookups(a, b);
    lemma_lookups_in_range(a);
    assert forall|student: Seq<char>, course_id: u64|
        a.has_joined(student, course_id) implies #[trigger] b.has_joined(student, course_id) by {
        let p = a.enrollment_pos(course_id, student).unwrap();
        assert(a.enrollments[p].status != EnrollmentStatus::Carted);
    }
    assert forall|id: u64| #[trigger] b.course_of_lesson(id) == a.course_of_lesson(id) by {
        if a.lesson(id) is Some {
            let l = a.lesson_pos(id).unwrap();
            assert(a.lessons[l].module_id == b.lessons[l].module_id);
            if a.module(a.lessons[l].module_id) is Some {
                let m = a.module_pos(a.lessons[l].module_id).unwrap();
                assert(a.modules[m].course_id == b.modules[m].course_id);
            }
        }
    }
    assert forall|id: u64| #[trigger] b.course_of_quizz(id) == a.course_of_quizz(id) by {
        if a.quizz(id) is Some {
            let q = a.quizz_pos(id).unwrap();
            assert(a.quizzes[q].module_id == b.quizzes[q].module_id);
            if a.module(a.quizzes[q].module_id) is Some {
                let m = a.module_pos(a.quizzes[q].module_id).unwrap();
                assert(a.modules[m].course_id == b.modules[m].course_id);
            }
        }
    }
    assert forall|id: u64| a.module(id) is Some implies (#[trigger] b.module(id)).unwrap().course_id
        == a.module(id).unwrap().course_id by {
        let m = a.module_pos(id).unwrap();
        assert(a.modules[m].course_id == b.modules[m].course_id);
    }
}

/// The progress rows stay consistent where the links and the rows' keys stay and no
/// enrollment goes back to the cart.
#[verifier::rlimit(40)]
pub proof fn lemma_same_rows_stay_consistent(a: ContractView, b: ContractView)
    requires
        a.rows_consistent(),
        same_links(a, b),
        same_rows(a, b),
    ensures
        b.rows_consistent(),
{
    lemma_joined_stays(a, b);
    assert(b.row_keys_distinct()) by {
        assert forall|i: int, j: int| 0 <= i < j < b.module_progresses.len() implies !((
        #[trigger] b.module_progresses[i]).module_id == (#[trigger] b.module_progresses[j]).module_id
            && b.module_progresses[i].student_id == b.module_progresses[j].student_id) by {
            assert(!(a.module_progresses[i].module_id == a.module_progresses[j].module_id
                && a.module_progresses[i].student_id == a.module_progresses[j].student_id));
        }
        assert forall|i: int, j: int| 0 <= i < j < b.lesson_progresses.len() implies !((
        #[trigger] b.lesson_progresses[i]).lesson_id == (#[trigger] b.lesson_progresses[j]).lesson_id
            && b.lesson_progresses[i].student_id == b.lesson_progresses[j].student_id) by {
            assert(!(a.lesson_progresses[i].lesson_id == a.lesson_progresses[j].lesson_id
                && a.lesson_progresses[i].student_id == a.lesson_progresses[j].student_id));
        }
        assert forall|i: int, j: int| 0 <= i < j < b.quizz_progresses.len() implies !((
        #[trigger] b.quizz_progresses[i]).quizz_id == (#[trigger] b.quizz_progresses[j]).quizz_id
            && b.quizz_progresses[i].student_id == b.quizz_progresses[j].student_id) by {
            assert(!(a.quizz_progresses[i].quizz_id == a.quizz_progresses[j].quizz_id
                && a.quizz_progresses[i].student_id == a.quizz_progresses[j].student_id));
        }
    }
    assert(b.row_ids_fresh()) by {
        assert forall|i: int| 0 <= i < b.module_progresses.len() implies (
        #[trigger] b.module_progresses[i]).id < b.module_progress_count by {
            assert(a.module_progresses[i].id < a.module_progress_count);
        }
        assert forall|i: int| 0 <= i < b.lesson_progresses.len() implies (
        #[trigger] b.lesson_progresses[i]).id < b.lesson_progress_count by {
            assert(a.lesson_progresses[i].id < a.lesson_progress_count);
        }
        assert forall|i: int| 0 <= i < b.quizz_progresses.len() implies (
        #[trigger] b.quizz_progresses[i]).id < b.quizz_progress_count by {
            assert(a.quizz_progresses[i].id < a.quizz_progress_count);
        }
        assert forall|i: int, j: int| 0 <= i < j < b.module_progresses.len() implies (
        #[trigger] b.module_progresses[i]).id != (#[trigger] b.module_progresses[j]).id by {
            assert(a.module_progresses[i].id != a.module_progresses[j].id);
        }
        assert forall|i: int, j: int| 0 <= i < j < b.lesson_progresses.len() implies (
        #[trigger] b.lesson_progresses[i]).id != (#[trigger] b.lesson_progresses[j]).id by {
            assert(a.lesson_progresses[i].id != a.lesson_progresses[j].id);
        }
        assert forall|i: int, j: int| 0 <= i < j < b.quizz_progresses.len() implies (
        #[trigger] b.quizz_progresses[i]).id != (#[trigger] b.quizz_progresses[j]).id by {
            assert(a.quizz_progresses[i].id != a.quizz_progresses[j].id);
        }
    }
    assert(b.rows_name_used_ids()) by {
        assert forall|i: int| 0 <= i < b.module_progresses.len() implies (
        #[trigger] b.module_progresses[i]).module_id < b.module_count by {
            assert(a.module_progresses[i].module_id < a.module_count);
        }
        assert forall|i: int| 0 <= i < b.lesson_progresses.len() implies (
        #[trigger] b.lesson_progresses[i]).lesson_id < b.lesson_count by {
            assert(a.lesson_progresses[i].lesson_id < a.lesson_count);
        }
        assert forall|i: int| 0 <= i < b.quizz_progresses.len() implies (
        #[trigger] b.quizz_progresses[i]).quizz_id < b.quizz_count by {
            assert(a.quizz_progresses[i].quizz_id < a.quizz_count);
        }
    }
    assert(b.rows_follow_enrollments()) by {
        assert forall|i: int| 0 <= i < b.module_progresses.len() implies {
            let row = #[trigger] b.module_progresses[i];
            b.module(row.module_id) is Some ==> b.has_joined(
                row.student_id,
                b.module(row.module_id).unwrap().course_id,
            )
        } by {
            let row = a.module_progresses[i];
            assert(a.module(row.module_id) is Some ==> a.has_joined(
                row.student_id,
                a.module(row.module_id).unwrap().course_id,
            ));
        }
        assert forall|i: int| 0 <= i < b.lesson_progresses.len() implies {
            let row = #[trigger] b.lesson_progresses[i];
            b.course_of_lesson(row.lesson_id) is Some ==> b.has_joined(
                row.student_id,
                b.course_of_lesson(row.lesson_id).unwrap(),
            )
        } by {
            let row = a.lesson_progresses[i];
            assert(a.course_of_lesson(row.lesson_id) is Some ==> a.has_joined(
                row.student_id,
                a.course_of_lesson(row.lesson_id).unwrap(),
            ));
        }
        assert forall|i: int| 0 <= i < b.quizz_progresses.len() implies {
            let row = #[trigger] b.quizz_progresses[i];
            b.course_of_quizz(row.quizz_id) is Some ==> b.has_joined(
                row.student_id,
                b.course_of_quizz(row.quizz_id).unwrap(),
            )
        } by {
            let row = a.quizz_progresses[i];
            assert(a.course_of_quizz(row.quizz_id) is Some ==> a.has_joined(
                row.student_id,
                a.course_of_quizz(row.quizz_id).unwrap(),
            ));
        }
    }
}

/// Whether the second state has the same progress rows and enrollments as the first, and
/// a catalog in which every module, lesson and quiz that the first state could name is,
/// if it is still there, where it was: in the same course or module.
pub open spec fn catalog_kept(a: ContractView, b: ContractView) -> bool {
    &&& b.module_progresses == a.module_progresses
    &&& b.lesson_progresses == a.lesson_progresses
    &&& b.quizz_progresses == a.quizz_progresses
    &&& b.enrollments == a.enrollments
    &&& b.module_progress_count == a.module_progress_count
    &&& b.lesson_progress_count == a.lesson_progress_count
    &&& b.quizz_progress_count == a.quizz_progress_count
    &&& a.module_count <= b.module_count
    &&& a.lesson_count <= b.lesson_count
    &&& a.quizz_count <= b.quizz_count
    &&& forall|id: u64|
        id < a.module_count && (#[trigger] b.module(id)) is Some ==> a.module(id) is Some
            && a.module(id).unwrap().course_id == b.module(id).unwrap().course_id
    &&& forall|id: u64|
        id < a.lesson_count && (#[trigger] b.lesson(id)) is Some ==> a.lesson(id) is Some
            && a.lesson(id).unwrap().module_id == b.lesson(id).unwrap().module_id
    &&& forall|id: u64|
        id < a.quizz_count && (#[trigger] b.quizz(id)) is Some ==> a.quizz(id) is Some
            && a.quizz(id).unwrap().module_id == b.quizz(id).unwrap().module_id
}

/// The progress rows stay consistent through a change of the catalog that moves nothing.
#[verifier::rlimit(40)]
pub proof fn lemma_rows_survive_catalog_change(a: ContractView, b: ContractView)
    requires
        a.sound(),
        catalog_kept(a, b),
    ensures
        b.rows_consistent(),
{
    lemma_lookups_in_range(a);
    assert forall|student: Seq<char>, course_id: u64| #[trigger]
        b.has_joined(student, course_id) == a.has_joined(student, course_id) by {}
    assert(b.rows_follow_enrollments()) by {
        assert forall|i: int| 0 <= i < b.module_progresses.len() implies {
            let row = #[trigger] b.module_progresses[i];
            b.module(row.module_id) is Some ==> b.has_joined(
                row.student_id,
                b.module(row.module_id).unwrap().course_id,
            )
        } by {
            let row = a.module_progresses[i];
            assert(row.module_id < a.module_count);
            if b.module(row.module_id) is Some {
                assert(a.has_joined(row.student_id, a.module(row.module_id).unwrap().course_id));
            }
        }
        assert forall|i: int| 0 <= i < b.lesson_progresses.len() implies {
            let row = #[trigger] b.lesson_progresses[i];
            b.course_of_lesson(row.lesson_id) is Some ==> b.has_joined(
                row.student_id,
                b.course_of_lesson(row.lesson_id).unwrap(),
            )
        } by {
            let row = a.lesson_progresses[i];
            assert(row.lesson_id < a.lesson_count);
            if b.course_of_lesson(row.lesson_id) is Some {
                let l = a.lesson_pos(row.lesson_id).unwrap();
                assert(a.module(a.lessons[l].module_id) is Some);
                let m = a.module_pos(a.lessons[l].module_id).unwrap();
                assert(a.modules[m].id < a.module_count);
                assert(b.module(a.lessons[l].module_id) is Some);
                assert(a.course_of_lesson(row.lesson_id) == b.course_of_lesson(row.lesson_id));
                assert(a.has_joined(row.student_id, a.course_of_lesson(row.lesson_id).unwrap()));
            }
        }
        assert forall|i: int| 0 <= i < b.quizz_progresses.len() implies {
            let row = #[trigger] b.quizz_progresses[i];
            b.course_of_quizz(row.quizz_id) is Some ==> b.has_joined(
                row.student_id,
                b.course_of_quizz(row.quizz_id).unwrap(),
            )
        } by {
            let row = a.quizz_progresses[i];
            assert(row.quizz_id < a.quizz_count);
            if b.course_of_quizz(row.quizz_id) is Some {
                let q = a.quizz_pos(row.quizz_id).unwrap();
                assert(a.module(a.quizzes[q].module_id) is Some);
                let m = a.module_pos(a.quizzes[q].module_id).unwrap();
                assert(a.modules[m].id < a.module_count);
                assert(b.module(a.quizzes[q].module_id) is Some);
                assert(a.course_of_quizz(row.quizz_id) == b.course_of_quizz(row.quizz_id));
                assert(a.has_joined(row.student_id, a.course_of_quizz(row.quizz_id).unwrap()));
            }
        }
    }
}

/// A new course moves nothing in the catalog.
pub proof fn lemma_new_course_keeps_catalog(st: ContractView, after: ContractView)
    requires
        after == (ContractView { courses: after.courses, course_count: after.course_count, ..st }),
    ensures
        catalog_kept(st, after),
{
}

/// A new module with a fresh id moves nothing in the catalog.
pub proof fn lemma_new_module_keeps_catalog(st: ContractView, module: ModuleView)
    requires
        st.course_pos(module.course_id) is Some,
        module.id == st.module_count,
        st.module_count < u64::MAX,
    ensures
        catalog_kept(st, st.with_module(module)),
{
    let after = st.with_module(module);
    assert forall|id: u64| id < st.module_count && (#[trigger] after.module(id)) is Some implies st.module(
        id,
    ) is Some && st.module(id).unwrap().course_id == after.module(id).unwrap().course_id by {
        lemma_first_where_push(st.modules, module_is(id), module);
        lemma_first_where(st.modules, module_is(id));
    }
}

/// A new lesson with a fresh id moves nothing in the catalog.
pub proof fn lemma_new_lesson_keeps_catalog(st: ContractView, lesson: LessonView)
    requires
        st.module_pos(lesson.module_id) is Some,
        lesson.id == st.lesson_count,
        st.lesson_count < u64::MAX,
    ensures
        catalog_kept(st, st.with_lesson(lesson)),
{
    let after = st.with_lesson(lesson);
    lemma_first_where(st.modules, module_is(lesson.module_id));
    assert forall|id: u64| id < st.lesson_count && (#[trigger] after.lesson(id)) is Some implies st.lesson(
        id,
    ) is Some && st.lesson(id).unwrap().module_id == after.lesson(id).unwrap().module_id by {
        lemma_first_where_push(st.lessons, lesson_is(id), lesson);
        lemma_first_where(st.lessons, lesson_is(id));
    }
    assert forall|id: u64| id < st.module_count && (#[trigger] after.module(id)) is Some implies st.module(
        id,
    ) is Some && st.module(id).unwrap().course_id == after.module(id).unwrap().course_id by {
        lemma_first_where_same(after.modules, module_is(id), st.modules, module_is(id));
        lemma_first_where(st.modules, module_is(id));
    }
}

/// A new quiz with a fresh id moves nothing in the catalog.
pub proof fn lemma_new_quizz_keeps_catalog(st: ContractView, quizz: QuizzView)
    requires
        st.module_pos(quizz.module_id) is Some,
        quizz.id == st.quizz_count,
        st.quizz_count < u64::MAX,
    ensures
        catalog_kept(
            st,
            ContractView {
                quizzes: st.quizzes.push(quizz),
                modules: st.modules.update(
                    st.module_pos(quizz.module_id).unwrap(),
                    ModuleView {
                        quizz_id: Some(quizz.id),
                        ..st.modules[st.module_pos(quizz.module_id).unwrap()]
                    },
                ),
                quizz_count: (st.quizz_count + 1) as u64,
                ..st
            },
        ),
{
    let m0 = st.module_pos(quizz.module_id).unwrap();
    let after = ContractView {
        quizzes: st.quizzes.push(quizz),
        modules: st.modules.update(m0, ModuleView { quizz_id: Some(quizz.id), ..st.modules[m0] }),
        quizz_count: (st.quizz_count + 1) as u64,
        ..st
    };
    lemma_first_where(st.modules, module_is(quizz.module_id));
    assert forall|id: u64| id < st.quizz_count && (#[trigger] after.quizz(id)) is Some implies st.quizz(
        id,
    ) is Some && st.quizz(id).unwrap().module_id == after.quizz(id).unwrap().module_id by {
        lemma_first_where_push(st.quizzes, quizz_is(id), quizz);
        lemma_first_where(st.quizzes, quizz_is(id));
    }
    assert forall|id: u64| id < st.module_count && (#[trigger] after.module(id)) is Some implies st.module(
        id,
    ) is Some && st.module(id).unwrap().course_id == after.module(id).unwrap().course_id by {
        lemma_first_where_same(after.modules, module_is(id), st.modules, module_is(id));
        lemma_first_where(st.modules, module_is(id));
    }
}

/// Deleting a lesson moves nothing in the catalog.
#[verifier::rlimit(40)]
pub proof fn lemma_delete_lesson_keeps_catalog(st: ContractView, caller: Seq<char>, lesson_id: u64)
    requires
        st.consistent(),
        delete_lesson_outcome(st, caller, lesson_id) is Ok,
    ensures
        catalog_kept(st, delete_lesson_outcome(st, caller, lesson_id).unwrap()),
{
    let after = delete_lesson_outcome(st, caller, lesson_id).unwrap();
    let l = st.lesson_pos(lesson_id).unwrap();
    let last = st.lessons.len() - 1;
    lemma_deletion_shape(st, caller, lesson_id);
    lemma_lookups_in_range(st);
    lemma_records_are_found(st);
    assert forall|id: u64| id < st.lesson_count && (#[trigger] after.lesson(id)) is Some implies st.lesson(
        id,
    ) is Some && st.lesson(id).unwrap().module_id == after.lesson(id).unwrap().module_id by {
        lemma_first_where(after.lessons, lesson_is(id));
        let q = after.lesson_pos(id).unwrap();
        let p = stored_before(q, l, last);
        assert(after.lessons[q].id == st.lessons[p].id);
        assert(st.lesson_pos(st.lessons[p].id) == Some(p));
    }
    assert forall|id: u64| id < st.module_count && (#[trigger] after.module(id)) is Some implies st.module(
        id,
    ) is Some && st.module(id).unwrap().course_id == after.module(id).unwrap().course_id by {
        let m = st.module_pos(id).unwrap();
        assert(after.modules[m].course_id == st.modules[m].course_id);
    }
}

/// Whether the second state has the same catalog and progress rows as the first, and
/// everyone who had joined a course in the first has joined it in the second.
pub open spec fn joined_kept(a: ContractView, b: ContractView) -> bool {
    &&& b.module_progresses == a.module_progresses
    &&& b.lesson_progresses == a.lesson_progresses
    &&& b.quizz_progresses == a.quizz_progresses
    &&& b.modules == a.modules
    &&& b.lessons == a.lessons
    &&& b.quizzes == a.quizzes
    &&& b.module_count == a.module_count
    &&& b.lesson_count == a.lesson_count
    &&& b.quizz_count == a.quizz_count
    &&& b.module_progress_count == a.module_progress_count
    &&& b.lesson_progress_count == a.lesson_progress_count
    &&& b.quizz_progress_count == a.quizz_progress_count
    &&& forall|student: Seq<char>, course_id: u64|
        a.has_joined(student, course_id) ==> #[trigger] b.has_joined(student, course_id)
}

/// The progress rows stay consistent through a change of the enrollments that takes no
/// one out of a course.
pub proof fn lemma_rows_survive_cart_change(a: ContractView, b: ContractView)
    requires
        a.rows_consistent(),
        joined_kept(a, b),
    ensures
        b.rows_consistent(),
{
    assert(b.rows_follow_enrollments()) by {
        assert forall|i: int| 0 <= i < b.module_progresses.len() implies {
            let row = #[trigger] b.module_progresses[i];
            b.module(row.module_id) is Some ==> b.has_joined(
                row.student_id,
                b.module(row.module_id).unwrap().course_id,
            )
        } by {
            let row = a.module_progresses[i];
            assert(a.module(row.module_id) is Some ==> a.has_joined(
                row.student_id,
                a.module(row.module_id).unwrap().course_id,
            ));
        }
        assert forall|i: int| 0 <= i < b.lesson_progresses.len() implies {
            let row = #[trigger] b.lesson_progresses[i];
            b.course_of_lesson(row.lesson_id) is Some ==> b.has_joined(
                row.student_id,
                b.course_of_lesson(row.lesson_id).unwrap(),
            )
        } by {
            let row = a.lesson_progresses[i];
            assert(a.course_of_lesson(row.lesson_id) is Some ==> a.has_joined(
                row.student_id,
                a.course_of_lesson(row.lesson_id).unwrap(),
            ));
        }
        assert forall|i: int| 0 <= i < b.quizz_progresses.len() implies {
            let row = #[trigger] b.quizz_progresses[i];
            b.course_of_quizz(row.quizz_id) is Some ==> b.has_joined(
                row.student_id,
                b.course_of_quizz(row.quizz_id).unwrap(),
            )
        } by {
            let row = a.quizz_progresses[i];
            assert(a.course_of_quizz(row.quizz_id) is Some ==> a.has_joined(
                row.student_id,
                a.course_of_quizz(row.quizz_id).unwrap(),
            ));
        }
    }
}

/// A new enrollment takes no one out of a course.
pub proof fn lemma_new_enrollment_keeps_joined(st: ContractView, enrollment: EnrollmentView)
    ensures
        joined_kept(
            st,
            ContractView {
                enrollments: st.enrollments.push(enrollment),
                enrollment_count: (st.enrollment_count + 1) as u64,
                ..st
            },
        ),
{
    let after = ContractView {
        enrollments: st.enrollments.push(enrollment),
        enrollment_count: (st.enrollment_count + 1) as u64,
        ..st
    };
    assert forall|student: Seq<char>, course_id: u64|
        st.has_joined(student, course_id) implies #[trigger] after.has_joined(
        student,
        course_id,
    ) by {
        lemma_first_where_push(st.enrollments, enrollment_is(course_id, student), enrollment);
        lemma_first_where(st.enrollments, enrollment_is(course_id, student));
    }
}

/// Taking a carted enrollment out takes no one out of a course.
pub proof fn lemma_cart_removal_keeps_joined(st: ContractView, e: int)
    requires
        st.keys_distinct(),
        0 <= e < st.enrollments.len(),
        st.enrollments[e].status == EnrollmentStatus::Carted,
    ensures
        joined_kept(st, ContractView { enrollments: swap_removed(st.enrollments, e), ..st }),
{
    let after = ContractView { enrollments: swap_removed(st.enrollments, e), ..st };
    let last = st.enrollments.len() - 1;
    lemma_records_are_found(st);
    assert forall|student: Seq<char>, course_id: u64|
        st.has_joined(student, course_id) implies #[trigger] after.has_joined(
        student,
        course_id,
    ) by {
        lemma_first_where(st.enrollments, enrollment_is(course_id, student));
        let p = st.enrollment_pos(course_id, student).unwrap();
        assert(p != e);
        let i = if p == last {
            e
        } else {
            p
        };
        assert(after.enrollments[i] == st.enrollments[p]);
        lemma_first_where(after.enrollments, enrollment_is(course_id, student));
        let q = after.enrollment_pos(course_id, student).unwrap();
        let pq = stored_before(q, e, last);
        assert(after.enrollments[q] == st.enrollments[pq]);
        assert(st.enrollment_pos(st.enrollments[pq].course_id, st.enrollments[pq].student_id)
            == Some(pq));
    }
}

impl ContractView {
    /// The course is in the student's cart.
    pub open spec fn has_carted(self, student: Seq<char>, course_id: u64) -> bool {
        match self.enrollment(course_id, student) {
            Some(e) => e.status == EnrollmentStatus::Carted,
            None => false,
        }
    }
}

/// On a consistent platform the courses that a checkout enrolls in are distinct courses
/// of the catalog, each in the caller's cart.
proof fn lemma_checkout_courses(st: ContractView, caller: Seq<char>)
    requires
        st.consistent(),
    ensures
        distinct(st.checkout_courses(caller)),
        forall|k: int|
            0 <= k < st.checkout_courses(caller).len() ==> st.course(
                #[trigger] st.checkout_courses(caller)[k],
            ) is Some && st.has_carted(caller, st.checkout_courses(caller)[k]),
{
    let f = carted_course_id(caller);
    let courses = st.checkout_courses(caller);
    lemma_records_are_found(st);
    assert forall|i: int, j: int|
        0 <= i < j < st.enrollments.len() && f(#[trigger] st.enrollments[i]) is Some implies f(
        st.enrollments[i],
    ) != f(#[trigger] st.enrollments[j]) by {
        assert(!(st.enrollments[i].course_id == st.enrollments[j].course_id
            && st.enrollments[i].student_id == st.enrollments[j].student_id));
    }
    lemma_collect_distinct(st.enrollments, f);
    assert forall|k: int| 0 <= k < courses.len() implies st.course(#[trigger] courses[k])
        is Some && st.has_carted(caller, courses[k]) by {
        lemma_collect_members(st.enrollments, f, k);
        let i = choose|i: int|
            0 <= i < st.enrollments.len() && f(#[trigger] st.enrollments[i]) == Some(courses[k]);
        assert(st.course(st.enrollments[i].course_id) is Some);
        assert(st.enrollment_pos(st.enrollments[i].course_id, st.enrollments[i].student_id)
            == Some(i));
    }
}

/// On a consistent platform the modules that a checkout fans out to are distinct modules
/// of the catalog, each in a course in the caller's cart.
#[verifier::rlimit(40)]
proof fn lemma_checkout_modules(st: ContractView, caller: Seq<char>)
    requires
        st.consistent(),
    ensures
        distinct(st.checkout_modules(st.checkout_courses(caller))),
        forall|k: int|
            0 <= k < st.checkout_modules(st.checkout_courses(caller)).len() ==> {
                let id = #[trigger] st.checkout_modules(st.checkout_courses(caller))[k];
                &&& st.module(id) is Some
                &&& id < st.module_count
                &&& st.has_carted(caller, st.module(id).unwrap().course_id)
            },
{
    let f = modules_of(st);
    let courses = st.checkout_courses(caller);
    let modules = st.checkout_modules(courses);
    lemma_checkout_courses(st, caller);
    lemma_lookups_in_range(st);
    // Every module listed in one of the courses belongs to that course.
    assert forall|i: int, a: int| 0 <= i < courses.len() && 0 <= a < f(courses[i]).len() implies {
        let id = #[trigger] f(courses[i])[a];
        &&& st.module(id) is Some
        &&& st.module(id).unwrap().course_id == courses[i]
        &&& id < st.module_count
    } by {
        let c = st.course_pos(courses[i]).unwrap();
        let id = st.courses[c].modules_ids[a];
        assert(st.module(id) is Some);
        assert(st.module(id).unwrap().course_id == st.courses[c].id);
        let m = st.module_pos(id).unwrap();
        assert(st.modules[m].id < st.module_count);
    }
    assert forall|i: int| 0 <= i < courses.len() implies distinct(f(#[trigger] courses[i])) by {
        let c = st.course_pos(courses[i]).unwrap();
        assert forall|a: int, b: int| 0 <= a < b < f(courses[i]).len() implies #[trigger] f(
            courses[i],
        )[a] != #[trigger] f(courses[i])[b] by {
            assert(st.courses[c].modules_ids[a] != st.courses[c].modules_ids[b]);
        }
    }
    assert forall|i: int, j: int, a: int, b: int|
        0 <= i < j < courses.len() && 0 <= a < f(courses[i]).len() && 0 <= b < f(
            courses[j],
        ).len() implies #[trigger] f(courses[i])[a] != #[trigger] f(courses[j])[b] by {
        assert(courses[i] != courses[j]);
    }
    lemma_gather_distinct(courses, f);
    assert forall|k: int| 0 <= k < modules.len() implies {
        let id = #[trigger] modules[k];
        &&& st.module(id) is Some
        &&& id < st.module_count
        &&& st.has_carted(caller, st.module(id).unwrap().course_id)
    } by {
        lemma_gather_members(courses, f, k);
        let (i, a) = choose|i: int, a: int|
            0 <= i < courses.len() && 0 <= a < f(courses[i]).len() && #[trigger] f(
                courses[i],
            )[a] == modules[k];
        assert(st.has_carted(caller, courses[i]));
    }
}

/// On a consistent platform the quizzes that a checkout fans out to are distinct quizzes
/// of the catalog, each in a course in the caller's cart.
#[verifier::rlimit(40)]
proof fn lemma_checkout_quizzes(st: ContractView, caller: Seq<char>)
    requires
        st.consistent(),
    ensures
        ({
            let quizzes = st.checkout_quizzes(st.checkout_modules(st.checkout_courses(caller)));
            &&& distinct(quizzes)
            &&& forall|k: int|
                0 <= k < quizzes.len() ==> {
                    let id = #[trigger] quizzes[k];
                    &&& st.course_of_quizz(id) is Some
                    &&& id < st.quizz_count
                    &&& st.has_carted(caller, st.course_of_quizz(id).unwrap())
                }
        }),
{
    let f = quizz_of(st);
    let modules = st.checkout_modules(st.checkout_courses(caller));
    let quizzes = st.checkout_quizzes(modules);
    lemma_checkout_modules(st, caller);
    lemma_lookups_in_range(st);
    // The quiz of one of the modules belongs to that module.
    assert forall|i: int| 0 <= i < modules.len() && f(#[trigger] modules[i]) is Some implies {
        let id = f(modules[i]).unwrap();
        &&& st.quizz(id) is Some
        &&& st.quizz(id).unwrap().module_id == modules[i]
        &&& id < st.quizz_count
    } by {
        let m = st.module_pos(modules[i]).unwrap();
        assert(st.modules[m].quizz_id is Some);
        let id = st.modules[m].quizz_id.unwrap();
        assert(st.quizz(id) is Some);
        assert(st.quizz(id).unwrap().module_id == st.modules[m].id);
        let q = st.quizz_pos(id).unwrap();
        assert(st.quizzes[q].id < st.quizz_count);
    }
    assert forall|i: int, j: int|
        0 <= i < j < modules.len() && f(#[trigger] modules[i]) is Some implies f(modules[i]) != f(
        #[trigger] modules[j],
    ) by {
        assert(modules[i] != modules[j]);
    }
    lemma_collect_distinct(modules, f);
    assert forall|k: int| 0 <= k < quizzes.len() implies {
        let id = #[trigger] quizzes[k];
        &&& st.course_of_quizz(id) is Some
        &&& id < st.quizz_count
        &&& st.has_carted(caller, st.course_of_quizz(id).unwrap())
    } by {
        lemma_collect_members(modules, f, k);
        let i = choose|i: int| 0 <= i < modules.len() && f(#[trigger] modules[i]) == Some(quizzes[k]);
        assert(st.module(modules[i]) is Some);
    }
}

/// On a consistent platform the lessons that a checkout fans out to are distinct lessons
/// of the catalog, each in a course in the caller's cart.
#[verifier::rlimit(40)]
proof fn lemma_checkout_lessons(st: ContractView, caller: Seq<char>)
    requires
        st.consistent(),
    ensures
        ({
            let lessons = st.checkout_lessons(st.checkout_modules(st.checkout_courses(caller)));
            &&& distinct(lessons)
            &&& forall|k: int|
                0 <= k < lessons.len() ==> {
                    let id = #[trigger] lessons[k];
                    &&& st.course_of_lesson(id) is Some
                    &&& id < st.lesson_count
                    &&& st.has_carted(caller, st.course_of_lesson(id).unwrap())
                }
        }),
{
    let f = lessons_of(st);
    let modules = st.checkout_modules(st.checkout_courses(caller));
    let lessons = st.checkout_lessons(modules);
    lemma_checkout_modules(st, caller);
    lemma_lookups_in_range(st);
    // The lessons of one of the modules are the lessons that it lists, and belong to it.
    assert forall|i: int| 0 <= i < modules.len() implies f(#[trigger] modules[i]) == st.module(
        modules[i],
    ).unwrap().lessons_ids by {
        let m = st.module_pos(modules[i]).unwrap();
        let list = st.modules[m].lessons_ids;
        assert forall|k: int| 0 <= k < list.len() implies stored_lesson(st)(#[trigger] list[k])
            == Some(list[k]) by {
            assert(st.lesson(st.modules[m].lessons_ids[k]) is Some);
        }
        lemma_collect_keeps_all(list, stored_lesson(st));
    }
    assert forall|i: int, a: int| 0 <= i < modules.len() && 0 <= a < f(modules[i]).len() implies {
        let id = #[trigger] f(modules[i])[a];
        &&& st.lesson(id) is Some
        &&& st.lesson(id).unwrap().module_id == modules[i]
        &&& id < st.lesson_count
    } by {
        let m = st.module_pos(modules[i]).unwrap();
        let id = st.modules[m].lessons_ids[a];
        assert(st.lesson(id) is Some);
        assert(st.lesson(id).unwrap().module_id == st.modules[m].id);
        let l = st.lesson_pos(id).unwrap();
        assert(st.lessons[l].id < st.lesson_count);
    }
    assert forall|i: int| 0 <= i < modules.len() implies distinct(f(#[trigger] modules[i])) by {
        let m = st.module_pos(modules[i]).unwrap();
        assert forall|a: int, b: int| 0 <= a < b < f(modules[i]).len() implies #[trigger] f(
            modules[i],
        )[a] != #[trigger] f(modules[i])[b] by {
            assert(st.modules[m].lessons_ids[a] != st.modules[m].lessons_ids[b]);
        }
    }
    assert forall|i: int, j: int, a: int, b: int|
        0 <= i < j < modules.len() && 0 <= a < f(modules[i]).len() && 0 <= b < f(
            modules[j],
        ).len() implies #[trigger] f(modules[i])[a] != #[trigger] f(modules[j])[b] by {
        assert(modules[i] != modules[j]);
    }
    lemma_gather_distinct(modules, f);
    assert forall|k: int| 0 <= k < lessons.len() implies {
        let id = #[trigger] lessons[k];
        &&& st.course_of_lesson(id) is Some
        &&& id < st.lesson_count
        &&& st.has_carted(caller, st.course_of_lesson(id).unwrap())
    } by {
        lemma_gather_members(modules, f, k);
        let (i, a) = choose|i: int, a: int|
            0 <= i < modules.len() && 0 <= a < f(modules[i]).len() && #[trigger] f(
                modules[i],
            )[a] == lessons[k];
        assert(st.module(modules[i]) is Some);
    }
}

/// A checkout takes no one out of a course, and brings the caller into every course that
/// was in the caller's cart.
proof fn lemma_checkout_joins(st: ContractView, caller: Seq<char>, deposit: u128, now: u64)
    requires
        checkout_outcome(st, caller, deposit, now) is Ok,
    ensures
        ({
            let after = checkout_outcome(st, caller, deposit, now).unwrap().0;
            &&& forall|student: Seq<char>, course_id: u64|
                st.has_joined(student, course_id) ==> #[trigger] after.has_joined(
                    student,
                    course_id,
                )
            &&& forall|course_id: u64|
                st.has_carted(caller, course_id) ==> #[trigger] after.has_joined(caller, course_id)
        }),
{
    let after = checkout_outcome(st, caller, deposit, now).unwrap().0;
    assert forall|student: Seq<char>, course_id: u64|
        (st.has_joined(student, course_id) ==> #[trigger] after.has_joined(student, course_id)) && (
        student == caller && st.has_carted(caller, course_id) ==> after.has_joined(
            caller,
            course_id,
        )) by {
        lemma_first_where_same(
            after.enrollments,
            enrollment_is(course_id, student),
            st.enrollments,
            enrollment_is(course_id, student),
        );
        lemma_first_where(st.enrollments, enrollment_is(course_id, student));
    }
    assert forall|course_id: u64| st.has_carted(caller, course_id) implies #[trigger] after.has_joined(
        caller,
        course_id,
    ) by {
        lemma_first_where_same(
            after.enrollments,
            enrollment_is(course_id, caller),
            st.enrollments,
            enrollment_is(course_id, caller),
        );
        lemma_first_where(st.enrollments, enrollment_is(course_id, caller));
    }
}

/// After a checkout on a sound platform no student has two rows for one module.
#[verifier::rlimit(40)]
proof fn lemma_checkout_module_rows(st: ContractView, caller: Seq<char>, deposit: u128, now: u64)
    requires
        st.sound(),
        checkout_outcome(st, caller, deposit, now) is Ok,
    ensures
        ({
            let after = checkout_outcome(st, caller, deposit, now).unwrap().0;
            &&& forall|i: int, j: int|
                0 <= i < j < after.module_progresses.len() ==> !((
                #[trigger] after.module_progresses[i]).module_id == (
                #[trigger] after.module_progresses[j]).module_id
                    && after.module_progresses[i].student_id
                    == after.module_progresses[j].student_id)
            &&& forall|i: int|
                0 <= i < after.module_progresses.len() ==> (#[trigger] after.module_progresses[i]).id
                    < after.module_progress_count
            &&& forall|i: int, j: int|
                0 <= i < j < after.module_progresses.len() ==> (#[trigger] after.module_progresses[i]).id
                    != (#[trigger] after.module_progresses[j]).id
            &&& forall|i: int|
                0 <= i < after.module_progresses.len() ==> {
                    let row = #[trigger] after.module_progresses[i];
                    &&& row.module_id < after.module_count
                    &&& after.module(row.module_id) is Some ==> after.has_joined(
                        row.student_id,
                        after.module(row.module_id).unwrap().course_id,
                    )
                }
        }),
{
    let after = checkout_outcome(st, caller, deposit, now).unwrap().0;
    let targets = st.checkout_modules(st.checkout_courses(caller));
    let n = st.module_progresses.len() as int;
    lemma_checkout_modules(st, caller);
    lemma_checkout_joins(st, caller, deposit, now);
    assert forall|i: int| 0 <= i < after.module_progresses.len() implies (if i < n {
        (#[trigger] after.module_progresses[i]) == st.module_progresses[i]
    } else {
        after.module_progresses[i].module_id == targets[i - n]
            && after.module_progresses[i].student_id == caller && after.module_progresses[i].id
            == st.module_progress_count + (i - n)
    }) by {}
    assert forall|i: int| 0 <= i < after.module_progresses.len() implies (
    #[trigger] after.module_progresses[i]).id < after.module_progress_count by {
        if i < n {
            assert(st.module_progresses[i].id < st.module_progress_count);
        }
    }
    assert forall|i: int, j: int| 0 <= i < j < after.module_progresses.len() implies (
    #[trigger] after.module_progresses[i]).id != (#[trigger] after.module_progresses[j]).id by {
        if j < n {
            assert(st.module_progresses[i].id != st.module_progresses[j].id);
        } else if i < n {
            assert(st.module_progresses[i].id < st.module_progress_count);
        }
    }
    assert forall|i: int| 0 <= i < after.module_progresses.len() implies {
        let row = #[trigger] after.module_progresses[i];
        &&& row.module_id < after.module_count
        &&& after.module(row.module_id) is Some ==> after.has_joined(
            row.student_id,
            after.module(row.module_id).unwrap().course_id,
        )
    } by {
        if i < n {
            let row = st.module_progresses[i];
            assert(row.module_id < st.module_count);
            assert(st.module(row.module_id) is Some ==> st.has_joined(
                row.student_id,
                st.module(row.module_id).unwrap().course_id,
            ));
        } else {
            assert(st.has_carted(caller, st.module(targets[i - n]).unwrap().course_id));
        }
    }
    assert forall|i: int, j: int| 0 <= i < j < after.module_progresses.len() implies !((
    #[trigger] after.module_progresses[i]).module_id == (
    #[trigger] after.module_progresses[j]).module_id && after.module_progresses[i].student_id
        == after.module_progresses[j].student_id) by {
        if j < n {
            assert(!(st.module_progresses[i].module_id == st.module_progresses[j].module_id
                && st.module_progresses[i].student_id == st.module_progresses[j].student_id));
        } else if i >= n {
            assert(targets[i - n] != targets[j - n]);
        } else {
            let row = st.module_progresses[i];
            let id = targets[j - n];
            assert(st.has_carted(caller, st.module(id).unwrap().course_id));
            assert(st.module(row.module_id) is Some ==> st.has_joined(
                row.student_id,
                st.module(row.module_id).unwrap().course_id,
            ));
        }
    }
}

/// After a checkout on a sound platform no student has two rows for one lesson.
#[verifier::rlimit(40)]
proof fn lemma_checkout_lesson_rows(st: ContractView, caller: Seq<char>, deposit: u128, now: u64)
    requires
        st.sound(),
        checkout_outcome(st, caller, deposit, now) is Ok,
    ensures
        ({
            let after = checkout_outcome(st, caller, deposit, now).unwrap().0;
            &&& forall|i: int, j: int|
                0 <= i < j < after.lesson_progresses.len() ==> !((
                #[trigger] after.lesson_progresses[i]).lesson_id == (
                #[trigger] after.lesson_progresses[j]).lesson_id
                    && after.lesson_progresses[i].student_id
                    == after.lesson_progresses[j].student_id)
            &&& forall|i: int|
                0 <= i < after.lesson_progresses.len() ==> (#[trigger] after.lesson_progresses[i]).id
                    < after.lesson_progress_count
            &&& forall|i: int, j: int|
                0 <= i < j < after.lesson_progresses.len() ==> (#[trigger] after.lesson_progresses[i]).id
                    != (#[trigger] after.lesson_progresses[j]).id
            &&& forall|i: int|
                0 <= i < after.lesson_progresses.len() ==> {
                    let row = #[trigger] after.lesson_progresses[i];
                    &&& row.lesson_id < after.lesson_count
                    &&& after.course_of_lesson(row.lesson_id) is Some ==> after.has_joined(
                        row.student_id,
                        after.course_of_lesson(row.lesson_id).unwrap(),
                    )
                }
        }),
{
    let after = checkout_outcome(st, caller, deposit, now).unwrap().0;
    let targets = st.checkout_lessons(st.checkout_modules(st.checkout_courses(caller)));
    let n = st.lesson_progresses.len() as int;
    lemma_checkout_lessons(st, caller);
    lemma_checkout_joins(st, caller, deposit, now);
    assert forall|id: u64| #[trigger] after.course_of_lesson(id) == st.course_of_lesson(id) by {}
    assert forall|i: int| 0 <= i < after.lesson_progresses.len() implies (if i < n {
        (#[trigger] after.lesson_progresses[i]) == st.lesson_progresses[i]
    } else {
        after.lesson_progresses[i].lesson_id == targets[i - n]
            && after.lesson_progresses[i].student_id == caller && after.lesson_progresses[i].id
            == st.lesson_progress_count + (i - n)
    }) by {}
    assert forall|i: int| 0 <= i < after.lesson_progresses.len() implies (
    #[trigger] after.lesson_progresses[i]).id < after.lesson_progress_count by {
        if i < n {
            assert(st.lesson_progresses[i].id < st.lesson_progress_count);
        }
    }
    assert forall|i: int, j: int| 0 <= i < j < after.lesson_progresses.len() implies (
    #[trigger] after.lesson_progresses[i]).id != (#[trigger] after.lesson_progresses[j]).id by {
        if j < n {
            assert(st.lesson_progresses[i].id != st.lesson_progresses[j].id);
        } else if i < n {
            assert(st.lesson_progresses[i].id < st.lesson_progress_count);
        }
    }
    assert forall|i: int| 0 <= i < after.lesson_progresses.len() implies {
        let row = #[trigger] after.lesson_progresses[i];
        &&& row.lesson_id < after.lesson_count
        &&& after.course_of_lesson(row.lesson_id) is Some ==> after.has_joined(
            row.student_id,
            after.course_of_lesson(row.lesson_id).unwrap(),
        )
    } by {
        if i < n {
            let row = st.lesson_progresses[i];
            assert(row.lesson_id < st.lesson_count);
            assert(st.course_of_lesson(row.lesson_id) is Some ==> st.has_joined(
                row.student_id,
                st.course_of_lesson(row.lesson_id).unwrap(),
            ));
        } else {
            assert(st.has_carted(caller, st.course_of_lesson(targets[i - n]).unwrap()));
        }
    }
    assert forall|i: int, j: int| 0 <= i < j < after.lesson_progresses.len() implies !((
    #[trigger] after.lesson_progresses[i]).lesson_id == (
    #[trigger] after.lesson_progresses[j]).lesson_id && after.lesson_progresses[i].student_id
        == after.lesson_progresses[j].student_id) by {
        if j < n {
            assert(!(st.lesson_progresses[i].lesson_id == st.lesson_progresses[j].lesson_id
                && st.lesson_progresses[i].student_id == st.lesson_progresses[j].student_id));
        } else if i >= n {
            assert(targets[i - n] != targets[j - n]);
        } else {
            let row = st.lesson_progresses[i];
            let id = targets[j - n];
            assert(st.has_carted(caller, st.course_of_lesson(id).unwrap()));
            assert(st.course_of_lesson(row.lesson_id) is Some ==> st.has_joined(
                row.student_id,
                st.course_of_lesson(row.lesson_id).unwrap(),
            ));
        }
    }
}

/// After a checkout on a sound platform no student has two rows for one quiz.
#[verifier::rlimit(40)]
proof fn lemma_checkout_quizz_rows(st: ContractView, caller: Seq<char>, deposit: u128, now: u64)
    requires
        st.sound(),
        checkout_outcome(st, caller, deposit, now) is Ok,
    ensures
        ({
            let after = checkout_outcome(st, caller, deposit, now).unwrap().0;
            &&& forall|i: int, j: int|
                0 <= i < j < after.quizz_progresses.len() ==> !((
                #[trigger] after.quizz_progresses[i]).quizz_id == (
                #[trigger] after.quizz_progresses[j]).quizz_id
                    && after.quizz_progresses[i].student_id
                    == after.quizz_progresses[j].student_id)
            &&& forall|i: int|
                0 <= i < after.quizz_progresses.len() ==> (#[trigger] after.quizz_progresses[i]).id
                    < after.quizz_progress_count
            &&& forall|i: int, j: int|
                0 <= i < j < after.quizz_progresses.len() ==> (#[trigger] after.quizz_progresses[i]).id
                    != (#[trigger] after.quizz_progresses[j]).id
            &&& forall|i: int|
                0 <= i < after.quizz_progresses.len() ==> {
                    let row = #[trigger] after.quizz_progresses[i];
                    &&& row.quizz_id < after.quizz_count
                    &&& after.course_of_quizz(row.quizz_id) is Some ==> after.has_joined(
                        row.student_id,
                        after.course_of_quizz(row.quizz_id).unwrap(),
                    )
                }
        }),
{
    let after = checkout_outcome(st, caller, deposit, now).unwrap().0;
    let targets = st.checkout_quizzes(st.checkout_modules(st.checkout_courses(caller)));
    let n = st.quizz_progresses.len() as int;
    lemma_checkout_quizzes(st, caller);
    lemma_checkout_joins(st, caller, deposit, now);
    assert forall|id: u64| #[trigger] after.course_of_quizz(id) == st.course_of_quizz(id) by {}
    assert forall|i: int| 0 <= i < after.quizz_progresses.len() implies (if i < n {
        (#[trigger] after.quizz_progresses[i]) == st.quizz_progresses[i]
    } else {
        after.quizz_progresses[i].quizz_id == targets[i - n]
            && after.quizz_progresses[i].student_id == caller && after.quizz_progresses[i].id
            == st.quizz_progress_count + (i - n)
    }) by {}
    assert forall|i: int| 0 <= i < after.quizz_progresses.len() implies (
    #[trigger] after.quizz_progresses[i]).id < after.quizz_progress_count by {
        if i < n {
            assert(st.quizz_progresses[i].id < st.quizz_progress_count);
        }
    }
    assert forall|i: int, j: int| 0 <= i < j < after.quizz_progresses.len() implies (
    #[trigger] after.quizz_progresses[i]).id != (#[trigger] after.quizz_progresses[j]).id by {
        if j < n {
            assert(st.quizz_progresses[i].id != st.quizz_progresses[j].id);
        } else if i < n {
            assert(st.quizz_progresses[i].id < st.quizz_progress_count);
        }
    }
    assert forall|i: int| 0 <= i < after.quizz_progresses.len() implies {
        let row = #[trigger] after.quizz_progresses[i];
        &&& row.quizz_id < after.quizz_count
        &&& after.course_of_quizz(row.quizz_id) is Some ==> after.has_joined(
            row.student_id,
            after.course_of_quizz(row.quizz_id).unwrap(),
        )
    } by {
        if i < n {
            let row = st.quizz_progresses[i];
            assert(row.quizz_id < st.quizz_count);
            assert(st.course_of_quizz(row.quizz_id) is Some ==> st.has_joined(
                row.student_id,
                st.course_of_quizz(row.quizz_id).unwrap(),
            ));
        } else {
            assert(st.has_carted(caller, st.course_of_quizz(targets[i - n]).unwrap()));
        }
    }
    assert forall|i: int, j: int| 0 <= i < j < after.quizz_progresses.len() implies !((
    #[trigger] after.quizz_progresses[i]).quizz_id == (
    #[trigger] after.quizz_progresses[j]).quizz_id && after.quizz_progresses[i].student_id
        == after.quizz_progresses[j].student_id) by {
        if j < n {
            assert(!(st.quizz_progresses[i].quizz_id == st.quizz_progresses[j].quizz_id
                && st.quizz_progresses[i].student_id == st.quizz_progresses[j].student_id));
        } else if i >= n {
            assert(targets[i - n] != targets[j - n]);
        } else {
            let row = st.quizz_progresses[i];
            let id = targets[j - n];
            assert(st.has_carted(caller, st.course_of_quizz(id).unwrap()));
            assert(st.course_of_quizz(row.quizz_id) is Some ==> st.has_joined(
                row.student_id,
                st.course_of_quizz(row.quizz_id).unwrap(),
            ));
        }
    }
}

/// A checkout on a sound platform leaves the progress rows consistent: every row that it
/// adds is the only one of its student for its module, lesson or quiz.
pub proof fn lemma_checkout_keeps_rows(st: ContractView, caller: Seq<char>, deposit: u128, now: u64)
    requires
        st.sound(),
        checkout_outcome(st, caller, deposit, now) is Ok,
    ensures
        checkout_outcome(st, caller, deposit, now).unwrap().0.rows_consistent(),
{
    lemma_checkout_module_rows(st, caller, deposit, now);
    lemma_checkout_lesson_rows(st, caller, deposit, now);
    lemma_checkout_quizz_rows(st, caller, deposit, now);
}

} // verus!
