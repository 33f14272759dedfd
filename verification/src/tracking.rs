use crate::checkout::{
    carted_course_id, checkout_outcome, lessons_of, modules_of, quizz_of, stored_lesson,
};
use crate::consistency::lemma_lookups_in_range;
use crate::contract::{
    enrollment_is, lesson_progress_is, module_progress_is, quizz_progress_is, ContractView,
};
use crate::error::Error;
use crate::models::{
    EnrollmentStatus, LessonProgressStatus, ModuleProgressStatus, QuizzProgressStatus,
    QuizzProgressView,
};
use crate::progress::{
    complete_lesson_outcome, lesson_open, lessons_complete, module_open, modules_complete,
    plan_cascade, quizz_passed, reevaluate_outcome, submit_quizz_outcome,
};
use crate::quiz::QuestionView;
use crate::seqs::{
    first_where, lemma_collect_covers, lemma_collect_keeps_all, lemma_first_where,
    lemma_first_where_same, lemma_gather_covers,
};
use vstd::prelude::*;

verus! {

impl ContractView {
    /// The student has a progress row for the module, for every lesson that it lists and
    /// for its quiz, if it has one.
    pub open spec fn module_tracked(self, student: Seq<char>, module_id: u64) -> bool {
        match self.module(module_id) {
            Some(m) => {
                &&& self.module_progress(module_id, student) is Some
                &&& forall|k: int|
                    0 <= k < m.lessons_ids.len() ==> self.lesson_progress(
                        #[trigger] m.lessons_ids[k],
                        student,
                    ) is Some
                &&& m.quizz_id is Some ==> self.quizz_progress(m.quizz_id.unwrap(), student)
                    is Some
            },
            None => false,
        }
    }

    /// The student has an enrollment in the course and all the progress rows that the
    /// course's modules call for.
    pub open spec fn course_tracked(self, student: Seq<char>, course_id: u64) -> bool {
        match self.course(course_id) {
            Some(c) => {
                &&& self.enrollment(course_id, student) is Some
                &&& forall|k: int|
                    0 <= k < c.modules_ids.len() ==> self.module_tracked(
                        student,
                        #[trigger] c.modules_ids[k],
                    )
            },
            None => false,
        }
    }
}

/// For a student with all the progress rows of a module and of its course, a
/// re-evaluation of the module finds everything that it has to read.
pub proof fn lemma_tracked_cascade_succeeds(
    st: ContractView,
    student: Seq<char>,
    module_id: u64,
    lesson_now: Option<u64>,
    quizz_now: Option<u64>,
)
    requires
        st.module_tracked(student, module_id),
        st.course_tracked(student, st.module(module_id).unwrap().course_id),
    ensures
        plan_cascade(st, module_id, student, lesson_now, quizz_now) is Ok,
{
    let m = st.module(module_id).unwrap();
    let c = st.course(m.course_id).unwrap();
    lemma_first_where(m.lessons_ids, lesson_open(st, student, lesson_now));
    assert(lessons_complete(st, m.lessons_ids, student, lesson_now) is Ok);
    assert(quizz_passed(st, m, student, quizz_now) is Ok);
    assert forall|closed: Option<u64>| #[trigger]
        modules_complete(st, c.modules_ids, student, closed) is Ok by {
        lemma_first_where(c.modules_ids, module_open(st, student, closed));
        if first_where(c.modules_ids, module_open(st, student, closed)) is Some {
            let k = first_where(c.modules_ids, module_open(st, student, closed)).unwrap();
            assert(st.module_tracked(student, c.modules_ids[k]));
        }
    }
}

/// For a student with all the progress rows of the lesson's module and course,
/// completing a lesson succeeds exactly when the lesson exists and the student's row for
/// it is enrolled and not yet completed.
pub proof fn lemma_tracked_lesson_completes(
    st: ContractView,
    caller: Seq<char>,
    now: u64,
    lesson_id: u64,
)
    requires
        st.lesson(lesson_id) is Some,
        st.module_tracked(caller, st.lesson(lesson_id).unwrap().module_id),
        st.course_tracked(
            caller,
            st.module(st.lesson(lesson_id).unwrap().module_id).unwrap().course_id,
        ),
    ensures
        complete_lesson_outcome(st, caller, now, lesson_id) is Ok <==> {
            let row = st.lesson_progress(lesson_id, caller);
            row is Some && row.unwrap().is_enrolled && row.unwrap().status
                != LessonProgressStatus::Completed
        },
        complete_lesson_outcome(st, caller, now, lesson_id) != Err::<ContractView, Error>(
            Error::IntegrityViolation,
        ),
{
    lemma_tracked_cascade_succeeds(
        st,
        caller,
        st.lesson(lesson_id).unwrap().module_id,
        Some(lesson_id),
        None,
    );
}

/// For a student with all the progress rows of the quiz's module and course, a
/// submission is never refused for a missing record.
pub proof fn lemma_tracked_quiz_grades(
    st: ContractView,
    caller: Seq<char>,
    now: u64,
    quizz_id: u64,
    submitted: Seq<QuestionView>,
)
    requires
        st.quizz(quizz_id) is Some,
        st.module_tracked(caller, st.quizz(quizz_id).unwrap().module_id),
        st.course_tracked(
            caller,
            st.module(st.quizz(quizz_id).unwrap().module_id).unwrap().course_id,
        ),
    ensures
        submit_quizz_outcome(st, caller, now, quizz_id, submitted) != Err::<ContractView, Error>(
            Error::IntegrityViolation,
        ),
        submit_quizz_outcome(st, caller, now, quizz_id, submitted) is Ok <==> {
            let row = st.quizz_progress(quizz_id, caller);
            &&& row is Some
            &&& row.unwrap().is_enrolled
            &&& !row.unwrap().is_correct
            &&& submitted.len() == st.quizz(quizz_id).unwrap().questions.len()
            &&& row.unwrap().try_count < u16::MAX
        },
{
    lemma_tracked_cascade_succeeds(
        st,
        caller,
        st.quizz(quizz_id).unwrap().module_id,
        None,
        Some(quizz_id),
    );
}

/// Whether every progress row and enrollment of the first state has a counterpart under
/// the same key in the second, and the courses and modules are the same.
pub open spec fn rows_kept(a: ContractView, b: ContractView) -> bool {
    &&& b.courses == a.courses
    &&& b.modules == a.modules
    &&& forall|id: u64, student: Seq<char>|
        a.module_progress(id, student) is Some ==> #[trigger] b.module_progress(id, student)
            is Some
    &&& forall|id: u64, student: Seq<char>|
        a.lesson_progress(id, student) is Some ==> #[trigger] b.lesson_progress(id, student)
            is Some
    &&& forall|id: u64, student: Seq<char>|
        a.quizz_progress(id, student) is Some ==> #[trigger] b.quizz_progress(id, student)
            is Some
    &&& forall|id: u64, student: Seq<char>|
        a.enrollment(id, student) is Some ==> #[trigger] b.enrollment(id, student) is Some
}

/// A student who has all the progress rows of a course still has them where no row is
/// lost and the course is as it was.
pub proof fn lemma_tracking_follows_rows(
    a: ContractView,
    b: ContractView,
    student: Seq<char>,
    course_id: u64,
)
    requires
        rows_kept(a, b),
        a.course_tracked(student, course_id),
    ensures
        b.course_tracked(student, course_id),
{
    let c = a.course(course_id).unwrap();
    assert forall|k: int| 0 <= k < c.modules_ids.len() implies b.module_tracked(
        student,
        #[trigger] c.modules_ids[k],
    ) by {
        assert(a.module_tracked(student, c.modules_ids[k]));
        let m = a.module(c.modules_ids[k]).unwrap();
        assert forall|j: int| 0 <= j < m.lessons_ids.len() implies b.lesson_progress(
            #[trigger] m.lessons_ids[j],
            student,
        ) is Some by {
            assert(a.lesson_progress(m.lessons_ids[j], student) is Some);
        }
    }
}

/// Completing a lesson loses no row.
pub proof fn lemma_complete_lesson_keeps_rows(
    st: ContractView,
    caller: Seq<char>,
    now: u64,
    lesson_id: u64,
)
    requires
        complete_lesson_outcome(st, caller, now, lesson_id) is Ok,
    ensures
        rows_kept(st, complete_lesson_outcome(st, caller, now, lesson_id).unwrap()),
{
    let after = complete_lesson_outcome(st, caller, now, lesson_id).unwrap();
    let module_id = st.lesson(lesson_id).unwrap().module_id;
    let course_id = st.module(module_id).unwrap().course_id;
    lemma_first_where(st.lesson_progresses, lesson_progress_is(lesson_id, caller));
    lemma_first_where(st.module_progresses, module_progress_is(module_id, caller));
    lemma_first_where(st.enrollments, enrollment_is(course_id, caller));
    assert forall|id: u64, student: Seq<char>| #[trigger]
        after.module_progress(id, student) is Some == st.module_progress(
            id,
            student,
        ) is Some by {
        lemma_first_where_same(
            after.module_progresses,
            module_progress_is(id, student),
            st.module_progresses,
            module_progress_is(id, student),
        );
    }
    assert forall|id: u64, student: Seq<char>| #[trigger]
        after.lesson_progress(id, student) is Some == st.lesson_progress(
            id,
            student,
        ) is Some by {
        lemma_first_where_same(
            after.lesson_progresses,
            lesson_progress_is(id, student),
            st.lesson_progresses,
            lesson_progress_is(id, student),
        );
    }
    assert forall|id: u64, student: Seq<char>| #[trigger]
        after.enrollment(id, student) is Some == st.enrollment(id, student) is Some by {
        lemma_first_where_same(
            after.enrollments,
            enrollment_is(id, student),
            st.enrollments,
            enrollment_is(id, student),
        );
    }
}

/// Submitting answers to a quiz loses no row.
pub proof fn lemma_submit_quizz_keeps_rows(
    st: ContractView,
    caller: Seq<char>,
    now: u64,
    quizz_id: u64,
    submitted: Seq<QuestionView>,
)
    requires
        submit_quizz_outcome(st, caller, now, quizz_id, submitted) is Ok,
    ensures
        rows_kept(st, submit_quizz_outcome(st, caller, now, quizz_id, submitted).unwrap()),
{
    let after = submit_quizz_outcome(st, caller, now, quizz_id, submitted).unwrap();
    let module_id = st.quizz(quizz_id).unwrap().module_id;
    lemma_first_where(st.quizz_progresses, quizz_progress_is(quizz_id, caller));
    if submitted == st.quizz(quizz_id).unwrap().questions {
        let course_id = st.module(module_id).unwrap().course_id;
        lemma_first_where(st.module_progresses, module_progress_is(module_id, caller));
        lemma_first_where(st.enrollments, enrollment_is(course_id, caller));
    }
    assert forall|id: u64, student: Seq<char>| #[trigger]
        after.module_progress(id, student) is Some == st.module_progress(
            id,
            student,
        ) is Some by {
        lemma_first_where_same(
            after.module_progresses,
            module_progress_is(id, student),
            st.module_progresses,
            module_progress_is(id, student),
        );
    }
    assert forall|id: u64, student: Seq<char>| #[trigger]
        after.quizz_progress(id, student) is Some == st.quizz_progress(id, student) is Some by {
        lemma_first_where_same(
            after.quizz_progresses,
            quizz_progress_is(id, student),
            st.quizz_progresses,
            quizz_progress_is(id, student),
        );
    }
    assert forall|id: u64, student: Seq<char>| #[trigger]
        after.enrollment(id, student) is Some == st.enrollment(id, student) is Some by {
        lemma_first_where_same(
            after.enrollments,
            enrollment_is(id, student),
            st.enrollments,
            enrollment_is(id, student),
        );
    }
}

/// A match in a sequence is still a match when more is laid after it.
proof fn lemma_first_where_survives<T>(s: Seq<T>, more: Seq<T>, p: spec_fn(T) -> bool)
    requires
        first_where(s, p) is Some,
    ensures
        first_where(s + more, p) is Some,
{
    lemma_first_where(s, p);
    lemma_first_where(s + more, p);
    let i = first_where(s, p).unwrap();
    assert((s + more)[i] == s[i]);
}

/// A checkout loses no row.
pub proof fn lemma_checkout_keeps_every_row(
    st: ContractView,
    caller: Seq<char>,
    deposit: u128,
    now: u64,
)
    requires
        checkout_outcome(st, caller, deposit, now) is Ok,
    ensures
        rows_kept(st, checkout_outcome(st, caller, deposit, now).unwrap().0),
{
    let after = checkout_outcome(st, caller, deposit, now).unwrap().0;
    assert forall|id: u64, student: Seq<char>|
        st.module_progress(id, student) is Some implies #[trigger] after.module_progress(
        id,
        student,
    ) is Some by {
        lemma_first_where_survives(
            st.module_progresses,
            after.module_progresses.skip(st.module_progresses.len() as int),
            module_progress_is(id, student),
        );
        assert(after.module_progresses =~= st.module_progresses + after.module_progresses.skip(
            st.module_progresses.len() as int,
        ));
    }
    assert forall|id: u64, student: Seq<char>|
        st.lesson_progress(id, student) is Some implies #[trigger] after.lesson_progress(
        id,
        student,
    ) is Some by {
        lemma_first_where_survives(
            st.lesson_progresses,
            after.lesson_progresses.skip(st.lesson_progresses.len() as int),
            lesson_progress_is(id, student),
        );
        assert(after.lesson_progresses =~= st.lesson_progresses + after.lesson_progresses.skip(
            st.lesson_progresses.len() as int,
        ));
    }
    assert forall|id: u64, student: Seq<char>|
        st.quizz_progress(id, student) is Some implies #[trigger] after.quizz_progress(
        id,
        student,
    ) is Some by {
        lemma_first_where_survives(
            st.quizz_progresses,
            after.quizz_progresses.skip(st.quizz_progresses.len() as int),
            quizz_progress_is(id, student),
        );
        assert(after.quizz_progresses =~= st.quizz_progresses + after.quizz_progresses.skip(
            st.quizz_progresses.len() as int,
        ));
    }
    assert forall|id: u64, student: Seq<char>|
        st.enrollment(id, student) is Some implies #[trigger] after.enrollment(id, student)
        is Some by {
        lemma_first_where_same(
            after.enrollments,
            enrollment_is(id, student),
            st.enrollments,
            enrollment_is(id, student),
        );
    }
}

/// After a checkout on a consistent platform the caller has all the progress rows of
/// every course that was in the cart: nothing that the courses hold at that moment is
/// left without a row.
#[verifier::rlimit(40)]
pub proof fn lemma_checkout_tracks_courses(
    st: ContractView,
    caller: Seq<char>,
    deposit: u128,
    now: u64,
    k: int,
)
    requires
        st.consistent(),
        checkout_outcome(st, caller, deposit, now) is Ok,
        0 <= k < st.checkout_courses(caller).len(),
    ensures
        checkout_outcome(st, caller, deposit, now).unwrap().0.course_tracked(
            caller,
            st.checkout_courses(caller)[k],
        ),
{
    let after = checkout_outcome(st, caller, deposit, now).unwrap().0;
    let courses = st.checkout_courses(caller);
    let modules = st.checkout_modules(courses);
    let quizzes = st.checkout_quizzes(modules);
    let lessons = st.checkout_lessons(modules);
    let course_id = courses[k];
    let c = st.course(course_id).unwrap();
    lemma_lookups_in_range(st);
    // The enrollment that put the course into the cart is still there.
    crate::seqs::lemma_collect_members(st.enrollments, carted_course_id(caller), k);
    let e = choose|e: int|
        0 <= e < st.enrollments.len() && carted_course_id(caller)(#[trigger] st.enrollments[e])
            == Some(course_id);
    assert(enrollment_is(course_id, caller)(after.enrollments[e]));
    lemma_first_where(after.enrollments, enrollment_is(course_id, caller));
    assert forall|j: int| 0 <= j < c.modules_ids.len() implies after.module_tracked(
        caller,
        #[trigger] c.modules_ids[j],
    ) by {
        let module_id = c.modules_ids[j];
        let ci = st.course_pos(course_id).unwrap();
        assert(st.module(st.courses[ci].modules_ids[j]) is Some);
        let mi = st.module_pos(module_id).unwrap();
        let m = st.modules[mi];
        // The module is one of those that the checkout fans out to.
        lemma_gather_covers(courses, modules_of(st), k, j);
        let x = choose|x: int| 0 <= x < modules.len() && modules[x] == module_id;
        assert(module_progress_is(module_id, caller)(
            after.module_progresses[st.module_progresses.len() + x],
        ));
        lemma_first_where(after.module_progresses, module_progress_is(module_id, caller));
        // So are its lessons.
        assert forall|i: int| 0 <= i < m.lessons_ids.len() implies stored_lesson(st)(
            #[trigger] m.lessons_ids[i],
        ) == Some(m.lessons_ids[i]) by {
            assert(st.lesson(st.modules[mi].lessons_ids[i]) is Some);
        }
        lemma_collect_keeps_all(m.lessons_ids, stored_lesson(st));
        assert(lessons_of(st)(module_id) == m.lessons_ids);
        assert forall|i: int| 0 <= i < m.lessons_ids.len() implies after.lesson_progress(
            #[trigger] m.lessons_ids[i],
            caller,
        ) is Some by {
            let lesson_id = m.lessons_ids[i];
            lemma_gather_covers(modules, lessons_of(st), x, i);
            let y = choose|y: int| 0 <= y < lessons.len() && lessons[y] == lesson_id;
            assert(lesson_progress_is(lesson_id, caller)(
                after.lesson_progresses[st.lesson_progresses.len() + y],
            ));
            lemma_first_where(after.lesson_progresses, lesson_progress_is(lesson_id, caller));
        }
        // And so is its quiz.
        if m.quizz_id is Some {
            let quizz_id = m.quizz_id.unwrap();
            lemma_collect_covers(modules, quizz_of(st), x);
            let z = choose|z: int| 0 <= z < quizzes.len() && quizzes[z] == quizz_id;
            assert(quizz_progress_is(quizz_id, caller)(
                after.quizz_progresses[st.quizz_progresses.len() + z],
            ));
            lemma_first_where(after.quizz_progresses, quizz_progress_is(quizz_id, caller));
        }
    }
}

/// How far an enrollment has come: carted, then enrolled, then completed.
pub open spec fn enrollment_stage(status: EnrollmentStatus) -> int {
    match status {
        EnrollmentStatus::Carted => 0,
        EnrollmentStatus::Enrolled => 1,
        EnrollmentStatus::Completed => 2,
    }
}

/// How far a module has come: not started, then started, then completed.
pub open spec fn module_stage(status: ModuleProgressStatus) -> int {
    match status {
        ModuleProgressStatus::NotStarted => 0,
        ModuleProgressStatus::Started => 1,
        ModuleProgressStatus::Completed => 2,
    }
}

/// How far a lesson has come: not started, then completed.
pub open spec fn lesson_stage(status: LessonProgressStatus) -> int {
    match status {
        LessonProgressStatus::NotStarted => 0,
        LessonProgressStatus::Completed => 1,
    }
}

/// How far a quiz has come: not started, then submitted, then completed.
pub open spec fn quizz_stage(status: QuizzProgressStatus) -> int {
    match status {
        QuizzProgressStatus::NotStarted => 0,
        QuizzProgressStatus::Submitted => 1,
        QuizzProgressStatus::Completed => 2,
    }
}

/// A quiz row says completed exactly when its last attempt was correct.
pub open spec fn quizz_row_settled(row: QuizzProgressView) -> bool {
    row.is_correct == (row.status == QuizzProgressStatus::Completed)
}

/// Whether the second state has every enrollment and progress row of the first, in
/// place, at the same stage or a later one.
pub open spec fn progress_advanced(a: ContractView, b: ContractView) -> bool {
    &&& a.enrollments.len() <= b.enrollments.len()
    &&& a.module_progresses.len() <= b.module_progresses.len()
    &&& a.lesson_progresses.len() <= b.lesson_progresses.len()
    &&& a.quizz_progresses.len() <= b.quizz_progresses.len()
    &&& forall|i: int|
        0 <= i < a.enrollments.len() ==> enrollment_stage((#[trigger] a.enrollments[i]).status)
            <= enrollment_stage(b.enrollments[i].status)
    &&& forall|i: int|
        0 <= i < a.module_progresses.len() ==> module_stage(
            (#[trigger] a.module_progresses[i]).status,
        ) <= module_stage(b.module_progresses[i].status)
    &&& forall|i: int|
        0 <= i < a.lesson_progresses.len() ==> lesson_stage(
            (#[trigger] a.lesson_progresses[i]).status,
        ) <= lesson_stage(b.lesson_progresses[i].status)
    &&& forall|i: int|
        0 <= i < a.quizz_progresses.len() && quizz_row_settled(#[trigger] a.quizz_progresses[i])
            ==> quizz_row_settled(b.quizz_progresses[i]) && quizz_stage(
            a.quizz_progresses[i].status,
        ) <= quizz_stage(b.quizz_progresses[i].status) && a.quizz_progresses[i].try_count
            <= b.quizz_progresses[i].try_count
}

/// Completing a lesson takes nothing back: no enrollment and no progress row returns to
/// an earlier stage.
pub proof fn lemma_complete_lesson_advances(
    st: ContractView,
    caller: Seq<char>,
    now: u64,
    lesson_id: u64,
)
    requires
        complete_lesson_outcome(st, caller, now, lesson_id) is Ok,
    ensures
        progress_advanced(st, complete_lesson_outcome(st, caller, now, lesson_id).unwrap()),
{
    let module_id = st.lesson(lesson_id).unwrap().module_id;
    let course_id = st.module(module_id).unwrap().course_id;
    lemma_first_where(st.lesson_progresses, lesson_progress_is(lesson_id, caller));
    lemma_first_where(st.module_progresses, module_progress_is(module_id, caller));
    lemma_first_where(st.enrollments, enrollment_is(course_id, caller));
}

/// Submitting answers to a quiz takes nothing back.
pub proof fn lemma_submit_quizz_advances(
    st: ContractView,
    caller: Seq<char>,
    now: u64,
    quizz_id: u64,
    submitted: Seq<QuestionView>,
)
    requires
        submit_quizz_outcome(st, caller, now, quizz_id, submitted) is Ok,
    ensures
        progress_advanced(st, submit_quizz_outcome(st, caller, now, quizz_id, submitted).unwrap()),
{
    let module_id = st.quizz(quizz_id).unwrap().module_id;
    lemma_first_where(st.quizz_progresses, quizz_progress_is(quizz_id, caller));
    if submitted == st.quizz(quizz_id).unwrap().questions {
        let course_id = st.module(module_id).unwrap().course_id;
        lemma_first_where(st.module_progresses, module_progress_is(module_id, caller));
        lemma_first_where(st.enrollments, enrollment_is(course_id, caller));
    }
}

/// Re-evaluating a module takes nothing back.
pub proof fn lemma_reevaluation_advances(
    st: ContractView,
    module_id: u64,
    student: Seq<char>,
    now: u64,
)
    requires
        reevaluate_outcome(st, module_id, student, now) is Ok,
    ensures
        progress_advanced(st, reevaluate_outcome(st, module_id, student, now).unwrap()),
{
    let course_id = st.module(module_id).unwrap().course_id;
    lemma_first_where(st.module_progresses, module_progress_is(module_id, student));
    lemma_first_where(st.enrollments, enrollment_is(course_id, student));
}

/// A checkout takes nothing back.
pub proof fn lemma_checkout_advances(st: ContractView, caller: Seq<char>, deposit: u128, now: u64)
    requires
        checkout_outcome(st, caller, deposit, now) is Ok,
    ensures
        progress_advanced(st, checkout_outcome(st, caller, deposit, now).unwrap().0),
{
}

} // verus!
