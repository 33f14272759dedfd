use crate::catalog::{
    archive_course_outcome, close_gap, delete_lesson_outcome, id_is, publish_course_outcome,
};
use crate::consistency::{lemma_lookups_in_range, lemma_records_are_found};
use crate::checkout::{
    carted_course_id, checkout_outcome, in_cart_of, lessons_of, modules_of, stored_lesson,
};
use crate::contract::{
    course_is, enrollment_is, lesson_is, lesson_progress_is, module_progress_is,
    quizz_progress_is, ContractView,
};
use crate::error::Error;
use crate::models::{
    CourseStatus, EnrollmentStatus, LessonProgressStatus, LessonView, ModuleProgressStatus,
    QuizzProgressStatus, TransferView,
};
use crate::progress::{
    apply_cascade, complete_lesson_outcome, finish_lesson, lesson_open, lessons_complete,
    module_open, modules_complete, plan_cascade, quizz_passed, record_attempt, reevaluate_outcome,
    start_module, submit_quizz_outcome,
};
use crate::quiz::QuestionView;
use crate::seqs::{
    first_where, gather, lemma_collect_keeps_all, lemma_collect_members, lemma_first_where,
    lemma_first_where_same, lemma_gather_members,
};
use vstd::prelude::*;

verus! {

/// Publishing is idempotent: once a course has been published, publishing it again
/// succeeds and the course is still published.
pub proof fn lemma_publish_is_idempotent(
    st: ContractView,
    caller: Seq<char>,
    course_id: u64,
    first_at: u64,
    again_at: u64,
)
    requires
        publish_course_outcome(st, caller, course_id, first_at) is Ok,
    ensures
        ({
            let once = publish_course_outcome(st, caller, course_id, first_at).unwrap();
            let twice = publish_course_outcome(once, caller, course_id, again_at);
            &&& once.course(course_id).unwrap().status == CourseStatus::Published
            &&& twice is Ok
            &&& twice.unwrap().course(course_id).unwrap().status == CourseStatus::Published
            &&& again_at == first_at ==> twice.unwrap() == once
        }),
{
    let once = publish_course_outcome(st, caller, course_id, first_at).unwrap();
    lemma_first_where(st.courses, course_is(course_id));
    lemma_first_where_same(once.courses, course_is(course_id), st.courses, course_is(course_id));
    let twice = publish_course_outcome(once, caller, course_id, again_at).unwrap();
    lemma_first_where_same(twice.courses, course_is(course_id), st.courses, course_is(course_id));
    if again_at == first_at {
        assert(twice.courses =~= once.courses);
    }
}

/// Archiving is reachable from any status and idempotent: whoever may manage a course can
/// archive it whatever its status is, and archiving it again changes nothing.
pub proof fn lemma_archive_from_any_status(st: ContractView, caller: Seq<char>, course_id: u64)
    requires
        st.managed_course(caller, course_id) is Ok,
    ensures
        ({
            let once = archive_course_outcome(st, caller, course_id);
            &&& once is Ok
            &&& once.unwrap().course(course_id).unwrap().status == CourseStatus::Archived
            &&& archive_course_outcome(once.unwrap(), caller, course_id) == once
        }),
{
    let once = archive_course_outcome(st, caller, course_id).unwrap();
    lemma_first_where(st.courses, course_is(course_id));
    lemma_first_where_same(once.courses, course_is(course_id), st.courses, course_is(course_id));
    let twice = archive_course_outcome(once, caller, course_id).unwrap();
    assert(twice.courses =~= once.courses);
}

/// A course that has been archived can still be published, and one that has been
/// published can still be archived: neither status is final.
pub proof fn lemma_status_changes_keep_access(
    st: ContractView,
    caller: Seq<char>,
    course_id: u64,
    at: u64,
)
    requires
        st.managed_course(caller, course_id) is Ok,
    ensures
        publish_course_outcome(st, caller, course_id, at) is Ok,
        publish_course_outcome(st, caller, course_id, at).unwrap().managed_course(
            caller,
            course_id,
        ) is Ok,
        archive_course_outcome(st, caller, course_id).unwrap().managed_course(caller, course_id)
            is Ok,
{
    lemma_first_where(st.courses, course_is(course_id));
    let published = publish_course_outcome(st, caller, course_id, at).unwrap();
    lemma_first_where_same(
        published.courses,
        course_is(course_id),
        st.courses,
        course_is(course_id),
    );
    let archived = archive_course_outcome(st, caller, course_id).unwrap();
    lemma_first_where_same(archived.courses, course_is(course_id), st.courses, course_is(course_id));
}

/// The modules that a checkout of a single course fans out to are that course's modules.
pub proof fn lemma_checkout_of_one_course(st: ContractView, course_id: u64)
    ensures
        st.checkout_modules(seq![course_id]) == match st.course(course_id) {
            Some(c) => c.modules_ids,
            None => Seq::empty(),
        },
{
    let one = seq![course_id];
    assert(one.drop_last() =~= Seq::<u64>::empty());
    assert(gather(one.drop_last(), modules_of(st)) =~= Seq::<u64>::empty());
    assert(gather(one, modules_of(st)) =~= modules_of(st)(course_id));
}

/// Fan-out completeness: a successful checkout adds exactly one progress row of the
/// caller for every module, every quiz and every lesson of the courses bought, in order,
/// each not started and enrolled, and leaves the earlier rows where they were.
pub proof fn lemma_fan_out_is_complete(st: ContractView, caller: Seq<char>, deposit: u128, now: u64)
    requires
        checkout_outcome(st, caller, deposit, now) is Ok,
    ensures
        ({
            let after = checkout_outcome(st, caller, deposit, now).unwrap().0;
            let modules = st.checkout_modules(st.checkout_courses(caller));
            let quizzes = st.checkout_quizzes(modules);
            let lessons = st.checkout_lessons(modules);
            let m0 = st.module_progresses.len();
            let q0 = st.quizz_progresses.len();
            let l0 = st.lesson_progresses.len();
            &&& after.module_progresses.len() == m0 + modules.len()
            &&& after.quizz_progresses.len() == q0 + quizzes.len()
            &&& after.lesson_progresses.len() == l0 + lessons.len()
            &&& after.module_progresses.take(m0 as int) == st.module_progresses
            &&& after.quizz_progresses.take(q0 as int) == st.quizz_progresses
            &&& after.lesson_progresses.take(l0 as int) == st.lesson_progresses
            &&& forall|k: int|
                0 <= k < modules.len() ==> {
                    let row = #[trigger] after.module_progresses[m0 + k];
                    &&& row.module_id == modules[k]
                    &&& row.student_id == caller
                    &&& row.status == ModuleProgressStatus::NotStarted
                    &&& row.is_enrolled
                    &&& row.id == st.module_progress_count + k
                }
            &&& forall|k: int|
                0 <= k < quizzes.len() ==> {
                    let row = #[trigger] after.quizz_progresses[q0 + k];
                    &&& row.quizz_id == quizzes[k]
                    &&& row.student_id == caller
                    &&& row.status == QuizzProgressStatus::NotStarted
                    &&& row.is_enrolled
                    &&& row.try_count == 0
                    &&& row.id == st.quizz_progress_count + k
                }
            &&& forall|k: int|
                0 <= k < lessons.len() ==> {
                    let row = #[trigger] after.lesson_progresses[l0 + k];
                    &&& row.lesson_id == lessons[k]
                    &&& row.student_id == caller
                    &&& row.status == LessonProgressStatus::NotStarted
                    &&& row.is_enrolled
                    &&& row.id == st.lesson_progress_count + k
                }
        }),
{
    let after = checkout_outcome(st, caller, deposit, now).unwrap().0;
    assert(after.module_progresses.take(st.module_progresses.len() as int)
        =~= st.module_progresses);
    assert(after.quizz_progresses.take(st.quizz_progresses.len() as int) =~= st.quizz_progresses);
    assert(after.lesson_progresses.take(st.lesson_progresses.len() as int)
        =~= st.lesson_progresses);
}

/// Checkout atomicity, the failing half: a deposit below the price and fee of the carted
/// courses is refused as insufficient, whatever else holds.
pub proof fn lemma_short_payment_is_refused(
    st: ContractView,
    caller: Seq<char>,
    deposit: u128,
    now: u64,
)
    requires
        deposit < st.required_payment(caller) <= u128::MAX,
    ensures
        checkout_outcome(st, caller, deposit, now) == Err::<
            (ContractView, Seq<TransferView>),
            Error,
        >(Error::InsufficientPayment),
{
}

/// Checkout atomicity, the succeeding half: on a consistent catalog with room for the new
/// rows, a deposit of exactly the price and fee of the carted courses is accepted, every
/// enrollment in the caller's cart becomes enrolled, and no other enrollment changes.
pub proof fn lemma_exact_payment_enrolls(st: ContractView, caller: Seq<char>, now: u64)
    requires
        st.consistent(),
        st.required_payment(caller) <= u128::MAX,
        checkout_outcome(st, caller, st.required_payment(caller) as u128, now) != Err::<
            (ContractView, Seq<TransferView>),
            Error,
        >(Error::CapacityExceeded),
    ensures
        ({
            let outcome = checkout_outcome(st, caller, st.required_payment(caller) as u128, now);
            &&& outcome is Ok
            &&& outcome.unwrap().0.enrollments.len() == st.enrollments.len()
            &&& forall|i: int|
                0 <= i < st.enrollments.len() ==> {
                    let before = st.enrollments[i];
                    let after = #[trigger] outcome.unwrap().0.enrollments[i];
                    if in_cart_of(caller)(before) {
                        after.status == EnrollmentStatus::Enrolled && after.enrolled_at == Some(now)
                            && after.course_id == before.course_id && after.student_id == caller
                    } else {
                        after == before
                    }
                }
        }),
{
    lemma_consistent_catalog_checks_out(st, caller);
}

/// On a consistent platform a checkout finds every course, module and quiz that it has
/// to read, whoever checks out.
pub proof fn lemma_consistent_catalog_checks_out(st: ContractView, caller: Seq<char>)
    requires
        st.consistent(),
    ensures
        st.checkout_consistent(caller),
{
    let courses = st.checkout_courses(caller);
    let modules = st.checkout_modules(courses);
    lemma_lookups_in_range(st);
    assert forall|k: int| 0 <= k < courses.len() implies st.course(#[trigger] courses[k])
        is Some by {
        lemma_collect_members(st.enrollments, carted_course_id(caller), k);
        let i = choose|i: int|
            0 <= i < st.enrollments.len() && carted_course_id(caller)(
                #[trigger] st.enrollments[i],
            ) == Some(courses[k]);
        assert(st.course(st.enrollments[i].course_id) is Some);
    }
    assert forall|k: int| 0 <= k < modules.len() implies st.module_ready(
        #[trigger] modules[k],
    ) by {
        lemma_gather_members(courses, modules_of(st), k);
        let (i, j) = choose|i: int, j: int|
            0 <= i < courses.len() && 0 <= j < modules_of(st)(courses[i]).len()
                && #[trigger] modules_of(st)(courses[i])[j] == modules[k];
        let c = st.course_pos(courses[i]).unwrap();
        assert(st.module(st.courses[c].modules_ids[j]) is Some);
        let m = st.module_pos(modules[k]).unwrap();
        assert(st.modules[m].quizz_id is Some ==> st.quizz(st.modules[m].quizz_id.unwrap())
            is Some);
    }
}

/// On a consistent platform a checkout skips no lesson: the lessons that it fans out to
/// for a module are all the lessons that the module lists.
pub proof fn lemma_consistent_fan_out_covers_every_lesson(st: ContractView, module_id: u64)
    requires
        st.consistent(),
        st.module(module_id) is Some,
    ensures
        lessons_of(st)(module_id) == st.module(module_id).unwrap().lessons_ids,
{
    lemma_lookups_in_range(st);
    let m = st.module_pos(module_id).unwrap();
    let list = st.modules[m].lessons_ids;
    assert forall|k: int| 0 <= k < list.len() implies stored_lesson(st)(#[trigger] list[k])
        == Some(list[k]) by {
        assert(st.lesson(st.modules[m].lessons_ids[k]) is Some);
    }
    lemma_collect_keeps_all(list, stored_lesson(st));
}

/// On a consistent platform deleting a lesson depends on the lesson and the caller
/// alone: it succeeds exactly when the lesson exists and the caller is the mentor of its
/// course.
pub proof fn lemma_consistent_deletion_needs_only_ownership(
    st: ContractView,
    caller: Seq<char>,
    lesson_id: u64,
)
    requires
        st.consistent(),
    ensures
        delete_lesson_outcome(st, caller, lesson_id) != Err::<ContractView, Error>(
            Error::IntegrityViolation,
        ),
        delete_lesson_outcome(st, caller, lesson_id) is Ok <==> st.owned_lesson(caller, lesson_id)
            is Ok,
        st.owned_lesson(caller, lesson_id) is Ok <==> st.lesson(lesson_id) is Some && st.course(
            st.module(st.lesson(lesson_id).unwrap().module_id).unwrap().course_id,
        ).unwrap().mentor_id == caller,
{
    lemma_lookups_in_range(st);
    lemma_records_are_found(st);
    if st.lesson_pos(lesson_id) is Some {
        let l = st.lesson_pos(lesson_id).unwrap();
        assert(st.module(st.lessons[l].module_id) is Some);
        let m = st.module_pos(st.lessons[l].module_id).unwrap();
        assert(st.course(st.modules[m].course_id) is Some);
        let list = st.modules[m].lessons_ids;
        assert(list.contains(st.lessons[l].id));
        lemma_first_where(list, id_is(lesson_id));
        let k0 = first_where(list, id_is(lesson_id)).unwrap();
        let siblings = list.remove(k0);
        assert forall|k: int| 0 <= k < siblings.len() implies st.lesson(#[trigger] siblings[k])
            is Some by {
            let k1 = if k < k0 {
                k
            } else {
                k + 1
            };
            assert(siblings[k] == list[k1]);
            assert(st.lesson(st.modules[m].lessons_ids[k1]) is Some);
        }
    }
}

/// Cascade order independence, where a lesson comes last: if completing a lesson leaves
/// every lesson of its module completed and the module's quiz, if any, completed, then
/// it leaves the module completed, whatever was completed first.
pub proof fn lemma_last_lesson_completes_module(
    st: ContractView,
    caller: Seq<char>,
    now: u64,
    lesson_id: u64,
)
    requires
        complete_lesson_outcome(st, caller, now, lesson_id) is Ok,
        ({
            let after = complete_lesson_outcome(st, caller, now, lesson_id).unwrap();
            let module = st.module(st.lesson(lesson_id).unwrap().module_id).unwrap();
            &&& forall|k: int|
                0 <= k < module.lessons_ids.len() ==> after.lesson_done(
                    #[trigger] module.lessons_ids[k],
                    caller,
                )
            &&& module.quizz_id is Some ==> after.quizz_done(module.quizz_id.unwrap(), caller)
        }),
    ensures
        complete_lesson_outcome(st, caller, now, lesson_id).unwrap().module_done(
            st.lesson(lesson_id).unwrap().module_id,
            caller,
        ),
{
    let after = complete_lesson_outcome(st, caller, now, lesson_id).unwrap();
    let module_id = st.lesson(lesson_id).unwrap().module_id;
    let module = st.module(module_id).unwrap();
    let lp = st.lesson_progress_pos(lesson_id, caller).unwrap();
    let plan = plan_cascade(st, module_id, caller, Some(lesson_id), None).unwrap();
    lemma_first_where(st.lesson_progresses, lesson_progress_is(lesson_id, caller));
    // Completing the lesson changes no key, so every lookup of a lesson row finds the row
    // that it found before.
    assert forall|k: int| 0 <= k < module.lessons_ids.len() implies !lesson_open(
        st,
        caller,
        Some(lesson_id),
    )(#[trigger] module.lessons_ids[k]) by {
        let l = module.lessons_ids[k];
        if l != lesson_id {
            lemma_first_where_same(
                after.lesson_progresses,
                lesson_progress_is(l, caller),
                st.lesson_progresses,
                lesson_progress_is(l, caller),
            );
            lemma_first_where(st.lesson_progresses, lesson_progress_is(l, caller));
            assert(after.lesson_done(l, caller));
        }
    }
    lemma_first_where(module.lessons_ids, lesson_open(st, caller, Some(lesson_id)));
    assert(lessons_complete(st, module.lessons_ids, caller, Some(lesson_id)) == Ok::<bool, Error>(
        true,
    ));
    assert(after.quizz_progresses == st.quizz_progresses);
    assert(quizz_passed(st, module, caller, None) == Ok::<bool, Error>(true));
    assert(plan.module_completes);
    lemma_first_where(st.module_progresses, module_progress_is(module_id, caller));
    lemma_first_where_same(
        after.module_progresses,
        module_progress_is(module_id, caller),
        st.module_progresses,
        module_progress_is(module_id, caller),
    );
}

/// Cascade order independence, where the quiz comes last: if a correct submission leaves
/// every lesson of the quiz's module completed, and the quiz is the module's quiz, then
/// it leaves the module completed, whatever was completed first.
pub proof fn lemma_last_quiz_completes_module(
    st: ContractView,
    caller: Seq<char>,
    now: u64,
    quizz_id: u64,
    submitted: Seq<QuestionView>,
)
    requires
        submit_quizz_outcome(st, caller, now, quizz_id, submitted) is Ok,
        submitted == st.quizz(quizz_id).unwrap().questions,
        ({
            let after = submit_quizz_outcome(st, caller, now, quizz_id, submitted).unwrap();
            let module = st.module(st.quizz(quizz_id).unwrap().module_id).unwrap();
            &&& module.quizz_id == Some(quizz_id)
            &&& forall|k: int|
                0 <= k < module.lessons_ids.len() ==> after.lesson_done(
                    #[trigger] module.lessons_ids[k],
                    caller,
                )
        }),
    ensures
        ({
            let after = submit_quizz_outcome(st, caller, now, quizz_id, submitted).unwrap();
            &&& after.quizz_done(quizz_id, caller)
            &&& after.module_done(st.quizz(quizz_id).unwrap().module_id, caller)
        }),
{
    let after = submit_quizz_outcome(st, caller, now, quizz_id, submitted).unwrap();
    let module_id = st.quizz(quizz_id).unwrap().module_id;
    let module = st.module(module_id).unwrap();
    let plan = plan_cascade(st, module_id, caller, None, Some(quizz_id)).unwrap();
    assert(after.lesson_progresses == st.lesson_progresses);
    assert forall|k: int| 0 <= k < module.lessons_ids.len() implies !lesson_open(st, caller, None)(
        #[trigger] module.lessons_ids[k],
    ) by {
        assert(after.lesson_done(module.lessons_ids[k], caller));
    }
    lemma_first_where(module.lessons_ids, lesson_open(st, caller, None));
    assert(plan.module_completes);
    lemma_first_where(st.module_progresses, module_progress_is(module_id, caller));
    lemma_first_where_same(
        after.module_progresses,
        module_progress_is(module_id, caller),
        st.module_progresses,
        module_progress_is(module_id, caller),
    );
    lemma_first_where(st.quizz_progresses, quizz_progress_is(quizz_id, caller));
    lemma_first_where_same(
        after.quizz_progresses,
        quizz_progress_is(quizz_id, caller),
        st.quizz_progresses,
        quizz_progress_is(quizz_id, caller),
    );
}

/// Every accepted submission, correct or not, raises the attempt count by exactly one
/// and marks the quiz submitted.
pub proof fn lemma_attempt_is_counted(
    st: ContractView,
    caller: Seq<char>,
    now: u64,
    quizz_id: u64,
    submitted: Seq<QuestionView>,
)
    requires
        submit_quizz_outcome(st, caller, now, quizz_id, submitted) is Ok,
    ensures
        ({
            let after = submit_quizz_outcome(st, caller, now, quizz_id, submitted).unwrap();
            let before_row = st.quizz_progress(quizz_id, caller).unwrap();
            let after_row = after.quizz_progress(quizz_id, caller).unwrap();
            &&& after.quizz_progress(quizz_id, caller) is Some
            &&& after_row.try_count == before_row.try_count + 1
            &&& after_row.is_submitted
            &&& after_row.is_correct == (submitted == st.quizz(quizz_id).unwrap().questions)
            &&& after_row.status == if after_row.is_correct {
                QuizzProgressStatus::Completed
            } else {
                QuizzProgressStatus::Submitted
            }
        }),
{
    let after = submit_quizz_outcome(st, caller, now, quizz_id, submitted).unwrap();
    lemma_first_where(st.quizz_progresses, quizz_progress_is(quizz_id, caller));
    lemma_first_where_same(
        after.quizz_progresses,
        quizz_progress_is(quizz_id, caller),
        st.quizz_progresses,
        quizz_progress_is(quizz_id, caller),
    );
}

/// Quiz idempotence: once a submission has been graded correct, every further submission
/// to that quiz by the same student is refused, whatever it holds.
pub proof fn lemma_passed_quiz_is_closed(
    st: ContractView,
    caller: Seq<char>,
    now: u64,
    quizz_id: u64,
    submitted: Seq<QuestionView>,
    later: u64,
    again: Seq<QuestionView>,
)
    requires
        submit_quizz_outcome(st, caller, now, quizz_id, submitted) is Ok,
        submitted == st.quizz(quizz_id).unwrap().questions,
    ensures
        submit_quizz_outcome(
            submit_quizz_outcome(st, caller, now, quizz_id, submitted).unwrap(),
            caller,
            later,
            quizz_id,
            again,
        ) == Err::<ContractView, Error>(Error::AlreadyInTerminalState),
{
    lemma_attempt_is_counted(st, caller, now, quizz_id, submitted);
    let after = submit_quizz_outcome(st, caller, now, quizz_id, submitted).unwrap();
    assert(after.quizzes == st.quizzes);
    lemma_first_where(st.quizz_progresses, quizz_progress_is(quizz_id, caller));
    lemma_first_where_same(
        after.quizz_progresses,
        quizz_progress_is(quizz_id, caller),
        st.quizz_progresses,
        quizz_progress_is(quizz_id, caller),
    );
}

/// Lookups of lesson rows, and with them the scan of a module's lessons, give the same
/// answers in two states whose lesson rows have the same keys and the same statuses,
/// except that the one may count a lesson as completed that the other has completed.
proof fn lemma_lessons_scan_agrees(
    st: ContractView,
    other: ContractView,
    lessons: Seq<u64>,
    student: Seq<char>,
    counted: Option<u64>,
)
    requires
        st.lesson_progresses.len() == other.lesson_progresses.len(),
        forall|j: int|
            0 <= j < st.lesson_progresses.len() ==> {
                let a = #[trigger] st.lesson_progresses[j];
                let b = other.lesson_progresses[j];
                &&& a.lesson_id == b.lesson_id
                &&& a.student_id == b.student_id
                &&& (a.status == b.status || (a.student_id == student && Some(a.lesson_id)
                    == counted && b.status == LessonProgressStatus::Completed))
            },
        counted is Some ==> other.lesson_done(counted.unwrap(), student),
    ensures
        lessons_complete(st, lessons, student, counted) == lessons_complete(
            other,
            lessons,
            student,
            None,
        ),
{
    assert forall|k: int| 0 <= k < lessons.len() implies lesson_open(st, student, counted)(
        lessons[k],
    ) == lesson_open(other, student, None)(lessons[k]) && (st.lesson_progress_pos(
        lessons[k],
        student,
    ) is None) == (other.lesson_progress_pos(lessons[k], student) is None) by {
        let l = lessons[k];
        lemma_first_where_same(
            st.lesson_progresses,
            lesson_progress_is(l, student),
            other.lesson_progresses,
            lesson_progress_is(l, student),
        );
        lemma_first_where(st.lesson_progresses, lesson_progress_is(l, student));
    }
    lemma_first_where_same(
        lessons,
        lesson_open(st, student, counted),
        lessons,
        lesson_open(other, student, None),
    );
    lemma_first_where(lessons, lesson_open(st, student, counted));
}

/// The same for the scan of a course's modules.
proof fn lemma_modules_scan_agrees(
    st: ContractView,
    other: ContractView,
    modules: Seq<u64>,
    student: Seq<char>,
    counted: Option<u64>,
    still: Option<u64>,
)
    requires
        st.module_progresses.len() == other.module_progresses.len(),
        forall|j: int|
            0 <= j < st.module_progresses.len() ==> {
                let a = #[trigger] st.module_progresses[j];
                let b = other.module_progresses[j];
                &&& a.module_id == b.module_id
                &&& a.student_id == b.student_id
                &&& ((a.status == ModuleProgressStatus::Completed) == (b.status
                    == ModuleProgressStatus::Completed) || (a.student_id == student && Some(
                    a.module_id,
                ) == counted && b.status == ModuleProgressStatus::Completed))
            },
        still == counted || (still is None && other.module_done(counted.unwrap(), student)),
    ensures
        modules_complete(st, modules, student, counted) == modules_complete(
            other,
            modules,
            student,
            still,
        ),
{
    assert forall|k: int| 0 <= k < modules.len() implies module_open(st, student, counted)(
        modules[k],
    ) == module_open(other, student, still)(modules[k]) && (st.module_progress_pos(
        modules[k],
        student,
    ) is None) == (other.module_progress_pos(modules[k], student) is None) by {
        let m = modules[k];
        lemma_first_where_same(
            st.module_progresses,
            module_progress_is(m, student),
            other.module_progresses,
            module_progress_is(m, student),
        );
        lemma_first_where(st.module_progresses, module_progress_is(m, student));
    }
    lemma_first_where_same(
        modules,
        module_open(st, student, counted),
        modules,
        module_open(other, student, still),
    );
    lemma_first_where(modules, module_open(st, student, counted));
}

/// One re-evaluation serves both paths: completing a lesson is closing its progress row,
/// marking the module started, and then re-evaluating the module from the state so
/// reached.
pub proof fn lemma_complete_lesson_reevaluates(
    st: ContractView,
    caller: Seq<char>,
    now: u64,
    lesson_id: u64,
)
    requires
        st.lesson(lesson_id) is Some,
        st.lesson_progress(lesson_id, caller) is Some,
        st.lesson_progress(lesson_id, caller).unwrap().is_enrolled,
        st.lesson_progress(lesson_id, caller).unwrap().status != LessonProgressStatus::Completed,
        st.module_progress(st.lesson(lesson_id).unwrap().module_id, caller) is Some,
    ensures
        ({
            let module_id = st.lesson(lesson_id).unwrap().module_id;
            let recorded = start_module(
                finish_lesson(st, st.lesson_progress_pos(lesson_id, caller).unwrap(), now),
                st.module_progress_pos(module_id, caller).unwrap(),
            );
            complete_lesson_outcome(st, caller, now, lesson_id) == reevaluate_outcome(
                recorded,
                module_id,
                caller,
                now,
            )
        }),
{
    let module_id = st.lesson(lesson_id).unwrap().module_id;
    let lp = st.lesson_progress_pos(lesson_id, caller).unwrap();
    let row = st.module_progress_pos(module_id, caller).unwrap();
    let recorded = start_module(finish_lesson(st, lp, now), row);
    lemma_first_where(st.lesson_progresses, lesson_progress_is(lesson_id, caller));
    lemma_first_where(st.module_progresses, module_progress_is(module_id, caller));
    lemma_first_where_same(
        recorded.module_progresses,
        module_progress_is(module_id, caller),
        st.module_progresses,
        module_progress_is(module_id, caller),
    );
    lemma_first_where_same(
        recorded.lesson_progresses,
        lesson_progress_is(lesson_id, caller),
        st.lesson_progresses,
        lesson_progress_is(lesson_id, caller),
    );
    assert(recorded.lesson_done(lesson_id, caller));
    if st.module(module_id) is Some {
        let m = st.module(module_id).unwrap();
        lemma_lessons_scan_agrees(st, recorded, m.lessons_ids, caller, Some(lesson_id));
        if st.course(m.course_id) is Some {
            let c = st.course(m.course_id).unwrap();
            lemma_modules_scan_agrees(st, recorded, c.modules_ids, caller, None, None);
            lemma_modules_scan_agrees(
                st,
                recorded,
                c.modules_ids,
                caller,
                Some(module_id),
                Some(module_id),
            );
        }
    }
}

/// One re-evaluation serves both paths: a correct submission to the quiz of a module is
/// recording the attempt and then re-evaluating the module from the state so reached.
pub proof fn lemma_correct_quiz_reevaluates(
    st: ContractView,
    caller: Seq<char>,
    now: u64,
    quizz_id: u64,
)
    requires
        st.quizz(quizz_id) is Some,
        st.quizz_progress(quizz_id, caller) is Some,
        st.quizz_progress(quizz_id, caller).unwrap().is_enrolled,
        !st.quizz_progress(quizz_id, caller).unwrap().is_correct,
        st.quizz_progress(quizz_id, caller).unwrap().try_count < u16::MAX,
    ensures
        submit_quizz_outcome(st, caller, now, quizz_id, st.quizz(quizz_id).unwrap().questions)
            == reevaluate_outcome(
            record_attempt(st, st.quizz_progress_pos(quizz_id, caller).unwrap(), true),
            st.quizz(quizz_id).unwrap().module_id,
            caller,
            now,
        ),
{
    let module_id = st.quizz(quizz_id).unwrap().module_id;
    let qp = st.quizz_progress_pos(quizz_id, caller).unwrap();
    let recorded = record_attempt(st, qp, true);
    lemma_first_where(st.quizz_progresses, quizz_progress_is(quizz_id, caller));
    if st.module(module_id) is Some {
        let m = st.module(module_id).unwrap();
        if m.quizz_id is Some {
            let q = m.quizz_id.unwrap();
            lemma_first_where_same(
                recorded.quizz_progresses,
                quizz_progress_is(q, caller),
                st.quizz_progresses,
                quizz_progress_is(q, caller),
            );
            lemma_first_where(st.quizz_progresses, quizz_progress_is(q, caller));
        }
        lemma_lessons_scan_agrees(st, recorded, m.lessons_ids, caller, None);
        if st.course(m.course_id) is Some {
            let c = st.course(m.course_id).unwrap();
            lemma_modules_scan_agrees(st, recorded, c.modules_ids, caller, None, None);
            lemma_modules_scan_agrees(
                st,
                recorded,
                c.modules_ids,
                caller,
                Some(module_id),
                Some(module_id),
            );
        }
    }
}

/// Re-evaluation is idempotent: re-evaluating a module a second time at the same moment
/// changes nothing.
pub proof fn lemma_reevaluation_is_idempotent(
    st: ContractView,
    module_id: u64,
    student: Seq<char>,
    now: u64,
)
    requires
        reevaluate_outcome(st, module_id, student, now) is Ok,
    ensures
        reevaluate_outcome(
            reevaluate_outcome(st, module_id, student, now).unwrap(),
            module_id,
            student,
            now,
        ) == reevaluate_outcome(st, module_id, student, now),
{
    let plan = plan_cascade(st, module_id, student, None, None).unwrap();
    let once = apply_cascade(st, plan, now);
    let m = st.module(module_id).unwrap();
    let c = st.course(m.course_id).unwrap();
    lemma_first_where(st.module_progresses, module_progress_is(module_id, student));
    lemma_first_where(st.enrollments, enrollment_is(m.course_id, student));
    lemma_first_where_same(
        once.module_progresses,
        module_progress_is(module_id, student),
        st.module_progresses,
        module_progress_is(module_id, student),
    );
    lemma_lessons_scan_agrees(st, once, m.lessons_ids, student, None);
    lemma_first_where_same(
        once.enrollments,
        enrollment_is(m.course_id, student),
        st.enrollments,
        enrollment_is(m.course_id, student),
    );
    if plan.module_completes {
        assert(once.module_done(module_id, student));
        lemma_modules_scan_agrees(
            st,
            once,
            c.modules_ids,
            student,
            Some(module_id),
            Some(module_id),
        );
    } else {
        lemma_modules_scan_agrees(st, once, c.modules_ids, student, None, None);
    }
    let again = plan_cascade(once, module_id, student, None, None);
    assert(again == Ok::<crate::progress::Cascade, Error>(plan));
    let twice = apply_cascade(once, plan, now);
    assert(twice.module_progresses =~= once.module_progresses);
    assert(twice.enrollments =~= once.enrollments);
}

/// Closing a gap keeps the siblings' orders dense: of two siblings whose orders were
/// below `n`, distinct from the gap's and from each other, each ends below `n - 1`, they
/// stay distinct, and the one that came first still comes first. Each is found where it
/// was, one lower if it came after the gap and unchanged otherwise.
pub proof fn lemma_closing_gap_keeps_orders_dense(
    lessons: Seq<LessonView>,
    siblings: Seq<u64>,
    gap: u64,
    n: u64,
    a: u64,
    b: u64,
)
    requires
        siblings.contains(a),
        siblings.contains(b),
        first_where(lessons, lesson_is(a)) is Some,
        first_where(lessons, lesson_is(b)) is Some,
        gap < n,
        ({
            let la = lessons[first_where(lessons, lesson_is(a)).unwrap()];
            let lb = lessons[first_where(lessons, lesson_is(b)).unwrap()];
            la.order < n && lb.order < n && la.order != gap && lb.order != gap
        }),
    ensures
        ({
            let after = close_gap(lessons, siblings, gap);
            let pa = first_where(lessons, lesson_is(a)).unwrap();
            let pb = first_where(lessons, lesson_is(b)).unwrap();
            &&& first_where(after, lesson_is(a)) == Some(pa)
            &&& first_where(after, lesson_is(b)) == Some(pb)
            &&& after[pa].order == if lessons[pa].order > gap {
                lessons[pa].order - 1
            } else {
                lessons[pa].order as int
            }
            &&& after[pa].order < n - 1
            &&& after[pb].order < n - 1
            &&& lessons[pa].order < lessons[pb].order ==> after[pa].order < after[pb].order
            &&& lessons[pa].order != lessons[pb].order ==> after[pa].order != after[pb].order
        }),
{
    let after = close_gap(lessons, siblings, gap);
    lemma_first_where(lessons, lesson_is(a));
    lemma_first_where(lessons, lesson_is(b));
    lemma_first_where_same(after, lesson_is(a), lessons, lesson_is(a));
    lemma_first_where_same(after, lesson_is(b), lessons, lesson_is(b));
}

} // verus!
