use course_platform::models::{
    EnrollmentStatus, LessonProgressStatus, ModuleProgressStatus, QuizzProgressStatus,
};
use course_platform::quiz::{Answer, Question};
use course_platform::{Contract, Error};

const MENTOR: &str = "mentor.testnet";
const STUDENT: &str = "student.testnet";

fn s(text: &str) -> String {
    text.to_string()
}

fn question(text: &str, answers: &[(&str, bool)]) -> Question {
    Question {
        text: s(text),
        answers: answers.iter().map(|(t, ok)| Answer { text: s(t), is_correct: *ok }).collect(),
    }
}

fn canonical() -> Vec<Question> {
    vec![
        question("What does a borrow end with?", &[("its scope", true), ("a free", false)]),
        question("Is a Vec growable?", &[("yes", true), ("no", false)]),
    ]
}

fn wrong() -> Vec<Question> {
    vec![
        question("What does a borrow end with?", &[("its scope", false), ("a free", true)]),
        question("Is a Vec growable?", &[("yes", true), ("no", false)]),
    ]
}

struct World {
    contract: Contract,
    course: u64,
    module: u64,
    lessons: Vec<u64>,
    quizz: u64,
}

/// A platform with one course of one module with two lessons and a quiz, and a student
/// enrolled in it.
fn world() -> World {
    let mut contract = Contract::new(s("platform.testnet"), s("root.testnet"));
    contract
        .create_user(s(MENTOR), s("Mentor"), s("mentor"), s("111"), s("mentor@x.io"), false, s("m.png"), 1)
        .unwrap();
    contract
        .create_user(s(STUDENT), s("Student"), s("student"), s("222"), s("student@x.io"), true, s("s.png"), 2)
        .unwrap();
    let course = contract
        .create_course(
            s(MENTOR),
            s("Rust"),
            s("Ownership"),
            s("beginner"),
            s("4 weeks"),
            s("programming"),
            vec![],
            vec![],
            s("rust.png"),
            false,
            100,
            5,
        )
        .unwrap()
        .id;
    let module = contract.module_count;
    contract
        .create_module(s(MENTOR), course, s("Basics"), s("The basics"), s("ready"), 0, false, 6)
        .unwrap();
    let mut lessons = Vec::new();
    for order in 0..2 {
        lessons.push(contract.lesson_count);
        contract
            .create_lesson(module, s("Lesson"), s("A lesson"), s("ipfs://v"), s("text"), order, false, 7)
            .unwrap();
    }
    let quizz = contract.quizz_count;
    contract.create_quizz(module, s("Quiz"), s("A quiz"), 8).unwrap();
    contract.save_quizz_questions(s(MENTOR), quizz, false, canonical()).unwrap();
    contract.save_course_to_cart(s(STUDENT), course, 30).unwrap();
    contract.enroll_all_carted_courses(s(STUDENT), 110, 40).unwrap();
    World { contract, course, module, lessons, quizz }
}

fn module_status(w: &World) -> ModuleProgressStatus {
    w.contract.get_module_progress(w.module, s(STUDENT)).unwrap().status
}

fn enrollment_status(w: &World) -> EnrollmentStatus {
    w.contract.get_enrollment(w.course, s(STUDENT)).unwrap().status
}

#[test]
fn first_lesson_starts_the_module() {
    let mut w = world();
    assert_eq!(module_status(&w), ModuleProgressStatus::NotStarted);
    assert_eq!(w.contract.complete_lesson(s(STUDENT), 50, w.lessons[0]), Ok(()));
    let row = w.contract.get_lesson_progress(w.lessons[0], s(STUDENT)).unwrap();
    assert_eq!(row.status, LessonProgressStatus::Completed);
    assert_eq!(row.completed_at, Some(50));
    assert!(w.contract.is_student_lesson_completed(w.lessons[0], s(STUDENT)));
    assert!(!w.contract.is_student_lesson_completed(w.lessons[1], s(STUDENT)));
    assert_eq!(module_status(&w), ModuleProgressStatus::Started);
    assert_eq!(w.contract.get_module_progress(w.module, s(STUDENT)).unwrap().completed_at, None);
    assert_eq!(enrollment_status(&w), EnrollmentStatus::Enrolled);
}

#[test]
fn lessons_then_quiz_completes_the_module() {
    let mut w = world();
    w.contract.complete_lesson(s(STUDENT), 50, w.lessons[0]).unwrap();
    w.contract.complete_lesson(s(STUDENT), 51, w.lessons[1]).unwrap();
    assert_eq!(module_status(&w), ModuleProgressStatus::Started);
    assert!(w.contract.is_student_module_completed(w.module, s(STUDENT)));
    assert_eq!(w.contract.submit_quizz(s(STUDENT), 52, w.quizz, canonical()), Ok(()));
    assert_eq!(module_status(&w), ModuleProgressStatus::Completed);
    assert_eq!(w.contract.get_module_progress(w.module, s(STUDENT)).unwrap().completed_at, Some(52));
    let enrollment = w.contract.get_enrollment(w.course, s(STUDENT)).unwrap();
    assert_eq!(enrollment.status, EnrollmentStatus::Completed);
    assert_eq!(enrollment.completed_at, Some(52));
    assert!(w.contract.is_student_course_completed(w.course, s(STUDENT)));
}

#[test]
fn quiz_then_lessons_completes_the_module() {
    let mut w = world();
    assert_eq!(w.contract.submit_quizz(s(STUDENT), 50, w.quizz, canonical()), Ok(()));
    assert_eq!(module_status(&w), ModuleProgressStatus::NotStarted);
    w.contract.complete_lesson(s(STUDENT), 51, w.lessons[1]).unwrap();
    assert_eq!(module_status(&w), ModuleProgressStatus::Started);
    assert_eq!(enrollment_status(&w), EnrollmentStatus::Enrolled);
    w.contract.complete_lesson(s(STUDENT), 52, w.lessons[0]).unwrap();
    assert_eq!(module_status(&w), ModuleProgressStatus::Completed);
    assert_eq!(w.contract.get_module_progress(w.module, s(STUDENT)).unwrap().completed_at, Some(52));
    let enrollment = w.contract.get_enrollment(w.course, s(STUDENT)).unwrap();
    assert_eq!(enrollment.status, EnrollmentStatus::Completed);
    assert_eq!(enrollment.completed_at, Some(52));
}

#[test]
fn quiz_between_the_lessons_completes_the_module() {
    let mut w = world();
    w.contract.complete_lesson(s(STUDENT), 50, w.lessons[0]).unwrap();
    w.contract.submit_quizz(s(STUDENT), 51, w.quizz, canonical()).unwrap();
    assert_eq!(module_status(&w), ModuleProgressStatus::Started);
    w.contract.complete_lesson(s(STUDENT), 52, w.lessons[1]).unwrap();
    assert_eq!(module_status(&w), ModuleProgressStatus::Completed);
    assert_eq!(enrollment_status(&w), EnrollmentStatus::Completed);
}

#[test]
fn a_module_without_a_quiz_completes_on_its_last_lesson() {
    let mut w = world();
    w.contract.modules[0].quizz_id = None;
    w.contract.complete_lesson(s(STUDENT), 50, w.lessons[0]).unwrap();
    assert_eq!(module_status(&w), ModuleProgressStatus::Started);
    w.contract.complete_lesson(s(STUDENT), 51, w.lessons[1]).unwrap();
    assert_eq!(module_status(&w), ModuleProgressStatus::Completed);
    assert_eq!(enrollment_status(&w), EnrollmentStatus::Completed);
}

#[test]
fn a_course_completes_with_its_last_module() {
    let mut w = world();
    let second = w.contract.module_count;
    w.contract
        .create_module(s(MENTOR), w.course, s("More"), s("More"), s("ready"), 1, false, 9)
        .unwrap();
    let extra = w.contract.lesson_count;
    w.contract
        .create_lesson(second, s("Lesson"), s("A lesson"), s(""), s("text"), 0, false, 9)
        .unwrap();
    // A second student enrolls once the second module is there.
    w.contract
        .create_user(s("late.testnet"), s("Late"), s("late"), s("444"), s("late@x.io"), false, s("l.png"), 3)
        .unwrap();
    w.contract.save_course_to_cart(s("late.testnet"), w.course, 60).unwrap();
    w.contract.enroll_all_carted_courses(s("late.testnet"), 110, 61).unwrap();
    let late = s("late.testnet");
    w.contract.complete_lesson(late.clone(), 62, w.lessons[0]).unwrap();
    w.contract.complete_lesson(late.clone(), 63, w.lessons[1]).unwrap();
    w.contract.submit_quizz(late.clone(), 64, w.quizz, canonical()).unwrap();
    assert_eq!(
        w.contract.get_module_progress(w.module, late.clone()).unwrap().status,
        ModuleProgressStatus::Completed
    );
    assert_eq!(
        w.contract.get_enrollment(w.course, late.clone()).unwrap().status,
        EnrollmentStatus::Enrolled
    );
    w.contract.complete_lesson(late.clone(), 65, extra).unwrap();
    assert_eq!(
        w.contract.get_module_progress(second, late.clone()).unwrap().status,
        ModuleProgressStatus::Completed
    );
    let enrollment = w.contract.get_enrollment(w.course, late.clone()).unwrap();
    assert_eq!(enrollment.status, EnrollmentStatus::Completed);
    assert_eq!(enrollment.completed_at, Some(65));
    // The first student's rows are untouched.
    assert_eq!(module_status(&w), ModuleProgressStatus::NotStarted);
    assert_eq!(enrollment_status(&w), EnrollmentStatus::Enrolled);
}

#[test]
fn completing_a_lesson_is_refused_where_it_should_be() {
    let mut w = world();
    assert_eq!(w.contract.complete_lesson(s(STUDENT), 50, 99), Err(Error::NotFound));
    assert_eq!(w.contract.complete_lesson(s(MENTOR), 50, w.lessons[0]), Err(Error::Unauthorized));
    w.contract.lesson_progresses[1].is_enrolled = false;
    assert_eq!(w.contract.complete_lesson(s(STUDENT), 50, w.lessons[1]), Err(Error::Unauthorized));
    assert_eq!(w.contract.complete_lesson(s(STUDENT), 50, w.lessons[0]), Ok(()));
    assert_eq!(
        w.contract.complete_lesson(s(STUDENT), 51, w.lessons[0]),
        Err(Error::AlreadyInTerminalState)
    );
    let row = w.contract.get_lesson_progress(w.lessons[0], s(STUDENT)).unwrap();
    assert_eq!(row.completed_at, Some(50));
}

#[test]
fn a_missing_progress_row_stops_the_cascade_before_any_write() {
    let mut w = world();
    // A lesson added after the checkout has no progress row for the student.
    w.contract
        .create_lesson(w.module, s("New"), s("New"), s(""), s("text"), 2, false, 45)
        .unwrap();
    // The scan stops at the second lesson, which is not completed: no violation is met.
    assert_eq!(w.contract.complete_lesson(s(STUDENT), 50, w.lessons[0]), Ok(()));
    // Now the scan reaches the new lesson.
    assert_eq!(
        w.contract.complete_lesson(s(STUDENT), 51, w.lessons[1]),
        Err(Error::IntegrityViolation)
    );
    let row = w.contract.get_lesson_progress(w.lessons[1], s(STUDENT)).unwrap();
    assert_eq!(row.status, LessonProgressStatus::NotStarted);
    assert_eq!(row.completed_at, None);
    assert_eq!(module_status(&w), ModuleProgressStatus::Started);
}

#[test]
fn a_missing_module_row_is_an_integrity_violation() {
    let mut w = world();
    w.contract.module_progresses.clear();
    assert_eq!(
        w.contract.complete_lesson(s(STUDENT), 50, w.lessons[0]),
        Err(Error::IntegrityViolation)
    );
    assert_eq!(
        w.contract.get_lesson_progress(w.lessons[0], s(STUDENT)).unwrap().status,
        LessonProgressStatus::NotStarted
    );
    assert_eq!(
        w.contract.submit_quizz(s(STUDENT), 50, w.quizz, canonical()),
        Err(Error::IntegrityViolation)
    );
    let row = w.contract.get_quizz_progress(w.quizz, s(STUDENT)).unwrap();
    assert_eq!(row.try_count, 0);
    assert!(!row.is_submitted);
}

#[test]
fn every_accepted_attempt_is_counted() {
    let mut w = world();
    assert_eq!(w.contract.submit_quizz(s(STUDENT), 50, w.quizz, wrong()), Ok(()));
    let row = w.contract.get_quizz_progress(w.quizz, s(STUDENT)).unwrap();
    assert_eq!(row.try_count, 1);
    assert!(row.is_submitted);
    assert!(!row.is_correct);
    assert_eq!(row.status, QuizzProgressStatus::Submitted);
    assert_eq!(module_status(&w), ModuleProgressStatus::NotStarted);

    assert_eq!(w.contract.submit_quizz(s(STUDENT), 51, w.quizz, wrong()), Ok(()));
    assert_eq!(w.contract.get_quizz_progress(w.quizz, s(STUDENT)).unwrap().try_count, 2);

    assert_eq!(w.contract.submit_quizz(s(STUDENT), 52, w.quizz, canonical()), Ok(()));
    let row = w.contract.get_quizz_progress(w.quizz, s(STUDENT)).unwrap();
    assert_eq!(row.try_count, 3);
    assert!(row.is_submitted);
    assert!(row.is_correct);
    assert_eq!(row.status, QuizzProgressStatus::Completed);
}

#[test]
fn a_passed_quiz_takes_no_further_submission() {
    let mut w = world();
    w.contract.submit_quizz(s(STUDENT), 50, w.quizz, canonical()).unwrap();
    assert_eq!(
        w.contract.submit_quizz(s(STUDENT), 51, w.quizz, canonical()),
        Err(Error::AlreadyInTerminalState)
    );
    assert_eq!(
        w.contract.submit_quizz(s(STUDENT), 52, w.quizz, wrong()),
        Err(Error::AlreadyInTerminalState)
    );
    let row = w.contract.get_quizz_progress(w.quizz, s(STUDENT)).unwrap();
    assert_eq!(row.try_count, 1);
    assert!(row.is_correct);
}

#[test]
fn a_submission_of_the_wrong_length_is_an_arity_error() {
    let mut w = world();
    let mut short = canonical();
    short.pop();
    assert_eq!(w.contract.submit_quizz(s(STUDENT), 50, w.quizz, short), Err(Error::ArityMismatch));
    assert_eq!(w.contract.submit_quizz(s(STUDENT), 50, w.quizz, vec![]), Err(Error::ArityMismatch));
    let mut long = canonical();
    long.push(question("Extra?", &[("yes", true)]));
    assert_eq!(w.contract.submit_quizz(s(STUDENT), 50, w.quizz, long), Err(Error::ArityMismatch));
    assert_eq!(w.contract.get_quizz_progress(w.quizz, s(STUDENT)).unwrap().try_count, 0);
}

#[test]
fn grading_is_positional() {
    let mut w = world();
    let mut swapped = canonical();
    swapped.swap(0, 1);
    w.contract.submit_quizz(s(STUDENT), 50, w.quizz, swapped).unwrap();
    assert!(!w.contract.get_quizz_progress(w.quizz, s(STUDENT)).unwrap().is_correct);
    let mut reordered = canonical();
    reordered[0].answers.swap(0, 1);
    w.contract.submit_quizz(s(STUDENT), 51, w.quizz, reordered).unwrap();
    assert!(!w.contract.get_quizz_progress(w.quizz, s(STUDENT)).unwrap().is_correct);
    let mut retitled = canonical();
    retitled[1].text = s("Is a Vec growable");
    w.contract.submit_quizz(s(STUDENT), 52, w.quizz, retitled).unwrap();
    assert!(!w.contract.get_quizz_progress(w.quizz, s(STUDENT)).unwrap().is_correct);
    w.contract.submit_quizz(s(STUDENT), 53, w.quizz, canonical()).unwrap();
    assert!(w.contract.get_quizz_progress(w.quizz, s(STUDENT)).unwrap().is_correct);
}

#[test]
fn questions_compare_by_text_and_answers() {
    assert!(question("a", &[("x", true)]) == question("a", &[("x", true)]));
    assert!(question("a", &[("x", true)]) != question("a", &[("x", false)]));
    assert!(question("a", &[("x", true)]) != question("b", &[("x", true)]));
    assert!(question("a", &[("x", true)]) != question("a", &[("x", true), ("y", false)]));
    assert!(Answer { text: s("x"), is_correct: true } == Answer { text: s("x"), is_correct: true });
    assert!(Answer { text: s("x"), is_correct: true } != Answer { text: s("y"), is_correct: true });
}

#[test]
fn submitting_is_refused_where_it_should_be() {
    let mut w = world();
    assert_eq!(w.contract.submit_quizz(s(STUDENT), 50, 99, canonical()), Err(Error::NotFound));
    assert_eq!(w.contract.submit_quizz(s(MENTOR), 50, w.quizz, canonical()), Err(Error::Unauthorized));
    w.contract.quizz_progresses[0].is_enrolled = false;
    assert_eq!(w.contract.submit_quizz(s(STUDENT), 50, w.quizz, canonical()), Err(Error::Unauthorized));
    w.contract.quizz_progresses[0].is_enrolled = true;
    w.contract.quizz_progresses[0].try_count = u16::MAX;
    assert_eq!(
        w.contract.submit_quizz(s(STUDENT), 50, w.quizz, canonical()),
        Err(Error::CapacityExceeded)
    );
    assert_eq!(w.contract.get_quizz_progress(w.quizz, s(STUDENT)).unwrap().try_count, u16::MAX);
}

#[test]
fn reevaluation_is_idempotent() {
    let mut w = world();
    w.contract.modules[0].quizz_id = None;
    w.contract.lesson_progresses[0].status = LessonProgressStatus::Completed;
    w.contract.lesson_progresses[1].status = LessonProgressStatus::Completed;
    assert_eq!(w.contract.reevaluate(w.module, s(STUDENT), 70), Ok(()));
    assert_eq!(module_status(&w), ModuleProgressStatus::Completed);
    assert_eq!(enrollment_status(&w), EnrollmentStatus::Completed);
    assert_eq!(w.contract.reevaluate(w.module, s(STUDENT), 70), Ok(()));
    assert_eq!(module_status(&w), ModuleProgressStatus::Completed);
    assert_eq!(w.contract.get_module_progress(w.module, s(STUDENT)).unwrap().completed_at, Some(70));
    assert_eq!(w.contract.get_enrollment(w.course, s(STUDENT)).unwrap().completed_at, Some(70));
    assert_eq!(w.contract.reevaluate(99, s(STUDENT), 70), Err(Error::IntegrityViolation));
}

#[test]
fn a_plan_writes_nothing() {
    let mut w = world();
    w.contract.lesson_progresses[0].status = LessonProgressStatus::Completed;
    let plan = w.contract.plan_cascade(w.module, &s(STUDENT), Some(w.lessons[1]), Some(w.quizz)).unwrap();
    assert_eq!(plan.module_row, 0);
    assert!(plan.module_completes);
    assert_eq!(plan.enrollment_row, Some(0));
    assert_eq!(module_status(&w), ModuleProgressStatus::NotStarted);
    let plan = w.contract.plan_cascade(w.module, &s(STUDENT), None, Some(w.quizz)).unwrap();
    assert!(!plan.module_completes);
    assert_eq!(plan.enrollment_row, None);
    assert_eq!(w.contract.lessons_complete(&w.lessons, &s(STUDENT), None), Ok(false));
    assert_eq!(w.contract.lessons_complete(&w.lessons, &s(STUDENT), Some(w.lessons[1])), Ok(true));
    assert_eq!(w.contract.lessons_complete(&vec![77], &s(STUDENT), None), Err(Error::IntegrityViolation));
    assert_eq!(w.contract.modules_complete(&vec![w.module], &s(STUDENT), None), Ok(false));
    assert_eq!(w.contract.modules_complete(&vec![w.module], &s(STUDENT), Some(w.module)), Ok(true));
    assert_eq!(w.contract.modules_complete(&vec![], &s(STUDENT), None), Ok(true));
}
