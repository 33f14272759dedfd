use course_platform::models::{
    CourseStatus, EnrollmentStatus, LessonProgressStatus, ModuleProgressStatus, QuizzProgressStatus,
};
use course_platform::quiz::{Answer, Question};
use course_platform::{Contract, Error};

const MENTOR: &str = "mentor.testnet";
const STUDENT: &str = "student.testnet";

fn s(text: &str) -> String {
    text.to_string()
}

fn questions() -> Vec<Question> {
    vec![Question { text: s("Why?"), answers: vec![Answer { text: s("because"), is_correct: true }] }]
}

/// Course 0 with module 0 (lessons 0 and 1, quiz 0) and module 1 (lesson 2); course 1
/// with nothing in it. The student is enrolled in course 0.
fn platform() -> Contract {
    let mut contract = Contract::new(s("platform.testnet"), s("root.testnet"));
    contract
        .create_user(s(MENTOR), s("Mentor"), s("mentor"), s("111"), s("mentor@x.io"), false, s("m.png"), 1)
        .unwrap();
    contract
        .create_user(s(STUDENT), s("Student"), s("student"), s("222"), s("student@x.io"), true, s("s.png"), 2)
        .unwrap();
    for (title, price) in [("Rust", 100), ("Go", 40)] {
        contract
            .create_course(
                s(MENTOR),
                s(title),
                s("A course"),
                s("beginner"),
                s("4 weeks"),
                s("programming"),
                vec![],
                vec![],
                s("c.png"),
                false,
                price,
                5,
            )
            .unwrap();
    }
    contract.create_module(s(MENTOR), 0, s("Basics"), s("d"), s("ready"), 0, false, 6).unwrap();
    contract.create_module(s(MENTOR), 0, s("More"), s("d"), s("ready"), 1, false, 6).unwrap();
    contract.create_lesson(0, s("One"), s("d"), s("v1"), s("a1"), 0, false, 7).unwrap();
    contract.create_lesson(0, s("Two"), s("d"), s("v2"), s("a2"), 1, true, 7).unwrap();
    contract.create_lesson(1, s("Three"), s("d"), s("v3"), s("a3"), 0, false, 7).unwrap();
    contract.create_quizz(0, s("Quiz"), s("d"), 8).unwrap();
    contract.save_quizz_questions(s(MENTOR), 0, false, questions()).unwrap();
    contract.save_course_to_cart(s(STUDENT), 0, 30).unwrap();
    contract.enroll_all_carted_courses(s(STUDENT), 110, 40).unwrap();
    contract
}

#[test]
fn a_full_module_resolves_lessons_and_quiz() {
    let contract = platform();
    let module = contract.get_full_module_by_id(0).unwrap();
    assert_eq!(module.id, 0);
    assert_eq!(module.title, "Basics");
    assert_eq!(module.status, "ready");
    assert_eq!(module.lessons.iter().map(|l| l.id).collect::<Vec<u64>>(), vec![0, 1]);
    assert_eq!(module.lessons[1].title, "Two");
    assert_eq!(module.lessons[1].video_url, "v2");
    assert_eq!(module.lessons[1].order, 1);
    assert!(module.lessons[1].with_ai);
    let quizz = module.quizz.unwrap();
    assert_eq!(quizz.id, 0);
    assert!(quizz.questions == questions());
    let bare = contract.get_full_module_by_id(1).unwrap();
    assert!(bare.quizz.is_none());
    assert_eq!(bare.lessons.len(), 1);
    assert!(contract.get_full_module_by_id(9).is_none());
}

#[test]
fn a_full_course_resolves_mentor_and_modules() {
    let contract = platform();
    let course = contract.get_full_course(0).unwrap();
    assert_eq!(course.id, 0);
    assert_eq!(course.title, "Rust");
    assert_eq!(course.price, 100);
    assert_eq!(course.status, CourseStatus::Draft);
    assert_eq!(course.mentor.account_id, MENTOR);
    assert_eq!(course.mentor.name, "Mentor");
    assert_eq!(course.modules.iter().map(|m| m.id).collect::<Vec<u64>>(), vec![0, 1]);
    assert_eq!(course.modules[0].lessons.len(), 2);
    assert_eq!(contract.get_full_course(1).unwrap().modules.len(), 0);
    assert_eq!(contract.get_full_course(9).map(|c| c.id), Err(Error::NotFound));
}

#[test]
fn a_catalog_view_skips_what_is_not_stored() {
    let mut contract = platform();
    contract.courses[0].modules_ids.push(77);
    contract.modules[0].lessons_ids.insert(0, 88);
    contract.modules[1].quizz_id = Some(99);
    let course = contract.get_full_course(0).unwrap();
    assert_eq!(course.modules.iter().map(|m| m.id).collect::<Vec<u64>>(), vec![0, 1]);
    assert_eq!(course.modules[0].lessons.iter().map(|l| l.id).collect::<Vec<u64>>(), vec![0, 1]);
    assert!(course.modules[1].quizz.is_none());
}

#[test]
fn a_course_without_its_mentor_cannot_be_shown() {
    let mut contract = platform();
    contract
        .save_course_by_admin(
            s("root.testnet"),
            s("nobody.testnet"),
            s("t"),
            s("d"),
            s("l"),
            s("d"),
            s("c"),
            vec![],
            vec![],
            s("p"),
            false,
            1,
            1,
        )
        .unwrap();
    assert_eq!(contract.get_full_course(2).map(|c| c.id), Err(Error::IntegrityViolation));
    assert_eq!(contract.get_full_courses().map(|v| v.len()), Err(Error::IntegrityViolation));
    assert_eq!(contract.get_user_created_full_courses(s(MENTOR)).map(|v| v.len()), Ok(2));
    assert_eq!(
        contract.get_user_created_full_courses(s("nobody.testnet")).map(|v| v.len()),
        Err(Error::IntegrityViolation)
    );
}

#[test]
fn course_lists_follow_the_enrollments() {
    let mut contract = platform();
    contract.save_course_to_cart(s(STUDENT), 1, 50).unwrap();
    assert_eq!(contract.get_full_courses().unwrap().len(), 2);
    assert_eq!(contract.get_student_courses(s(STUDENT)).iter().map(|c| c.id).collect::<Vec<u64>>(), vec![0, 1]);
    assert_eq!(contract.get_user_enrolled_courses(s(STUDENT)).iter().map(|c| c.id).collect::<Vec<u64>>(), vec![0]);
    assert_eq!(contract.get_user_carted_courses(s(STUDENT)).iter().map(|c| c.id).collect::<Vec<u64>>(), vec![1]);
    assert_eq!(contract.get_user_completed_courses(s(STUDENT)).len(), 0);
    assert_eq!(contract.get_user_enrolled_full_courses(s(STUDENT)).unwrap().len(), 1);
    assert_eq!(contract.get_user_completed_full_courses(s(STUDENT)).unwrap().len(), 0);
    assert_eq!(contract.get_user_enrollments(s(STUDENT)).len(), 2);
    assert_eq!(contract.get_user_carted_enrollments(s(STUDENT)).len(), 1);
    assert_eq!(contract.get_user_carted_enrollments(s(STUDENT))[0].course_id, 1);
    assert_eq!(contract.get_user_enrollments(s(MENTOR)).len(), 0);

    contract.enrollments[0].status = EnrollmentStatus::Completed;
    assert_eq!(contract.get_user_completed_courses(s(STUDENT)).iter().map(|c| c.id).collect::<Vec<u64>>(), vec![0]);
    assert_eq!(contract.get_user_enrolled_courses(s(STUDENT)).len(), 1);
    let full = contract.get_user_completed_full_courses(s(STUDENT)).unwrap();
    assert_eq!(full.len(), 1);
    assert_eq!(full[0].title, "Rust");
    assert_eq!(contract.get_course_students(0).len(), 1);
    assert_eq!(contract.get_course_students(1).len(), 0);
}

#[test]
fn a_mentor_sees_the_own_courses() {
    let mut contract = platform();
    contract.publish_course(s(MENTOR), 1, 9).unwrap();
    let listed = contract.get_mentor_created_courses(s(MENTOR));
    assert_eq!(listed.len(), 2);
    assert_eq!(listed[0].id, 0);
    assert_eq!(listed[0].title, "Rust");
    assert_eq!(listed[0].progress, 0);
    assert_eq!(listed[0].modules_ids, vec![0, 1]);
    assert_eq!(listed[1].status, CourseStatus::Published);
    assert_eq!(listed[1].price, 40);
    assert_eq!(contract.get_mentor_created_courses(s(STUDENT)).len(), 0);
    assert_eq!(contract.get_user_created_courses(s(MENTOR)).len(), 2);
    assert_eq!(contract.get_user_created_courses(s(STUDENT)).len(), 0);
    assert_eq!(contract.get_user_created_full_courses(s(MENTOR)).unwrap()[1].title, "Go");
    assert_eq!(contract.get_published_courses().iter().map(|c| c.id).collect::<Vec<u64>>(), vec![1]);
}

#[test]
fn an_enrollment_view_joins_catalog_and_progress() {
    let mut contract = platform();
    contract.complete_lesson(s(STUDENT), 50, 1).unwrap();
    contract.submit_quizz(s(STUDENT), 51, 0, vec![]).unwrap_err();
    contract.submit_quizz(s(STUDENT), 52, 0, questions()).unwrap();
    let view = contract.get_student_enrolled_course(0, s(STUDENT)).unwrap();
    assert_eq!(view.id, 0);
    assert_eq!(view.course.id, 0);
    assert_eq!(view.course.title, "Rust");
    assert_eq!(view.student.account_id, STUDENT);
    assert_eq!(view.status, EnrollmentStatus::Enrolled);
    assert_eq!(view.carted_at, 30);
    assert_eq!(view.enrolled_at, Some(40));
    assert_eq!(view.completed_at, None);
    assert_eq!(view.modules.len(), 2);
    let first = &view.modules[0];
    assert_eq!(first.module.id, 0);
    assert_eq!(first.status, ModuleProgressStatus::Started);
    assert!(first.is_enrolled);
    assert_eq!(first.student.account_id, STUDENT);
    assert_eq!(first.lessons.len(), 2);
    assert_eq!(first.lessons[0].id, 0);
    assert_eq!(first.lessons[0].status, LessonProgressStatus::NotStarted);
    assert_eq!(first.lessons[1].lesson.title, "Two");
    assert_eq!(first.lessons[1].status, LessonProgressStatus::Completed);
    assert_eq!(first.lessons[1].completed_at, Some(50));
    let quizz = first.quizz.as_ref().unwrap();
    assert_eq!(quizz.quizz.id, 0);
    assert_eq!(quizz.status, QuizzProgressStatus::Completed);
    assert_eq!(quizz.try_count, 1);
    assert!(quizz.is_correct);
    let second = &view.modules[1];
    assert_eq!(second.module.id, 1);
    assert_eq!(second.status, ModuleProgressStatus::NotStarted);
    assert!(second.quizz.is_none());
    assert_eq!(second.lessons.len(), 1);
}

#[test]
fn an_enrollment_view_surfaces_a_missing_progress_row() {
    let mut contract = platform();
    assert_eq!(
        contract.get_student_enrolled_course(1, s(STUDENT)).map(|v| v.id),
        Err(Error::NotFound)
    );
    assert_eq!(
        contract.get_student_enrolled_course(0, s(MENTOR)).map(|v| v.id),
        Err(Error::NotFound)
    );
    // A lesson added after the checkout has no progress row for the student.
    contract.create_lesson(1, s("Late"), s("d"), s("v"), s("a"), 1, false, 45).unwrap();
    assert_eq!(
        contract.get_student_enrolled_course(0, s(STUDENT)).map(|v| v.id),
        Err(Error::IntegrityViolation)
    );
    // The catalog view is unaffected.
    assert_eq!(contract.get_full_course(0).unwrap().modules[1].lessons.len(), 2);
}

#[test]
fn an_enrollment_view_surfaces_a_missing_module_row() {
    let mut contract = platform();
    contract.create_module(s(MENTOR), 0, s("Late"), s("d"), s("ready"), 2, false, 45).unwrap();
    assert_eq!(
        contract.get_student_enrolled_course(0, s(STUDENT)).map(|v| v.id),
        Err(Error::IntegrityViolation)
    );
    let mut contract = platform();
    contract.quizz_progresses.clear();
    assert_eq!(
        contract.get_student_enrolled_course(0, s(STUDENT)).map(|v| v.id),
        Err(Error::IntegrityViolation)
    );
}

#[test]
fn a_quiz_progress_view_needs_row_quiz_and_student() {
    let contract = platform();
    let view = contract.get_full_quizz_progress(0, s(STUDENT)).unwrap();
    assert_eq!(view.id, 0);
    assert_eq!(view.quizz.title, "Quiz");
    assert_eq!(view.student.username, "student");
    assert_eq!(view.status, QuizzProgressStatus::NotStarted);
    assert_eq!(view.try_count, 0);
    assert!(view.is_enrolled);
    assert!(contract.get_full_quizz_progress(0, s(MENTOR)).is_none());
    assert!(contract.get_full_quizz_progress(5, s(STUDENT)).is_none());
}

#[test]
fn lookups_by_student_find_the_students_rows() {
    let contract = platform();
    assert_eq!(contract.get_module_progress(1, s(STUDENT)).unwrap().id, 1);
    assert_eq!(contract.get_lesson_progress(2, s(STUDENT)).unwrap().id, 2);
    assert_eq!(contract.get_quizz_progress(0, s(STUDENT)).unwrap().id, 0);
    assert!(contract.get_module_progress(1, s(MENTOR)).is_none());
    assert!(contract.get_lesson_progress(9, s(STUDENT)).is_none());
    assert!(contract.get_enrollment(1, s(STUDENT)).is_none());
    assert!(!contract.is_student_module_completed(0, s(STUDENT)));
    assert!(!contract.is_student_module_completed(9, s(STUDENT)));
    assert!(!contract.is_student_lesson_enrolled(0, s(MENTOR)));
}
