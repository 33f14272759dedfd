use course_platform::models::{
    Course, EnrollmentStatus, LessonProgressStatus, ModuleProgressStatus, QuizzProgressStatus,
};
use course_platform::{Contract, Error};

const MENTOR: &str = "mentor.testnet";
const STUDENT: &str = "student.testnet";

fn s(text: &str) -> String {
    text.to_string()
}

fn platform() -> Contract {
    let mut contract = Contract::new(s("platform.testnet"), s("root.testnet"));
    contract
        .create_user(s(MENTOR), s("Mentor"), s("mentor"), s("111"), s("mentor@x.io"), false, s("m.png"), 1)
        .unwrap();
    contract
        .create_user(s(STUDENT), s("Student"), s("student"), s("222"), s("student@x.io"), true, s("s.png"), 2)
        .unwrap();
    contract
}

fn add_course(contract: &mut Contract, price: u128) -> u64 {
    contract
        .create_course(
            s(MENTOR),
            s("Rust"),
            s("Ownership and borrowing"),
            s("beginner"),
            s("4 weeks"),
            s("programming"),
            vec![s("a laptop")],
            vec![s("write safe code")],
            s("rust.png"),
            false,
            price,
            5,
        )
        .unwrap()
        .id
}

fn add_module(contract: &mut Contract, course_id: u64, order: u64) -> u64 {
    let id = contract.module_count;
    contract
        .create_module(s(MENTOR), course_id, s("Module"), s("A module"), s("ready"), order, false, 6)
        .unwrap();
    id
}

fn add_lesson(contract: &mut Contract, module_id: u64, order: u64) -> u64 {
    let id = contract.lesson_count;
    contract
        .create_lesson(module_id, s("Lesson"), s("A lesson"), s("ipfs://v"), s("text"), order, false, 7)
        .unwrap();
    id
}

fn add_quizz(contract: &mut Contract, module_id: u64) -> u64 {
    let id = contract.quizz_count;
    contract.create_quizz(module_id, s("Quiz"), s("A quiz"), 8).unwrap();
    id
}

fn priced(price: u128) -> Course {
    Course {
        id: 0,
        title: s("t"),
        description: s("d"),
        level: s("l"),
        duration: s("d"),
        status: course_platform::models::CourseStatus::Draft,
        requirements: vec![],
        objectives: vec![],
        category: s("c"),
        picture: s("p"),
        with_ai: false,
        price,
        mentor_id: s(MENTOR),
        modules_ids: vec![],
        created_at: 0,
        updated_at: 0,
    }
}

#[test]
fn fee_is_ten_percent_rounded_down() {
    let contract = platform();
    assert_eq!(contract.calculate_total_courses_price_with_fee(vec![priced(100)]), Ok(110));
    assert_eq!(contract.calculate_total_courses_price_with_fee(vec![priced(105)]), Ok(115));
    assert_eq!(contract.calculate_total_courses_price_with_fee(vec![priced(9)]), Ok(9));
    assert_eq!(contract.calculate_total_courses_price_with_fee(vec![priced(10)]), Ok(11));
    assert_eq!(contract.calculate_total_courses_price_with_fee(vec![]), Ok(0));
}

#[test]
fn total_is_the_sum_over_the_courses() {
    let contract = platform();
    let courses = vec![priced(100), priced(105), priced(19)];
    assert_eq!(contract.calculate_total_courses_price_with_fee(courses), Ok(110 + 115 + 20));
}

#[test]
fn total_that_does_not_fit_is_refused() {
    let contract = platform();
    assert_eq!(
        contract.calculate_total_courses_price_with_fee(vec![priced(u128::MAX)]),
        Err(Error::CapacityExceeded)
    );
    assert_eq!(
        contract.calculate_total_courses_price_with_fee(vec![priced(u128::MAX / 2), priced(u128::MAX / 2)]),
        Err(Error::CapacityExceeded)
    );
}

#[test]
fn cart_holds_what_was_carted() {
    let mut contract = platform();
    let first = add_course(&mut contract, 100);
    let second = add_course(&mut contract, 250);
    assert_eq!(contract.save_course_to_cart(s(STUDENT), first, 30), Ok(()));
    assert_eq!(contract.save_course_to_cart(s(STUDENT), second, 31), Ok(()));
    let carted = contract.get_user_carted_courses(s(STUDENT));
    assert_eq!(carted.len(), 2);
    assert_eq!(carted[0].id, first);
    assert_eq!(carted[1].id, second);
    assert_eq!(contract.get_user_carted_courses_prices_with_fee(s(STUDENT)), Ok(110 + 275));
    assert!(contract.is_student_course_carted(first, s(STUDENT)));
    assert!(!contract.is_student_course_enrolled(first, s(STUDENT)));
    let enrollment = contract.get_enrollment(first, s(STUDENT)).unwrap();
    assert_eq!(enrollment.id, 0);
    assert_eq!(enrollment.status, EnrollmentStatus::Carted);
    assert_eq!(enrollment.carted_at, 30);
    assert_eq!(enrollment.updated_at, 30);
    assert_eq!(enrollment.enrolled_at, None);
    assert_eq!(enrollment.progress, 0);
}

#[test]
fn carting_is_refused_where_it_should_be() {
    let mut contract = platform();
    let course = add_course(&mut contract, 100);
    assert_eq!(contract.save_course_to_cart(s(STUDENT), 77, 30), Err(Error::NotFound));
    assert_eq!(contract.save_course_to_cart(s("ghost.testnet"), course, 30), Err(Error::NotFound));
    assert_eq!(contract.save_course_to_cart(s(MENTOR), course, 30), Err(Error::Unauthorized));
    assert_eq!(contract.save_course_to_cart(s(STUDENT), course, 30), Ok(()));
    assert_eq!(contract.save_course_to_cart(s(STUDENT), course, 31), Err(Error::AlreadyExists));
    assert_eq!(contract.get_user_enrollments(s(STUDENT)).len(), 1);
    contract.enrollment_count = u64::MAX;
    let other = add_course(&mut contract, 5);
    assert_eq!(contract.save_course_to_cart(s(STUDENT), other, 32), Err(Error::CapacityExceeded));
}

#[test]
fn a_carted_course_can_be_taken_out_again() {
    let mut contract = platform();
    let first = add_course(&mut contract, 100);
    let second = add_course(&mut contract, 200);
    contract.save_course_to_cart(s(STUDENT), first, 30).unwrap();
    contract.save_course_to_cart(s(STUDENT), second, 31).unwrap();
    assert_eq!(contract.remove_course_from_cart(s(STUDENT), 9), Err(Error::NotFound));
    assert_eq!(contract.remove_course_from_cart(s("ghost.testnet"), first), Err(Error::NotFound));
    assert_eq!(contract.remove_course_from_cart(s(MENTOR), first), Err(Error::NotFound));
    assert_eq!(contract.remove_course_from_cart(s(STUDENT), first), Ok(()));
    let left = contract.get_user_carted_enrollments(s(STUDENT));
    assert_eq!(left.len(), 1);
    assert_eq!(left[0].course_id, second);
    assert_eq!(contract.enroll_all_carted_courses(s(STUDENT), 220, 40).map(|t| t.len()), Ok(1));
    assert_eq!(
        contract.remove_course_from_cart(s(STUDENT), second),
        Err(Error::AlreadyInTerminalState)
    );
}

#[test]
fn price_one_hundred_needs_one_hundred_and_ten() {
    let mut contract = platform();
    let course = add_course(&mut contract, 100);
    let module = add_module(&mut contract, course, 0);
    let lesson = add_lesson(&mut contract, module, 0);
    contract.save_course_to_cart(s(STUDENT), course, 30).unwrap();

    assert_eq!(contract.get_user_carted_courses_prices_with_fee(s(STUDENT)), Ok(110));
    assert_eq!(
        contract.enroll_all_carted_courses(s(STUDENT), 109, 40).map(|t| t.len()),
        Err(Error::InsufficientPayment)
    );
    assert_eq!(contract.get_enrollment(course, s(STUDENT)).unwrap().status, EnrollmentStatus::Carted);
    assert_eq!(contract.module_progresses.len(), 0);
    assert_eq!(contract.lesson_progresses.len(), 0);
    assert_eq!(contract.quizz_progresses.len(), 0);
    assert_eq!(contract.module_progress_count, 0);

    let transfers = contract.enroll_all_carted_courses(s(STUDENT), 110, 40).unwrap();
    assert_eq!(transfers.len(), 1);
    assert_eq!(transfers[0].receiver_id, MENTOR);
    assert_eq!(transfers[0].amount, 100);
    let enrollment = contract.get_enrollment(course, s(STUDENT)).unwrap();
    assert_eq!(enrollment.status, EnrollmentStatus::Enrolled);
    assert_eq!(enrollment.enrolled_at, Some(40));
    assert_eq!(enrollment.updated_at, 40);
    assert_eq!(enrollment.carted_at, 30);
    assert_eq!(contract.module_progresses.len(), 1);
    assert_eq!(contract.lesson_progresses.len(), 1);
    assert_eq!(contract.quizz_progresses.len(), 0);
    let module_row = contract.get_module_progress(module, s(STUDENT)).unwrap();
    assert_eq!(module_row.status, ModuleProgressStatus::NotStarted);
    assert!(module_row.is_enrolled);
    assert_eq!(module_row.progress, 0);
    assert_eq!(module_row.completed_at, None);
    let lesson_row = contract.get_lesson_progress(lesson, s(STUDENT)).unwrap();
    assert_eq!(lesson_row.status, LessonProgressStatus::NotStarted);
    assert!(lesson_row.is_enrolled);
}

#[test]
fn exact_payment_enrolls_every_carted_course() {
    let mut contract = platform();
    let prices: [u128; 3] = [100, 105, 19];
    let mut courses = Vec::new();
    for price in prices {
        let course = add_course(&mut contract, price);
        add_module(&mut contract, course, 0);
        contract.save_course_to_cart(s(STUDENT), course, 30).unwrap();
        courses.push(course);
    }
    let required: u128 = 110 + 115 + 20;
    assert_eq!(contract.get_user_carted_courses_prices_with_fee(s(STUDENT)), Ok(required));

    assert_eq!(
        contract.enroll_all_carted_courses(s(STUDENT), required - 1, 40).map(|t| t.len()),
        Err(Error::InsufficientPayment)
    );
    for course in &courses {
        assert!(contract.is_student_course_carted(*course, s(STUDENT)));
    }
    assert_eq!(contract.module_progresses.len(), 0);

    let transfers = contract.enroll_all_carted_courses(s(STUDENT), required, 40).unwrap();
    assert_eq!(transfers.iter().map(|t| t.amount).collect::<Vec<u128>>(), vec![100, 105, 19]);
    for course in &courses {
        assert!(contract.is_student_course_enrolled(*course, s(STUDENT)));
    }
    assert_eq!(contract.module_progresses.len(), 3);
    assert_eq!(contract.get_user_carted_courses(s(STUDENT)).len(), 0);
    assert_eq!(contract.get_user_enrolled_courses(s(STUDENT)).len(), 3);
}

#[test]
fn overpayment_is_accepted() {
    let mut contract = platform();
    let course = add_course(&mut contract, 100);
    contract.save_course_to_cart(s(STUDENT), course, 30).unwrap();
    let transfers = contract.enroll_all_carted_courses(s(STUDENT), 5000, 40).unwrap();
    assert_eq!(transfers.len(), 1);
    assert_eq!(transfers[0].amount, 100);
}

#[test]
fn an_empty_cart_checks_out_to_nothing() {
    let mut contract = platform();
    add_course(&mut contract, 100);
    let transfers = contract.enroll_all_carted_courses(s(STUDENT), 0, 40).unwrap();
    assert_eq!(transfers.len(), 0);
    assert_eq!(contract.enrollments.len(), 0);
    assert_eq!(contract.module_progresses.len(), 0);
}

#[test]
fn fan_out_creates_one_row_per_item() {
    let mut contract = platform();
    let course = add_course(&mut contract, 100);
    let first = add_module(&mut contract, course, 0);
    let second = add_module(&mut contract, course, 1);
    let third = add_module(&mut contract, course, 2);
    let l0 = add_lesson(&mut contract, first, 0);
    let l1 = add_lesson(&mut contract, first, 1);
    let l2 = add_lesson(&mut contract, second, 0);
    let quizz = add_quizz(&mut contract, second);
    let other = add_course(&mut contract, 50);
    let stray = add_module(&mut contract, other, 0);
    add_lesson(&mut contract, stray, 0);
    add_quizz(&mut contract, stray);

    contract.save_course_to_cart(s(STUDENT), course, 30).unwrap();
    contract.module_progress_count = 7;
    contract.lesson_progress_count = 20;
    contract.quizz_progress_count = 3;
    contract.enroll_all_carted_courses(s(STUDENT), 110, 40).unwrap();

    let modules: Vec<(u64, u64)> =
        contract.module_progresses.iter().map(|p| (p.id, p.module_id)).collect();
    assert_eq!(modules, vec![(7, first), (8, second), (9, third)]);
    let lessons: Vec<(u64, u64)> =
        contract.lesson_progresses.iter().map(|p| (p.id, p.lesson_id)).collect();
    assert_eq!(lessons, vec![(20, l0), (21, l1), (22, l2)]);
    let quizzes: Vec<(u64, u64)> =
        contract.quizz_progresses.iter().map(|p| (p.id, p.quizz_id)).collect();
    assert_eq!(quizzes, vec![(3, quizz)]);
    assert_eq!(contract.module_progress_count, 10);
    assert_eq!(contract.lesson_progress_count, 23);
    assert_eq!(contract.quizz_progress_count, 4);
    for row in &contract.module_progresses {
        assert_eq!(row.student_id, STUDENT);
        assert_eq!(row.status, ModuleProgressStatus::NotStarted);
        assert!(row.is_enrolled);
    }
    let quizz_row = contract.get_quizz_progress(quizz, s(STUDENT)).unwrap();
    assert_eq!(quizz_row.status, QuizzProgressStatus::NotStarted);
    assert_eq!(quizz_row.try_count, 0);
    assert!(quizz_row.is_enrolled);
    assert!(!quizz_row.is_submitted);
    assert!(!quizz_row.is_correct);
    assert!(contract.is_student_module_enrolled(first, s(STUDENT)));
    assert!(contract.is_student_lesson_enrolled(l2, s(STUDENT)));
    assert!(!contract.is_student_module_enrolled(stray, s(STUDENT)));
}

#[test]
fn checkout_touches_only_the_callers_cart() {
    let mut contract = platform();
    contract
        .create_user(s("other.testnet"), s("Other"), s("other"), s("333"), s("other@x.io"), false, s("o.png"), 3)
        .unwrap();
    let course = add_course(&mut contract, 100);
    contract.save_course_to_cart(s(STUDENT), course, 30).unwrap();
    contract.save_course_to_cart(s("other.testnet"), course, 31).unwrap();
    contract.enroll_all_carted_courses(s(STUDENT), 110, 40).unwrap();
    assert!(contract.is_student_course_enrolled(course, s(STUDENT)));
    assert!(contract.is_student_course_carted(course, s("other.testnet")));
    assert_eq!(contract.get_enrollment(course, s("other.testnet")).unwrap().updated_at, 31);
    let students = contract.get_course_students(course);
    assert_eq!(students.len(), 1);
    assert_eq!(students[0].account_id, STUDENT);
}

#[test]
fn checkout_with_a_broken_catalog_changes_nothing() {
    let mut contract = platform();
    let course = add_course(&mut contract, 100);
    let module = add_module(&mut contract, course, 0);
    add_lesson(&mut contract, module, 0);
    contract.save_course_to_cart(s(STUDENT), course, 30).unwrap();
    contract.modules[0].quizz_id = Some(99);
    assert_eq!(
        contract.enroll_all_carted_courses(s(STUDENT), 110, 40).map(|t| t.len()),
        Err(Error::IntegrityViolation)
    );
    assert!(contract.is_student_course_carted(course, s(STUDENT)));
    assert_eq!(contract.module_progresses.len(), 0);
    assert_eq!(contract.lesson_progresses.len(), 0);

    contract.modules[0].quizz_id = None;
    contract.courses[0].modules_ids.push(55);
    assert_eq!(
        contract.enroll_all_carted_courses(s(STUDENT), 110, 40).map(|t| t.len()),
        Err(Error::IntegrityViolation)
    );
    assert!(contract.is_student_course_carted(course, s(STUDENT)));
}

#[test]
fn a_lesson_that_is_not_stored_gets_no_row() {
    let mut contract = platform();
    let course = add_course(&mut contract, 100);
    let module = add_module(&mut contract, course, 0);
    let lesson = add_lesson(&mut contract, module, 0);
    contract.modules[0].lessons_ids.push(41);
    contract.save_course_to_cart(s(STUDENT), course, 30).unwrap();
    contract.enroll_all_carted_courses(s(STUDENT), 110, 40).unwrap();
    assert_eq!(contract.lesson_progresses.len(), 1);
    assert_eq!(contract.lesson_progresses[0].lesson_id, lesson);
}

#[test]
fn checkout_without_room_for_the_rows_is_refused() {
    let mut contract = platform();
    let course = add_course(&mut contract, 100);
    add_module(&mut contract, course, 0);
    contract.save_course_to_cart(s(STUDENT), course, 30).unwrap();
    contract.module_progress_count = u64::MAX;
    assert_eq!(
        contract.enroll_all_carted_courses(s(STUDENT), 110, 40).map(|t| t.len()),
        Err(Error::CapacityExceeded)
    );
    assert!(contract.is_student_course_carted(course, s(STUDENT)));
    assert_eq!(contract.module_progresses.len(), 0);
}
