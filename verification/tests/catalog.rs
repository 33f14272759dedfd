use course_platform::models::{
    CourseStatus, EnrollmentStatus, LessonProgressStatus, Module, ModuleProgressStatus,
    QuizzProgressStatus, Role,
};
use course_platform::quiz::{Answer, Question};
use course_platform::{Contract, Error};

const ROOT: &str = "root.testnet";
const MENTOR: &str = "mentor.testnet";
const STUDENT: &str = "student.testnet";

fn s(text: &str) -> String {
    text.to_string()
}

fn platform() -> Contract {
    let mut contract = Contract::new(s("platform.testnet"), s(ROOT));
    contract
        .create_user(s(ROOT), s("Root"), s("root"), s("000"), s("root@x.io"), false, s("r.png"), 1)
        .unwrap();
    contract
        .create_user(s(MENTOR), s("Mentor"), s("mentor"), s("111"), s("mentor@x.io"), false, s("m.png"), 1)
        .unwrap();
    contract
        .create_user(s(STUDENT), s("Student"), s("student"), s("222"), s("student@x.io"), true, s("s.png"), 2)
        .unwrap();
    contract
}

fn add_course(contract: &mut Contract) -> u64 {
    contract
        .create_course(
            s(MENTOR),
            s("Rust"),
            s("Ownership and borrowing"),
            s("beginner"),
            s("4 weeks"),
            s("programming"),
            vec![s("a laptop")],
            vec![s("write safe code"), s("read compiler errors")],
            s("rust.png"),
            true,
            100,
            5,
        )
        .unwrap()
        .id
}

fn add_module(contract: &mut Contract, course_id: u64) -> u64 {
    let id = contract.module_count;
    contract
        .create_module(s(MENTOR), course_id, s("Module"), s("A module"), s("ready"), 0, false, 6)
        .unwrap();
    id
}

fn add_lesson(contract: &mut Contract, module_id: u64, order: u64) -> u64 {
    let id = contract.lesson_count;
    contract
        .create_lesson(module_id, s("Lesson"), s("A lesson"), s("ipfs://v"), s("text"), order, false, 7)
        .unwrap();
    id
}

fn status_of(contract: &Contract, course_id: u64) -> CourseStatus {
    contract.get_course_by_id(course_id).unwrap().status
}

fn orders(contract: &Contract, module_id: u64) -> Vec<(u64, u64)> {
    let module = contract.get_module_by_id(module_id).unwrap();
    module
        .lessons_ids
        .iter()
        .map(|id| (*id, contract.get_lesson_by_id(*id).unwrap().order))
        .collect()
}

#[test]
fn a_new_platform_is_empty() {
    let contract = Contract::new(s("platform.testnet"), s(ROOT));
    assert_eq!(contract.owner_id, "platform.testnet");
    assert_eq!(contract.admin_id, ROOT);
    assert_eq!(contract.get_users().len(), 0);
    assert_eq!(contract.get_courses().len(), 0);
    assert_eq!(contract.get_modules().len(), 0);
    assert_eq!(contract.get_lessons().len(), 0);
    assert_eq!(contract.get_quizzes().len(), 0);
    assert_eq!(contract.course_count, 0);
    assert_eq!(contract.get_test_count(), 0);
    assert_eq!(contract.hello_msg(), "Hello, World!");
}

#[test]
fn the_test_counter_is_what_was_set() {
    let mut contract = platform();
    contract.set_test_count(41);
    assert_eq!(contract.get_test_count(), 41);
    assert_eq!(contract.get_users().len(), 3);
}

#[test]
fn a_new_course_is_a_draft() {
    let mut contract = platform();
    let course = contract
        .create_course(
            s(MENTOR),
            s("Rust"),
            s("Ownership"),
            s("beginner"),
            s("4 weeks"),
            s("programming"),
            vec![s("a laptop")],
            vec![],
            s("rust.png"),
            true,
            250,
            5,
        )
        .unwrap();
    assert_eq!(course.id, 0);
    assert_eq!(course.status, CourseStatus::Draft);
    assert_eq!(course.mentor_id, MENTOR);
    assert_eq!(course.price, 250);
    assert_eq!(course.created_at, 5);
    assert_eq!(course.updated_at, 5);
    assert!(course.modules_ids.is_empty());
    let stored = contract.get_course_by_id(0).unwrap();
    assert_eq!(stored.status, CourseStatus::Draft);
    assert_eq!(stored.title, "Rust");
    assert_eq!(stored.requirements, vec![s("a laptop")]);
    assert!(stored.with_ai);
    assert_eq!(contract.course_count, 1);
    assert_eq!(add_course(&mut contract), 1);
    assert_eq!(contract.get_published_courses().len(), 0);
    assert_eq!(contract.get_archived_courses().len(), 0);
}

#[test]
fn creating_a_course_is_refused_where_it_should_be() {
    let mut contract = platform();
    let made = contract.create_course(
        s("ghost.testnet"),
        s("t"),
        s("d"),
        s("l"),
        s("d"),
        s("c"),
        vec![],
        vec![],
        s("p"),
        false,
        1,
        5,
    );
    assert_eq!(made.map(|c| c.id), Err(Error::NotFound));
    contract.course_count = u64::MAX;
    let made = contract.create_course(
        s(MENTOR),
        s("t"),
        s("d"),
        s("l"),
        s("d"),
        s("c"),
        vec![],
        vec![],
        s("p"),
        false,
        1,
        5,
    );
    assert_eq!(made.map(|c| c.id), Err(Error::CapacityExceeded));
    assert_eq!(contract.get_courses().len(), 0);
}

#[test]
fn publishing_twice_keeps_the_course_published() {
    let mut contract = platform();
    let course = add_course(&mut contract);
    assert_eq!(contract.publish_course(s(MENTOR), course, 10), Ok(()));
    assert_eq!(status_of(&contract, course), CourseStatus::Published);
    assert_eq!(contract.get_course_by_id(course).unwrap().updated_at, 10);
    assert_eq!(contract.publish_course(s(MENTOR), course, 11), Ok(()));
    assert_eq!(status_of(&contract, course), CourseStatus::Published);
    assert_eq!(contract.get_course_by_id(course).unwrap().updated_at, 11);
    assert_eq!(contract.get_published_courses().len(), 1);
}

#[test]
fn archiving_works_from_every_status() {
    let mut contract = platform();
    let draft = add_course(&mut contract);
    let published = add_course(&mut contract);
    contract.publish_course(s(MENTOR), published, 10).unwrap();
    assert_eq!(contract.archive_course(s(MENTOR), draft), Ok(()));
    assert_eq!(contract.archive_course(s(MENTOR), published), Ok(()));
    assert_eq!(status_of(&contract, draft), CourseStatus::Archived);
    assert_eq!(status_of(&contract, published), CourseStatus::Archived);
    assert_eq!(contract.archive_course(s(MENTOR), draft), Ok(()));
    assert_eq!(status_of(&contract, draft), CourseStatus::Archived);
    assert_eq!(contract.get_course_by_id(published).unwrap().updated_at, 10);
    assert_eq!(contract.get_archived_courses().len(), 2);
    assert_eq!(contract.publish_course(s(MENTOR), draft, 12), Ok(()));
    assert_eq!(status_of(&contract, draft), CourseStatus::Published);
}

#[test]
fn only_the_mentor_or_an_admin_changes_a_status() {
    let mut contract = platform();
    let course = add_course(&mut contract);
    assert_eq!(contract.publish_course(s(STUDENT), course, 10), Err(Error::Unauthorized));
    assert_eq!(contract.archive_course(s(STUDENT), course), Err(Error::Unauthorized));
    assert_eq!(contract.publish_course(s(MENTOR), 9, 10), Err(Error::NotFound));
    assert_eq!(contract.archive_course(s(MENTOR), 9), Err(Error::NotFound));
    assert_eq!(status_of(&contract, course), CourseStatus::Draft);
    assert!(!contract.is_admin(s(ROOT)));
    assert_eq!(contract.publish_course(s(ROOT), course, 10), Err(Error::Unauthorized));
    contract.change_user_to_admin(s(ROOT)).unwrap();
    assert!(contract.is_admin(s(ROOT)));
    assert_eq!(contract.publish_course(s(ROOT), course, 10), Ok(()));
    assert_eq!(status_of(&contract, course), CourseStatus::Published);
    assert!(contract.is_course_mentor(course, s(MENTOR)));
    assert!(!contract.is_course_mentor(course, s(ROOT)));
    assert!(!contract.is_course_mentor(9, s(MENTOR)));
}

#[test]
fn modules_and_lessons_are_listed_in_their_parents() {
    let mut contract = platform();
    let course = add_course(&mut contract);
    let first = add_module(&mut contract, course);
    let second = add_module(&mut contract, course);
    let a = add_lesson(&mut contract, second, 0);
    let b = add_lesson(&mut contract, second, 1);
    assert_eq!(contract.get_course_by_id(course).unwrap().modules_ids, vec![first, second]);
    assert_eq!(contract.get_module_by_id(second).unwrap().lessons_ids, vec![a, b]);
    assert!(contract.get_module_by_id(first).unwrap().lessons_ids.is_empty());
    let module = contract.get_module_by_id(first).unwrap();
    assert_eq!(module.course_id, course);
    assert_eq!(module.status, "ready");
    assert_eq!(module.quizz_id, None);
    assert_eq!(module.updated_at, 6);
    let lesson = contract.get_lesson_by_id(b).unwrap();
    assert_eq!(lesson.module_id, second);
    assert_eq!(lesson.order, 1);
    assert_eq!(lesson.video_url, "ipfs://v");
    assert_eq!(contract.get_course_modules(course).iter().map(|m| m.id).collect::<Vec<u64>>(), vec![first, second]);
    assert_eq!(contract.get_course_modules(9).len(), 0);
    assert_eq!(contract.get_module_lessons(second).iter().map(|l| l.id).collect::<Vec<u64>>(), vec![a, b]);
    assert_eq!(contract.module_count, 2);
    assert_eq!(contract.lesson_count, 2);
}

#[test]
fn creating_catalog_items_is_refused_where_it_should_be() {
    let mut contract = platform();
    let course = add_course(&mut contract);
    assert_eq!(
        contract.create_module(s("ghost.testnet"), course, s("t"), s("d"), s("s"), 0, false, 1),
        Err(Error::NotFound)
    );
    assert_eq!(
        contract.create_module(s(MENTOR), 9, s("t"), s("d"), s("s"), 0, false, 1),
        Err(Error::NotFound)
    );
    assert_eq!(
        contract.create_lesson(4, s("t"), s("d"), s("v"), s("a"), 0, false, 1),
        Err(Error::NotFound)
    );
    assert_eq!(contract.create_quizz(4, s("t"), s("d"), 1), Err(Error::NotFound));
    let module = add_module(&mut contract, course);
    contract.module_count = u64::MAX;
    assert_eq!(
        contract.create_module(s(MENTOR), course, s("t"), s("d"), s("s"), 0, false, 1),
        Err(Error::CapacityExceeded)
    );
    contract.lesson_count = u64::MAX;
    assert_eq!(
        contract.create_lesson(module, s("t"), s("d"), s("v"), s("a"), 0, false, 1),
        Err(Error::CapacityExceeded)
    );
    contract.quizz_count = u64::MAX;
    assert_eq!(contract.create_quizz(module, s("t"), s("d"), 1), Err(Error::CapacityExceeded));
    assert_eq!(contract.get_modules().len(), 1);
    assert_eq!(contract.get_lessons().len(), 0);
    assert_eq!(contract.get_quizzes().len(), 0);
}

#[test]
fn a_quiz_belongs_to_its_module() {
    let mut contract = platform();
    let course = add_course(&mut contract);
    let module = add_module(&mut contract, course);
    assert_eq!(contract.create_quizz(module, s("Quiz"), s("A quiz"), 8), Ok(()));
    let quizz = contract.get_quizz_by_id(0).unwrap();
    assert_eq!(quizz.module_id, module);
    assert!(quizz.questions.is_empty());
    assert!(!quizz.with_ai);
    assert_eq!(contract.get_module_by_id(module).unwrap().quizz_id, Some(0));
    let found = contract.get_module_quizz(contract.get_module_by_id(module).unwrap()).unwrap();
    assert_eq!(found.id, 0);

    let questions =
        vec![Question { text: s("Why?"), answers: vec![Answer { text: s("because"), is_correct: true }] }];
    assert_eq!(
        contract.save_quizz_questions(s(STUDENT), 0, true, questions.clone()),
        Err(Error::Unauthorized)
    );
    assert_eq!(contract.save_quizz_questions(s(MENTOR), 5, true, questions.clone()), Err(Error::NotFound));
    assert_eq!(contract.save_quizz_questions(s(MENTOR), 0, true, questions.clone()), Ok(()));
    let quizz = contract.get_quizz_by_id(0).unwrap();
    assert!(quizz.questions == questions);
    assert!(quizz.with_ai);
    let orphan = Module {
        id: 50,
        title: s("t"),
        description: s("d"),
        status: s("s"),
        order: 0,
        with_ai: false,
        created_at: 0,
        updated_at: 0,
        course_id: course,
        lessons_ids: vec![],
        quizz_id: None,
    };
    assert!(contract.get_module_quizz(orphan).is_none());
}

#[test]
fn details_are_edited_by_the_mentor_only() {
    let mut contract = platform();
    let course = add_course(&mut contract);
    let module = add_module(&mut contract, course);
    let lesson = add_lesson(&mut contract, module, 0);

    assert_eq!(
        contract.update_course_details(s(STUDENT), course, s("t"), s("d"), 1, s("c"), 20),
        Err(Error::Unauthorized)
    );
    assert_eq!(
        contract.update_course_details(s(MENTOR), 9, s("t"), s("d"), 1, s("c"), 20),
        Err(Error::NotFound)
    );
    assert_eq!(
        contract.update_course_details(s(MENTOR), course, s("Go"), s("Channels"), 70, s("systems"), 20),
        Ok(())
    );
    let stored = contract.get_course_by_id(course).unwrap();
    assert_eq!(stored.title, "Go");
    assert_eq!(stored.description, "Channels");
    assert_eq!(stored.price, 70);
    assert_eq!(stored.category, "systems");
    assert_eq!(stored.updated_at, 20);
    assert_eq!(stored.level, "beginner");
    assert_eq!(stored.created_at, 5);

    assert_eq!(contract.update_module(s(STUDENT), module, s("t"), s("d"), 21), Err(Error::Unauthorized));
    assert_eq!(contract.update_module(s(MENTOR), 9, s("t"), s("d"), 21), Err(Error::NotFound));
    assert_eq!(contract.update_module(s(MENTOR), module, s("Intro"), s("First steps"), 21), Ok(()));
    let stored = contract.get_module_by_id(module).unwrap();
    assert_eq!(stored.title, "Intro");
    assert_eq!(stored.description, "First steps");
    assert_eq!(stored.updated_at, 21);
    assert_eq!(stored.created_at, 6);

    assert_eq!(
        contract.update_lesson_details(s(STUDENT), lesson, s("t"), s("d"), 22),
        Err(Error::Unauthorized)
    );
    assert_eq!(contract.update_lesson_details(s(MENTOR), 9, s("t"), s("d"), 22), Err(Error::NotFound));
    assert_eq!(contract.update_lesson_details(s(MENTOR), lesson, s("Hello"), s("World"), 22), Ok(()));
    assert_eq!(contract.add_video_to_lesson(s(STUDENT), lesson, s("ipfs://x")), Err(Error::Unauthorized));
    assert_eq!(contract.add_video_to_lesson(s(MENTOR), lesson, s("ipfs://x")), Ok(()));
    assert_eq!(contract.add_article_to_lesson(s(MENTOR), 9, s("words")), Err(Error::NotFound));
    assert_eq!(contract.add_article_to_lesson(s(MENTOR), lesson, s("words")), Ok(()));
    let stored = contract.get_lesson_by_id(lesson).unwrap();
    assert_eq!(stored.title, "Hello");
    assert_eq!(stored.description, "World");
    assert_eq!(stored.updated_at, 22);
    assert_eq!(stored.video_url, "ipfs://x");
    assert_eq!(stored.article, "words");
}

#[test]
fn a_lesson_of_a_missing_module_cannot_be_edited() {
    let mut contract = platform();
    let course = add_course(&mut contract);
    let module = add_module(&mut contract, course);
    let lesson = add_lesson(&mut contract, module, 0);
    contract.lessons[0].module_id = 33;
    assert_eq!(
        contract.update_lesson_details(s(MENTOR), lesson, s("t"), s("d"), 22),
        Err(Error::IntegrityViolation)
    );
    assert_eq!(contract.delete_lesson(s(MENTOR), lesson), Err(Error::IntegrityViolation));
    contract.lessons[0].module_id = module;
    contract.modules[0].course_id = 44;
    assert_eq!(contract.update_module(s(MENTOR), module, s("t"), s("d"), 22), Err(Error::IntegrityViolation));
    assert_eq!(contract.add_video_to_lesson(s(MENTOR), lesson, s("v")), Err(Error::IntegrityViolation));
    assert_eq!(contract.get_lessons().len(), 1);
}

#[test]
fn deleting_a_lesson_closes_the_gap() {
    let mut contract = platform();
    let course = add_course(&mut contract);
    let module = add_module(&mut contract, course);
    let ids: Vec<u64> = (0..4).map(|order| add_lesson(&mut contract, module, order)).collect();
    assert_eq!(orders(&contract, module), vec![(ids[0], 0), (ids[1], 1), (ids[2], 2), (ids[3], 3)]);

    assert_eq!(contract.delete_lesson(s(MENTOR), ids[1]), Ok(()));
    assert_eq!(orders(&contract, module), vec![(ids[0], 0), (ids[2], 1), (ids[3], 2)]);
    assert!(contract.get_lesson_by_id(ids[1]).is_none());
    assert_eq!(contract.get_lessons().len(), 3);
    // The last stored lesson has taken the place of the deleted one.
    assert_eq!(contract.lessons.iter().map(|l| l.id).collect::<Vec<u64>>(), vec![ids[0], ids[3], ids[2]]);
    assert_eq!(contract.lesson_count, 4);
}

#[test]
fn deleting_the_first_or_the_last_lesson_keeps_orders_dense() {
    let mut contract = platform();
    let course = add_course(&mut contract);
    let module = add_module(&mut contract, course);
    let other = add_module(&mut contract, course);
    let ids: Vec<u64> = (0..3).map(|order| add_lesson(&mut contract, module, order)).collect();
    let apart = add_lesson(&mut contract, other, 2);

    assert_eq!(contract.delete_lesson(s(MENTOR), ids[2]), Ok(()));
    assert_eq!(orders(&contract, module), vec![(ids[0], 0), (ids[1], 1)]);
    assert_eq!(contract.delete_lesson(s(MENTOR), ids[0]), Ok(()));
    assert_eq!(orders(&contract, module), vec![(ids[1], 0)]);
    // A lesson of another module keeps its order.
    assert_eq!(orders(&contract, other), vec![(apart, 2)]);
    assert_eq!(contract.delete_lesson(s(MENTOR), ids[1]), Ok(()));
    assert_eq!(orders(&contract, module), vec![]);
}

#[test]
fn deleting_a_lesson_is_refused_where_it_should_be() {
    let mut contract = platform();
    let course = add_course(&mut contract);
    let module = add_module(&mut contract, course);
    let first = add_lesson(&mut contract, module, 0);
    let second = add_lesson(&mut contract, module, 1);
    assert_eq!(contract.delete_lesson(s(MENTOR), 9), Err(Error::NotFound));
    assert_eq!(contract.delete_lesson(s(STUDENT), first), Err(Error::Unauthorized));
    contract.modules[0].lessons_ids.push(70);
    assert_eq!(contract.delete_lesson(s(MENTOR), first), Err(Error::IntegrityViolation));
    contract.modules[0].lessons_ids = vec![second];
    assert_eq!(contract.delete_lesson(s(MENTOR), first), Err(Error::IntegrityViolation));
    assert_eq!(contract.get_lessons().len(), 2);
    assert_eq!(contract.get_lesson_by_id(second).unwrap().order, 1);
}

#[test]
fn deleting_a_lesson_leaves_its_progress_rows() {
    let mut contract = platform();
    let course = add_course(&mut contract);
    let module = add_module(&mut contract, course);
    let first = add_lesson(&mut contract, module, 0);
    add_lesson(&mut contract, module, 1);
    contract.save_course_to_cart(s(STUDENT), course, 30).unwrap();
    contract.enroll_all_carted_courses(s(STUDENT), 110, 40).unwrap();
    contract.delete_lesson(s(MENTOR), first).unwrap();
    assert_eq!(contract.lesson_progresses.len(), 2);
    assert!(contract.get_lesson_progress(first, s(STUDENT)).is_some());
}

#[test]
fn the_administrator_account_manages_the_catalog() {
    let mut contract = platform();
    let saved = contract.save_course_by_admin(
        s(ROOT),
        s(MENTOR),
        s("Rust"),
        s("Ownership"),
        s("beginner"),
        s("4 weeks"),
        s("programming"),
        vec![],
        vec![s("ship")],
        s("rust.png"),
        false,
        300,
        5,
    );
    assert_eq!(saved, Ok(0));
    let course = contract.get_course_by_id(0).unwrap();
    assert_eq!(course.status, CourseStatus::Draft);
    assert_eq!(course.mentor_id, MENTOR);
    assert_eq!(course.price, 300);
    assert_eq!(course.objectives, vec![s("ship")]);

    let module = contract
        .save_module_by_admin(s(ROOT), 0, s("Intro"), s("First"), s("ready"), 3, true, 6)
        .unwrap();
    assert_eq!(module.id, 0);
    assert_eq!(module.course_id, 0);
    assert_eq!(module.order, 3);
    assert_eq!(module.title, "Intro");
    assert_eq!(contract.get_course_by_id(0).unwrap().modules_ids, vec![0]);

    assert_eq!(
        contract.save_lesson_by_admin(s(ROOT), 0, s("L"), s("D"), s("v"), s("a"), 0, false, 7),
        Ok(())
    );
    assert_eq!(contract.get_module_by_id(0).unwrap().lessons_ids, vec![0]);

    let lesson = contract
        .update_lesson_by_admin(s(ROOT), 0, s("L2"), s("D2"), s("v2"), s("a2"), 4, true, 9)
        .unwrap();
    assert_eq!(lesson.id, 0);
    assert_eq!(lesson.title, "L2");
    assert_eq!(lesson.order, 4);
    assert_eq!(lesson.updated_at, 9);
    assert_eq!(lesson.created_at, 7);
    let stored = contract.get_lesson_by_id(0).unwrap();
    assert_eq!(stored.article, "a2");
    assert!(stored.with_ai);

    assert_eq!(contract.update_course_price_by_admin(s(ROOT), 0, 45), Ok(()));
    assert_eq!(contract.get_course_by_id(0).unwrap().price, 45);

    let user = contract
        .update_user_min_info_by_admin(s(ROOT), s(STUDENT), s("Stu"), s("stu@x.io"), s("stu"), s("999"), 12)
        .unwrap();
    assert_eq!(user.account_id, STUDENT);
    assert_eq!(user.name, "Stu");
    assert_eq!(user.email, "stu@x.io");
    assert_eq!(user.username, "stu");
    assert_eq!(user.phone, "999");
    assert_eq!(user.updated_at, 12);
    assert_eq!(user.created_at, 2);
    assert_eq!(contract.get_user_by_id(s(STUDENT)).unwrap().name, "Stu");
}

#[test]
fn administrative_operations_are_for_the_administrator_account_only() {
    let mut contract = platform();
    let course = add_course(&mut contract);
    let module = add_module(&mut contract, course);
    let lesson = add_lesson(&mut contract, module, 0);
    assert_eq!(contract.change_user_to_admin(s(MENTOR)), Err(Error::Unauthorized));
    assert_eq!(contract.get_user_by_id(s(MENTOR)).unwrap().role, Role::User);
    assert_eq!(contract.update_course_price_by_admin(s(MENTOR), course, 1), Err(Error::Unauthorized));
    assert_eq!(contract.get_course_by_id(course).unwrap().price, 100);
    assert_eq!(
        contract.save_course_by_admin(
            s(MENTOR),
            s(MENTOR),
            s("t"),
            s("d"),
            s("l"),
            s("d"),
            s("c"),
            vec![],
            vec![],
            s("p"),
            false,
            1,
            1
        ),
        Err(Error::Unauthorized)
    );
    assert_eq!(
        contract.save_module_by_admin(s(MENTOR), course, s("t"), s("d"), s("s"), 0, false, 1).map(|m| m.id),
        Err(Error::Unauthorized)
    );
    assert_eq!(
        contract.save_lesson_by_admin(s(MENTOR), module, s("t"), s("d"), s("v"), s("a"), 0, false, 1),
        Err(Error::Unauthorized)
    );
    assert_eq!(
        contract
            .update_lesson_by_admin(s(MENTOR), lesson, s("t"), s("d"), s("v"), s("a"), 0, false, 1)
            .map(|l| l.id),
        Err(Error::Unauthorized)
    );
    assert_eq!(
        contract
            .update_user_min_info_by_admin(s(MENTOR), s(STUDENT), s("n"), s("e"), s("u"), s("p"), 1)
            .map(|u| u.name),
        Err(Error::Unauthorized)
    );
    assert_eq!(contract.update_course_price_by_admin(s(ROOT), 9, 1), Err(Error::NotFound));
    assert_eq!(
        contract.save_module_by_admin(s(ROOT), 9, s("t"), s("d"), s("s"), 0, false, 1).map(|m| m.id),
        Err(Error::NotFound)
    );
    assert_eq!(
        contract.save_lesson_by_admin(s(ROOT), 9, s("t"), s("d"), s("v"), s("a"), 0, false, 1),
        Err(Error::NotFound)
    );
    assert_eq!(
        contract
            .update_lesson_by_admin(s(ROOT), 9, s("t"), s("d"), s("v"), s("a"), 0, false, 1)
            .map(|l| l.id),
        Err(Error::NotFound)
    );
    assert_eq!(
        contract
            .update_user_min_info_by_admin(s(ROOT), s("ghost.testnet"), s("n"), s("e"), s("u"), s("p"), 1)
            .map(|u| u.name),
        Err(Error::NotFound)
    );
    let mut bare = Contract::new(s("platform.testnet"), s(ROOT));
    assert_eq!(bare.change_user_to_admin(s(ROOT)), Err(Error::NotFound));
}

#[test]
fn statuses_and_roles_are_read_back_from_their_names() {
    assert_eq!(CourseStatus::Draft.name(), "draft");
    assert_eq!(CourseStatus::Published.name(), "published");
    assert_eq!(CourseStatus::Archived.name(), "archived");
    assert_eq!(Role::User.name(), "user");
    assert_eq!(Role::Admin.name(), "admin");
    assert_eq!(EnrollmentStatus::Carted.name(), "carted");
    assert_eq!(EnrollmentStatus::Enrolled.name(), "enrolled");
    assert_eq!(EnrollmentStatus::Completed.name(), "completed");
    assert_eq!(ModuleProgressStatus::NotStarted.name(), "not_started");
    assert_eq!(ModuleProgressStatus::Started.name(), "started");
    assert_eq!(ModuleProgressStatus::Completed.name(), "completed");
    assert_eq!(LessonProgressStatus::NotStarted.name(), "not_started");
    assert_eq!(LessonProgressStatus::Completed.name(), "completed");
    assert_eq!(QuizzProgressStatus::NotStarted.name(), "not_started");
    assert_eq!(QuizzProgressStatus::Submitted.name(), "submitted");
    assert_eq!(QuizzProgressStatus::Completed.name(), "completed");
    for status in [CourseStatus::Draft, CourseStatus::Published, CourseStatus::Archived] {
        assert_eq!(CourseStatus::from_name(&status.name()), Some(status));
    }
    for status in
        [QuizzProgressStatus::NotStarted, QuizzProgressStatus::Submitted, QuizzProgressStatus::Completed]
    {
        assert_eq!(QuizzProgressStatus::from_name(&status.name()), Some(status));
    }
    assert_eq!(Role::from_name(&s("admin")), Some(Role::Admin));
    assert_eq!(Role::from_name(&s("Admin")), None);
    assert_eq!(EnrollmentStatus::from_name(&s("started")), None);
    assert_eq!(ModuleProgressStatus::from_name(&s("started")), Some(ModuleProgressStatus::Started));
    assert_eq!(LessonProgressStatus::from_name(&s("")), None);
}
