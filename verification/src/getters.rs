use crate::contract::{Contract, ContractView};
use crate::models::{
    Course, CourseStatus, CourseView, CourseWithProgress, CourseWithProgressView, Enrollment,
    EnrollmentStatus, EnrollmentView, Lesson, LessonProgress, LessonView, Module, ModuleProgress,
    ModuleView, Quizz, QuizzProgress, User, UserView,
};
use crate::seqs::{collect, first_from, first_where, lemma_collect_step, lemma_deep_push};
use crate::consistency::lemma_same_links_stay_consistent;
use crate::rows::lemma_same_rows_stay_consistent;
use vstd::prelude::*;

verus! {

/// Recognises a user by username.
pub open spec fn username_is(username: Seq<char>) -> spec_fn(UserView) -> bool {
    |u: UserView| u.username == username
}

/// Recognises a user by e-mail address.
pub open spec fn email_is(email: Seq<char>) -> spec_fn(UserView) -> bool {
    |u: UserView| u.email == email
}

/// Recognises an enrollment of the account whose status is among those asked for.
pub open spec fn enrollment_among(account_id: Seq<char>, carted: bool, enrolled: bool, completed: bool)
    -> spec_fn(EnrollmentView) -> bool {
    |e: EnrollmentView|
        e.student_id == account_id && match e.status {
            EnrollmentStatus::Carted => carted,
            EnrollmentStatus::Enrolled => enrolled,
            EnrollmentStatus::Completed => completed,
        }
}

/// Keeps what `keep` recognises.
pub open spec fn kept<T>(keep: spec_fn(T) -> bool) -> spec_fn(T) -> Option<T> {
    |x: T|
        if keep(x) {
            Some(x)
        } else {
            None
        }
}

/// The course behind an enrollment that `keep` recognises, where the catalog has it.
pub open spec fn course_behind(st: ContractView, keep: spec_fn(EnrollmentView) -> bool) -> spec_fn(
    EnrollmentView,
) -> Option<CourseView> {
    |e: EnrollmentView|
        if keep(e) {
            st.course(e.course_id)
        } else {
            None
        }
}

/// The student behind an enrollment in the course that is enrolled or completed, where the
/// student is a user.
pub open spec fn student_behind(st: ContractView, course_id: u64) -> spec_fn(EnrollmentView) -> Option<
    UserView,
> {
    |e: EnrollmentView|
        if e.course_id == course_id && (e.status == EnrollmentStatus::Enrolled || e.status
            == EnrollmentStatus::Completed) {
            st.user(e.student_id)
        } else {
            None
        }
}

/// The module that an id names, if any.
pub open spec fn module_named(st: ContractView) -> spec_fn(u64) -> Option<ModuleView> {
    |module_id: u64| st.module(module_id)
}

/// Recognises a lesson of the module.
pub open spec fn lesson_in(module_id: u64) -> spec_fn(LessonView) -> bool {
    |l: LessonView| l.module_id == module_id
}

/// Recognises a course with the status.
pub open spec fn course_in(status: CourseStatus) -> spec_fn(CourseView) -> bool {
    |c: CourseView| c.status == status
}

/// Recognises a course of the mentor.
pub open spec fn course_by(mentor_id: Seq<char>) -> spec_fn(CourseView) -> bool {
    |c: CourseView| c.mentor_id == mentor_id
}

/// A course of the mentor as listed for the mentor, with a progress figure of zero.
pub open spec fn listed_for(mentor_id: Seq<char>) -> spec_fn(CourseView) -> Option<
    CourseWithProgressView,
> {
    |c: CourseView|
        if c.mentor_id == mentor_id {
            Some(
                CourseWithProgressView {
                    id: c.id,
                    title: c.title,
                    description: c.description,
                    level: c.level,
                    duration: c.duration,
                    status: c.status,
                    requirements: c.requirements,
                    objectives: c.objectives,
                    category: c.category,
                    picture: c.picture,
                    with_ai: c.with_ai,
                    price: c.price,
                    mentor_id: c.mentor_id,
                    modules_ids: c.modules_ids,
                    created_at: c.created_at,
                    updated_at: c.updated_at,
                    progress: 0,
                },
            )
        } else {
            None
        }
}

impl Contract {
    /// Sets the test counter.
    pub fn set_test_count(&mut self, count: u64)
        ensures
            final(self).deep_view() == (ContractView { test_count: count, ..old(self).deep_view() }),
            old(self).deep_view().consistent() ==> final(self).deep_view().consistent(),
            old(self).deep_view().sound() ==> final(self).deep_view().sound(),
    {
        self.test_count = count;
        proof {
            if old(self).deep_view().consistent() {
                lemma_same_links_stay_consistent(old(self).deep_view(), self.deep_view());
            }
            if old(self).deep_view().sound() {
                lemma_same_rows_stay_consistent(old(self).deep_view(), self.deep_view());
            }
        }
    }

    /// The test counter.
    pub fn get_test_count(&self) -> (r: u64)
        ensures
            r == self.test_count,
    {
        self.test_count
    }

    /// Every quiz, in the order in which they were stored.
    pub fn get_quizzes(&self) -> (r: Vec<Quizz>)
        ensures
            r.deep_view() == self.deep_view().quizzes,
    {
        let r = self.quizzes.clone();
        proof {
            assert(r.deep_view() =~= self.quizzes.deep_view());
        }
        r
    }

    /// Every user, in the order in which they were stored.
    pub fn get_users(&self) -> (r: Vec<User>)
        ensures
            r.deep_view() == self.deep_view().users,
    {
        let r = self.users.clone();
        proof {
            assert(r.deep_view() =~= self.users.deep_view());
        }
        r
    }

    /// Every course, in the order in which they were stored.
    pub fn get_courses(&self) -> (r: Vec<Course>)
        ensures
            r.deep_view() == self.deep_view().courses,
    {
        let r = self.courses.clone();
        proof {
            assert(r.deep_view() =~= self.courses.deep_view());
        }
        r
    }

    /// Every module, in the order in which they were stored.
    pub fn get_modules(&self) -> (r: Vec<Module>)
        ensures
            r.deep_view() == self.deep_view().modules,
    {
        let r = self.modules.clone();
        proof {
            assert(r.deep_view() =~= self.modules.deep_view());
        }
        r
    }

    /// Every lesson, in the order in which they were stored.
    pub fn get_lessons(&self) -> (r: Vec<Lesson>)
        ensures
            r.deep_view() == self.deep_view().lessons,
    {
        let r = self.lessons.clone();
        proof {
            assert(r.deep_view() =~= self.lessons.deep_view());
        }
        r
    }

    /// The user who holds the account, if there is one.
    pub fn get_user_by_id(&self, id: String) -> (r: Option<User>)
        ensures
            r.deep_view() == self.deep_view().user(id@),
    {
        match self.user_index(&id) {
            Some(i) => Some(self.users[i].clone()),
            None => None,
        }
    }

    /// The quiz with the id, if there is one.
    pub fn get_quizz_by_id(&self, quizz_id: u64) -> (r: Option<Quizz>)
        ensures
            r.deep_view() == self.deep_view().quizz(quizz_id),
    {
        match self.quizz_index(quizz_id) {
            Some(i) => Some(self.quizzes[i].clone()),
            None => None,
        }
    }

    /// The course with the id, if there is one.
    pub fn get_course_by_id(&self, course_id: u64) -> (r: Option<Course>)
        ensures
            r.deep_view() == self.deep_view().course(course_id),
    {
        match self.course_index(course_id) {
            Some(i) => Some(self.courses[i].clone()),
            None => None,
        }
    }

    /// The module with the id, if there is one.
    pub fn get_module_by_id(&self, module_id: u64) -> (r: Option<Module>)
        ensures
            r.deep_view() == self.deep_view().module(module_id),
    {
        match self.module_index(module_id) {
            Some(i) => Some(self.modules[i].clone()),
            None => None,
        }
    }

    /// The lesson with the id, if there is one.
    pub fn get_lesson_by_id(&self, lesson_id: u64) -> (r: Option<Lesson>)
        ensures
            r.deep_view() == self.deep_view().lesson(lesson_id),
    {
        match self.lesson_index(lesson_id) {
            Some(i) => Some(self.lessons[i].clone()),
            None => None,
        }
    }

    /// The enrollment of the account in the course, if there is one.
    pub fn get_enrollment(&self, course_id: u64, account_id: String) -> (r: Option<Enrollment>)
        ensures
            r.deep_view() == self.deep_view().enrollment(course_id, account_id@),
    {
        match self.enrollment_index(course_id, &account_id) {
            Some(i) => Some(self.enrollments[i].clone()),
            None => None,
        }
    }

    /// The progress of the student in the lesson, if there is one.
    pub fn get_lesson_progress(&self, lesson_id: u64, student_id: String) -> (r: Option<LessonProgress>)
        ensures
            r.deep_view() == self.deep_view().lesson_progress(lesson_id, student_id@),
    {
        match self.lesson_progress_index(lesson_id, &student_id) {
            Some(i) => Some(self.lesson_progresses[i].clone()),
            None => None,
        }
    }

    /// The progress of the student in the module, if there is one.
    pub fn get_module_progress(&self, module_id: u64, student_id: String) -> (r: Option<ModuleProgress>)
        ensures
            r.deep_view() == self.deep_view().module_progress(module_id, student_id@),
    {
        match self.module_progress_index(module_id, &student_id) {
            Some(i) => Some(self.module_progresses[i].clone()),
            None => None,
        }
    }

    /// The progress of the student in the quiz, if there is one.
    pub fn get_quizz_progress(&self, quizz_id: u64, student_id: String) -> (r: Option<QuizzProgress>)
        ensures
            r.deep_view() == self.deep_view().quizz_progress(quizz_id, student_id@),
    {
        match self.quizz_progress_index(quizz_id, &student_id) {
            Some(i) => Some(self.quizz_progresses[i].clone()),
            None => None,
        }
    }

    /// The first user with the username, if there is one.
    pub fn get_user_by_username(&self, username: String) -> (r: Option<User>)
        ensures
            r.deep_view() == match first_where(self.deep_view().users, username_is(username@)) {
                Some(i) => Some(self.deep_view().users[i]),
                None => None,
            },
    {
        let ghost p = username_is(username@);
        let mut i: usize = 0;
        while i < self.users.len()
            invariant
                i <= self.users.len(),
                p == username_is(username@),
                first_from(self.users.deep_view(), p, i as int) == first_where(
                    self.users.deep_view(),
                    p,
                ),
            decreases self.users.len() - i,
        {
            if self.users[i].username == username {
                return Some(self.users[i].clone());
            }
            i += 1;
        }
        None
    }

    /// The first user with the e-mail address, if there is one.
    pub fn get_user_by_email(&self, email: String) -> (r: Option<User>)
        ensures
            r.deep_view() == match first_where(self.deep_view().users, email_is(email@)) {
                Some(i) => Some(self.deep_view().users[i]),
                None => None,
            },
    {
        let ghost p = email_is(email@);
        let mut i: usize = 0;
        while i < self.users.len()
            invariant
                i <= self.users.len(),
                p == email_is(email@),
                first_from(self.users.deep_view(), p, i as int) == first_where(
                    self.users.deep_view(),
                    p,
                ),
            decreases self.users.len() - i,
        {
            if self.users[i].email == email {
                return Some(self.users[i].clone());
            }
            i += 1;
        }
        None
    }

    /// The enrollments of the account whose status is among those asked for.
    pub fn enrollments_among(&self, account_id: &String, carted: bool, enrolled: bool, completed: bool) -> (r:
        Vec<Enrollment>)
        ensures
            r.deep_view() == collect(
                self.deep_view().enrollments,
                kept(enrollment_among(account_id@, carted, enrolled, completed)),
            ),
    {
        let ghost f = kept(enrollment_among(account_id@, carted, enrolled, completed));
        let mut out: Vec<Enrollment> = Vec::new();
        let mut i: usize = 0;
        assert(out.deep_view() =~= Seq::empty());
        while i < self.enrollments.len()
            invariant
                i <= self.enrollments.len(),
                f == kept(enrollment_among(account_id@, carted, enrolled, completed)),
                out.deep_view() == collect(self.enrollments.deep_view().take(i as int), f),
            decreases self.enrollments.len() - i,
        {
            proof {
                lemma_collect_step(self.enrollments.deep_view(), f, i as int);
            }
            if self.enrollments[i].student_id == *account_id && match self.enrollments[i].status {
                EnrollmentStatus::Carted => carted,
                EnrollmentStatus::Enrolled => enrolled,
                EnrollmentStatus::Completed => completed,
            } {
                let ghost before = out;
                let item = self.enrollments[i].clone();
                out.push(item);
                proof {
                    lemma_deep_push(before, out, item);
                }
            }
            i += 1;
        }
        proof {
            assert(self.enrollments.deep_view().take(i as int) =~= self.enrollments.deep_view());
        }
        out
    }

    /// The courses behind the enrollments of the account whose status is among those asked
    /// for, where the catalog has them.
    pub fn courses_among(&self, account_id: &String, carted: bool, enrolled: bool, completed: bool) -> (r:
        Vec<Course>)
        ensures
            r.deep_view() == collect(
                self.deep_view().enrollments,
                course_behind(
                    self.deep_view(),
                    enrollment_among(account_id@, carted, enrolled, completed),
                ),
            ),
    {
        let ghost f = course_behind(
            self.deep_view(),
            enrollment_among(account_id@, carted, enrolled, completed),
        );
        let mut out: Vec<Course> = Vec::new();
        let mut i: usize = 0;
        assert(out.deep_view() =~= Seq::empty());
        while i < self.enrollments.len()
            invariant
                i <= self.enrollments.len(),
                f == course_behind(
                    self.deep_view(),
                    enrollment_among(account_id@, carted, enrolled, completed),
                ),
                out.deep_view() == collect(self.enrollments.deep_view().take(i as int), f),
            decreases self.enrollments.len() - i,
        {
            proof {
                lemma_collect_step(self.enrollments.deep_view(), f, i as int);
            }
            if self.enrollments[i].student_id == *account_id && match self.enrollments[i].status {
                EnrollmentStatus::Carted => carted,
                EnrollmentStatus::Enrolled => enrolled,
                EnrollmentStatus::Completed => completed,
            } {
                match self.course_index(self.enrollments[i].course_id) {
                    Some(k) => {
                        let ghost before = out;
                        let item = self.courses[k].clone();
                        out.push(item);
                        proof {
                            lemma_deep_push(before, out, item);
                        }
                    },
                    None => {},
                }
            }
            i += 1;
        }
        proof {
            assert(self.enrollments.deep_view().take(i as int) =~= self.enrollments.deep_view());
        }
        out
    }

    /// The enrollments in the account's cart.
    pub fn get_user_carted_enrollments(&self, account_id: String) -> (r: Vec<Enrollment>)
        ensures
            r.deep_view() == collect(
                self.deep_view().enrollments,
                kept(enrollment_among(account_id@, true, false, false)),
            ),
    {
        self.enrollments_among(&account_id, true, false, false)
    }

    /// Every enrollment of the account.
    pub fn get_user_enrollments(&self, account_id: String) -> (r: Vec<Enrollment>)
        ensures
            r.deep_view() == collect(
                self.deep_view().enrollments,
                kept(enrollment_among(account_id@, true, true, true)),
            ),
    {
        self.enrollments_among(&account_id, true, true, true)
    }

    /// The courses that the student has carted, is enrolled in or has completed.
    pub fn get_student_courses(&self, student_id: String) -> (r: Vec<Course>)
        ensures
            r.deep_view() == collect(
                self.deep_view().enrollments,
                course_behind(self.deep_view(), enrollment_among(student_id@, true, true, true)),
            ),
    {
        self.courses_among(&student_id, true, true, true)
    }

    /// The courses that the account is enrolled in or has completed.
    pub fn get_user_enrolled_courses(&self, account_id: String) -> (r: Vec<Course>)
        ensures
            r.deep_view() == collect(
                self.deep_view().enrollments,
                course_behind(self.deep_view(), enrollment_among(account_id@, false, true, true)),
            ),
    {
        self.courses_among(&account_id, false, true, true)
    }

    /// The courses that the account has completed.
    pub fn get_user_completed_courses(&self, account_id: String) -> (r: Vec<Course>)
        ensures
            r.deep_view() == collect(
                self.deep_view().enrollments,
                course_behind(self.deep_view(), enrollment_among(account_id@, false, false, true)),
            ),
    {
        self.courses_among(&account_id, false, false, true)
    }

    /// The modules of the course that the catalog has, in the course's order; nothing for a
    /// course that does not exist.
    pub fn get_course_modules(&self, course_id: u64) -> (r: Vec<Module>)
        ensures
            r.deep_view() == match self.deep_view().course(course_id) {
                Some(c) => collect(c.modules_ids, module_named(self.deep_view())),
                None => Seq::empty(),
            },
    {
        let c = match self.course_index(course_id) {
            Some(c) => c,
            None => {
                let none: Vec<Module> = Vec::new();
                assert(none.deep_view() =~= Seq::empty());
                return none;
            },
        };
        let ids = &self.courses[c].modules_ids;
        let ghost f = module_named(self.deep_view());
        let mut out: Vec<Module> = Vec::new();
        let mut i: usize = 0;
        assert(out.deep_view() =~= Seq::empty());
        while i < ids.len()
            invariant
                i <= ids.len(),
                f == module_named(self.deep_view()),
                out.deep_view() == collect(ids@.take(i as int), f),
            decreases ids.len() - i,
        {
            proof {
                lemma_collect_step(ids@, f, i as int);
            }
            if true {
                match self.module_index(ids[i]) {
                    Some(k) => {
                        let ghost before = out;
                        let item = self.modules[k].clone();
                        out.push(item);
                        proof {
                            lemma_deep_push(before, out, item);
                        }
                    },
                    None => {},
                }
            }
            i += 1;
        }
        proof {
            assert(ids@.take(i as int) =~= ids@);
        }
        out
    }

    /// The users who are enrolled in the course or have completed it, one per enrollment.
    pub fn get_course_students(&self, course_id: u64) -> (r: Vec<User>)
        ensures
            r.deep_view() == collect(
                self.deep_view().enrollments,
                student_behind(self.deep_view(), course_id),
            ),
    {
        let ghost f = student_behind(self.deep_view(), course_id);
        let mut out: Vec<User> = Vec::new();
        let mut i: usize = 0;
        assert(out.deep_view() =~= Seq::empty());
        while i < self.enrollments.len()
            invariant
                i <= self.enrollments.len(),
                f == student_behind(self.deep_view(), course_id),
                out.deep_view() == collect(self.enrollments.deep_view().take(i as int), f),
            decreases self.enrollments.len() - i,
        {
            proof {
                lemma_collect_step(self.enrollments.deep_view(), f, i as int);
            }
            if self.enrollments[i].course_id == course_id && (self.enrollments[i].status
                == EnrollmentStatus::Enrolled || self.enrollments[i].status
                == EnrollmentStatus::Completed)
            {
                match self.user_index(&self.enrollments[i].student_id) {
                    Some(k) => {
                        let ghost before = out;
                        let item = self.users[k].clone();
                        out.push(item);
                        proof {
                            lemma_deep_push(before, out, item);
                        }
                    },
                    None => {},
                }
            }
            i += 1;
        }
        proof {
            assert(self.enrollments.deep_view().take(i as int) =~= self.enrollments.deep_view());
        }
        out
    }

    /// The lessons that say they belong to the module, in the order in which they are stored.
    pub fn get_module_lessons(&self, module_id: u64) -> (r: Vec<Lesson>)
        ensures
            r.deep_view() == collect(self.deep_view().lessons, kept(lesson_in(module_id))),
    {
        let ghost f = kept(lesson_in(module_id));
        let mut out: Vec<Lesson> = Vec::new();
        let mut i: usize = 0;
        assert(out.deep_view() =~= Seq::empty());
        while i < self.lessons.len()
            invariant
                i <= self.lessons.len(),
                f == kept(lesson_in(module_id)),
                out.deep_view() == collect(self.lessons.deep_view().take(i as int), f),
            decreases self.lessons.len() - i,
        {
            proof {
                lemma_collect_step(self.lessons.deep_view(), f, i as int);
            }
            if self.lessons[i].module_id == module_id {
                let ghost before = out;
                let item = self.lessons[i].clone();
                out.push(item);
                proof {
                    lemma_deep_push(before, out, item);
                }
            }
            i += 1;
        }
        proof {
            assert(self.lessons.deep_view().take(i as int) =~= self.lessons.deep_view());
        }
        out
    }

    /// The courses with the status.
    pub fn courses_in(&self, status: CourseStatus) -> (r: Vec<Course>)
        ensures
            r.deep_view() == collect(self.deep_view().courses, kept(course_in(status))),
    {
        let ghost f = kept(course_in(status));
        let mut out: Vec<Course> = Vec::new();
        let mut i: usize = 0;
        assert(out.deep_view() =~= Seq::empty());
        while i < self.courses.len()
            invariant
                i <= self.courses.len(),
                f == kept(course_in(status)),
                out.deep_view() == collect(self.courses.deep_view().take(i as int), f),
            decreases self.courses.len() - i,
        {
            proof {
                lemma_collect_step(self.courses.deep_view(), f, i as int);
            }
            if self.courses[i].status == status {
                let ghost before = out;
                let item = self.courses[i].clone();
                out.push(item);
                proof {
                    lemma_deep_push(before, out, item);
                }
            }
            i += 1;
        }
        proof {
            assert(self.courses.deep_view().take(i as int) =~= self.courses.deep_view());
        }
        out
    }

    /// The published courses.
    pub fn get_published_courses(&self) -> (r: Vec<Course>)
        ensures
            r.deep_view() == collect(
                self.deep_view().courses,
                kept(course_in(CourseStatus::Published)),
            ),
    {
        self.courses_in(CourseStatus::Published)
    }

    /// The archived courses.
    pub fn get_archived_courses(&self) -> (r: Vec<Course>)
        ensures
            r.deep_view() == collect(
                self.deep_view().courses,
                kept(course_in(CourseStatus::Archived)),
            ),
    {
        self.courses_in(CourseStatus::Archived)
    }

    /// The courses of the mentor.
    pub fn get_user_created_courses(&self, account_id: String) -> (r: Vec<Course>)
        ensures
            r.deep_view() == collect(self.deep_view().courses, kept(course_by(account_id@))),
    {
        let ghost f = kept(course_by(account_id@));
        let mut out: Vec<Course> = Vec::new();
        let mut i: usize = 0;
        assert(out.deep_view() =~= Seq::empty());
        while i < self.courses.len()
            invariant
                i <= self.courses.len(),
                f == kept(course_by(account_id@)),
                out.deep_view() == collect(self.courses.deep_view().take(i as int), f),
            decreases self.courses.len() - i,
        {
            proof {
                lemma_collect_step(self.courses.deep_view(), f, i as int);
            }
            if self.courses[i].mentor_id == account_id {
                let ghost before = out;
                let item = self.courses[i].clone();
                out.push(item);
                proof {
                    lemma_deep_push(before, out, item);
                }
            }
            i += 1;
        }
        proof {
            assert(self.courses.deep_view().take(i as int) =~= self.courses.deep_view());
        }
        out
    }

    /// The courses of the mentor as listed for the mentor, each with a progress figure of
    /// zero.
    pub fn get_mentor_created_courses(&self, mentor_id: String) -> (r: Vec<CourseWithProgress>)
        ensures
            r.deep_view() == collect(self.deep_view().courses, listed_for(mentor_id@)),
    {
        let ghost f = listed_for(mentor_id@);
        let mut out: Vec<CourseWithProgress> = Vec::new();
        let mut i: usize = 0;
        assert(out.deep_view() =~= Seq::empty());
        while i < self.courses.len()
            invariant
                i <= self.courses.len(),
                f == listed_for(mentor_id@),
                out.deep_view() == collect(self.courses.deep_view().take(i as int), f),
            decreases self.courses.len() - i,
        {
            proof {
                lemma_collect_step(self.courses.deep_view(), f, i as int);
            }
            if self.courses[i].mentor_id == mentor_id {
                let ghost before = out;
                let c = self.courses[i].clone();
                let item = CourseWithProgress {
                    id: c.id,
                    title: c.title,
                    description: c.description,
                    level: c.level,
                    duration: c.duration,
                    status: c.status,
                    requirements: c.requirements,
                    objectives: c.objectives,
                    category: c.category,
                    picture: c.picture,
                    with_ai: c.with_ai,
                    price: c.price,
                    mentor_id: c.mentor_id,
                    modules_ids: c.modules_ids,
                    created_at: c.created_at,
                    updated_at: c.updated_at,
                    progress: 0,
                };
                out.push(item);
                proof {
                    lemma_deep_push(before, out, item);
                }
            }
            i += 1;
        }
        proof {
            assert(self.courses.deep_view().take(i as int) =~= self.courses.deep_view());
        }
        out
    }

    /// The quiz of the module, if it has one that the catalog has.
    pub fn get_module_quizz(&self, module: Module) -> (r: Option<Quizz>)
        ensures
            r.deep_view() == match module.quizz_id {
                Some(q) => self.deep_view().quizz(q),
                None => None,
            },
    {
        match module.quizz_id {
            Some(q) => self.get_quizz_by_id(q),
            None => None,
        }
    }
}

} // verus!
