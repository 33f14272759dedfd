use crate::models::{
    Course, CourseView, Enrollment, EnrollmentView, Lesson, LessonProgress, LessonProgressView,
    LessonView, Module, ModuleProgress, ModuleProgressView, ModuleView, Quizz, QuizzProgress,
    QuizzProgressView, QuizzView, User, UserView,
};
use crate::seqs::{first_from, first_where, found_at};
use vstd::prelude::*;

verus! {

/// The whole state of the platform: users, the catalog, enrollments and progress rows,
/// each collection in the order in which its records were stored, and the id counters.
///
/// A record is looked up by a linear scan for its key; where two records share a key,
/// the first one stored is the one that every operation reads and writes. The fields are
/// open, so an operation takes nothing about the state for granted: what it needs and
/// does not find is an [`Error::IntegrityViolation`](crate::error::Error). A platform
/// that starts from [`Contract::new`] and is changed by the operations alone stays
/// [`sound`](ContractView::sound).
pub struct Contract {
    pub owner_id: String,
    /// The one account allowed to use the administrative operations.
    pub admin_id: String,
    pub users: Vec<User>,
    pub courses: Vec<Course>,
    pub modules: Vec<Module>,
    pub lessons: Vec<Lesson>,
    pub quizzes: Vec<Quizz>,
    pub enrollments: Vec<Enrollment>,
    pub module_progresses: Vec<ModuleProgress>,
    pub lesson_progresses: Vec<LessonProgress>,
    pub quizz_progresses: Vec<QuizzProgress>,
    pub user_count: u64,
    pub course_count: u64,
    pub module_count: u64,
    pub lesson_count: u64,
    pub assignment_count: u64,
    pub enrollment_count: u64,
    pub module_progress_count: u64,
    pub lesson_progress_count: u64,
    pub quizz_progress_count: u64,
    pub quizz_count: u64,
    pub test_count: u64,
}

/// The mathematical value of a [`Contract`].
pub struct ContractView {
    pub owner_id: Seq<char>,
    pub admin_id: Seq<char>,
    pub users: Seq<UserView>,
    pub courses: Seq<CourseView>,
    pub modules: Seq<ModuleView>,
    pub lessons: Seq<LessonView>,
    pub quizzes: Seq<QuizzView>,
    pub enrollments: Seq<EnrollmentView>,
    pub module_progresses: Seq<ModuleProgressView>,
    pub lesson_progresses: Seq<LessonProgressView>,
    pub quizz_progresses: Seq<QuizzProgressView>,
    pub user_count: u64,
    pub course_count: u64,
    pub module_count: u64,
    pub lesson_count: u64,
    pub assignment_count: u64,
    pub enrollment_count: u64,
    pub module_progress_count: u64,
    pub lesson_progress_count: u64,
    pub quizz_progress_count: u64,
    pub quizz_count: u64,
    pub test_count: u64,
}

impl DeepView for Contract {
    type V = ContractView;

    open spec fn deep_view(&self) -> ContractView {
        ContractView {
            owner_id: self.owner_id@,
            admin_id: self.admin_id@,
            users: self.users.deep_view(),
            courses: self.courses.deep_view(),
            modules: self.modules.deep_view(),
            lessons: self.lessons.deep_view(),
            quizzes: self.quizzes.deep_view(),
            enrollments: self.enrollments.deep_view(),
            module_progresses: self.module_progresses.deep_view(),
            lesson_progresses: self.lesson_progresses.deep_view(),
            quizz_progresses: self.quizz_progresses.deep_view(),
            user_count: self.user_count,
            course_count: self.course_count,
            module_count: self.module_count,
            lesson_count: self.lesson_count,
            assignment_count: self.assignment_count,
            enrollment_count: self.enrollment_count,
            module_progress_count: self.module_progress_count,
            lesson_progress_count: self.lesson_progress_count,
            quizz_progress_count: self.quizz_progress_count,
            quizz_count: self.quizz_count,
            test_count: self.test_count,
        }
    }
}

/// Recognises the user with this account.
pub open spec fn user_is(account_id: Seq<char>) -> spec_fn(UserView) -> bool {
    |u: UserView| u.account_id == account_id
}

/// Recognises the course with this id.
pub open spec fn course_is(course_id: u64) -> spec_fn(CourseView) -> bool {
    |u: CourseView| u.id == course_id
}

/// Recognises the module with this id.
pub open spec fn module_is(module_id: u64) -> spec_fn(ModuleView) -> bool {
    |u: ModuleView| u.id == module_id
}

/// Recognises the lesson with this id.
pub open spec fn lesson_is(lesson_id: u64) -> spec_fn(LessonView) -> bool {
    |u: LessonView| u.id == lesson_id
}

/// Recognises the quiz with this id.
pub open spec fn quizz_is(quizz_id: u64) -> spec_fn(QuizzView) -> bool {
    |u: QuizzView| u.id == quizz_id
}

/// Recognises the enrollment of this student in this course.
pub open spec fn enrollment_is(course_id: u64, student_id: Seq<char>) -> spec_fn(EnrollmentView)
    -> bool {
    |u: EnrollmentView| u.course_id == course_id && u.student_id == student_id
}

/// Recognises the progress of this student in this module.
pub open spec fn module_progress_is(module_id: u64, student_id: Seq<char>) -> spec_fn(ModuleProgressView)
    -> bool {
    |u: ModuleProgressView| u.module_id == module_id && u.student_id == student_id
}

/// Recognises the progress of this student in this lesson.
pub open spec fn lesson_progress_is(lesson_id: u64, student_id: Seq<char>) -> spec_fn(LessonProgressView)
    -> bool {
    |u: LessonProgressView| u.lesson_id == lesson_id && u.student_id == student_id
}

/// Recognises the progress of this student in this quiz.
pub open spec fn quizz_progress_is(quizz_id: u64, student_id: Seq<char>) -> spec_fn(QuizzProgressView)
    -> bool {
    |u: QuizzProgressView| u.quizz_id == quizz_id && u.student_id == student_id
}

impl ContractView {
    /// Where the user with this account is stored, if anywhere.
    pub open spec fn user_pos(self, account_id: Seq<char>) -> Option<int> {
        first_where(self.users, user_is(account_id))
    }

    /// The user with this account, if there is one.
    pub open spec fn user(self, account_id: Seq<char>) -> Option<UserView> {
        match self.user_pos(account_id) {
            Some(i) => Some(self.users[i]),
            None => None,
        }
    }

    /// Where the course with this id is stored, if anywhere.
    pub open spec fn course_pos(self, course_id: u64) -> Option<int> {
        first_where(self.courses, course_is(course_id))
    }

    /// The course with this id, if there is one.
    pub open spec fn course(self, course_id: u64) -> Option<CourseView> {
        match self.course_pos(course_id) {
            Some(i) => Some(self.courses[i]),
            None => None,
        }
    }

    /// Where the module with this id is stored, if anywhere.
    pub open spec fn module_pos(self, module_id: u64) -> Option<int> {
        first_where(self.modules, module_is(module_id))
    }

    /// The module with this id, if there is one.
    pub open spec fn module(self, module_id: u64) -> Option<ModuleView> {
        match self.module_pos(module_id) {
            Some(i) => Some(self.modules[i]),
            None => None,
        }
    }

    /// Where the lesson with this id is stored, if anywhere.
    pub open spec fn lesson_pos(self, lesson_id: u64) -> Option<int> {
        first_where(self.lessons, lesson_is(lesson_id))
    }

    /// The lesson with this id, if there is one.
    pub open spec fn lesson(self, lesson_id: u64) -> Option<LessonView> {
        match self.lesson_pos(lesson_id) {
            Some(i) => Some(self.lessons[i]),
            None => None,
        }
    }

    /// Where the quiz with this id is stored, if anywhere.
    pub open spec fn quizz_pos(self, quizz_id: u64) -> Option<int> {
        first_where(self.quizzes, quizz_is(quizz_id))
    }

    /// The quiz with this id, if there is one.
    pub open spec fn quizz(self, quizz_id: u64) -> Option<QuizzView> {
        match self.quizz_pos(quizz_id) {
            Some(i) => Some(self.quizzes[i]),
            None => None,
        }
    }

    /// Where the enrollment of this student in this course is stored, if anywhere.
    pub open spec fn enrollment_pos(self, course_id: u64, student_id: Seq<char>) -> Option<int> {
        first_where(self.enrollments, enrollment_is(course_id, student_id))
    }

    /// The enrollment of this student in this course, if there is one.
    pub open spec fn enrollment(self, course_id: u64, student_id: Seq<char>)
        -> Option<EnrollmentView> {
        match self.enrollment_pos(course_id, student_id) {
            Some(i) => Some(self.enrollments[i]),
            None => None,
        }
    }

    /// Where the progress of this student in this module is stored, if anywhere.
    pub open spec fn module_progress_pos(self, module_id: u64, student_id: Seq<char>)
        -> Option<int> {
        first_where(self.module_progresses, module_progress_is(module_id, student_id))
    }

    /// The progress of this student in this module, if there is one.
    pub open spec fn module_progress(self, module_id: u64, student_id: Seq<char>)
        -> Option<ModuleProgressView> {
        match self.module_progress_pos(module_id, student_id) {
            Some(i) => Some(self.module_progresses[i]),
            None => None,
        }
    }

    /// Where the progress of this student in this lesson is stored, if anywhere.
    pub open spec fn lesson_progress_pos(self, lesson_id: u64, student_id: Seq<char>)
        -> Option<int> {
        first_where(self.lesson_progresses, lesson_progress_is(lesson_id, student_id))
    }

    /// The progress of this student in this lesson, if there is one.
    pub open spec fn lesson_progress(self, lesson_id: u64, student_id: Seq<char>)
        -> Option<LessonProgressView> {
        match self.lesson_progress_pos(lesson_id, student_id) {
            Some(i) => Some(self.lesson_progresses[i]),
            None => None,
        }
    }

    /// Where the progress of this student in this quiz is stored, if anywhere.
    pub open spec fn quizz_progress_pos(self, quizz_id: u64, student_id: Seq<char>) -> Option<int> {
        first_where(self.quizz_progresses, quizz_progress_is(quizz_id, student_id))
    }

    /// The progress of this student in this quiz, if there is one.
    pub open spec fn quizz_progress(self, quizz_id: u64, student_id: Seq<char>)
        -> Option<QuizzProgressView> {
        match self.quizz_progress_pos(quizz_id, student_id) {
            Some(i) => Some(self.quizz_progresses[i]),
            None => None,
        }
    }

    /// The state after a module is stored and listed at the end of its course.
    pub open spec fn with_module(self, module: ModuleView) -> ContractView {
        let c = self.course_pos(module.course_id).unwrap();
        ContractView {
            modules: self.modules.push(module),
            courses: self.courses.update(
                c,
                CourseView {
                    modules_ids: self.courses[c].modules_ids.push(module.id),
                    ..self.courses[c]
                },
            ),
            module_count: (self.module_count + 1) as u64,
            ..self
        }
    }

    /// The state after a lesson is stored and listed at the end of its module.
    pub open spec fn with_lesson(self, lesson: LessonView) -> ContractView {
        let m = self.module_pos(lesson.module_id).unwrap();
        ContractView {
            lessons: self.lessons.push(lesson),
            modules: self.modules.update(
                m,
                ModuleView {
                    lessons_ids: self.modules[m].lessons_ids.push(lesson.id),
                    ..self.modules[m]
                },
            ),
            lesson_count: (self.lesson_count + 1) as u64,
            ..self
        }
    }
}

impl Contract {
    /// An empty platform owned by `owner_id`, with `admin_id` as its administrator.
    pub fn new(owner_id: String, admin_id: String) -> (r: Self)
        ensures
            r.deep_view() == (ContractView {
                owner_id: owner_id@,
                admin_id: admin_id@,
                users: Seq::empty(),
                courses: Seq::empty(),
                modules: Seq::empty(),
                lessons: Seq::empty(),
                quizzes: Seq::empty(),
                enrollments: Seq::empty(),
                module_progresses: Seq::empty(),
                lesson_progresses: Seq::empty(),
                quizz_progresses: Seq::empty(),
                user_count: 0,
                course_count: 0,
                module_count: 0,
                lesson_count: 0,
                assignment_count: 0,
                enrollment_count: 0,
                module_progress_count: 0,
                lesson_progress_count: 0,
                quizz_progress_count: 0,
                quizz_count: 0,
                test_count: 0,
            }),
            r.deep_view().sound(),
    {
        let r = Contract {
            owner_id,
            admin_id,
            users: Vec::new(),
            courses: Vec::new(),
            modules: Vec::new(),
            lessons: Vec::new(),
            quizzes: Vec::new(),
            enrollments: Vec::new(),
            module_progresses: Vec::new(),
            lesson_progresses: Vec::new(),
            quizz_progresses: Vec::new(),
            user_count: 0,
            course_count: 0,
            module_count: 0,
            lesson_count: 0,
            assignment_count: 0,
            enrollment_count: 0,
            module_progress_count: 0,
            lesson_progress_count: 0,
            quizz_progress_count: 0,
            quizz_count: 0,
            test_count: 0,
        };
        proof {
            assert(r.users.deep_view() =~= Seq::empty());
            assert(r.courses.deep_view() =~= Seq::empty());
            assert(r.modules.deep_view() =~= Seq::empty());
            assert(r.lessons.deep_view() =~= Seq::empty());
            assert(r.quizzes.deep_view() =~= Seq::empty());
            assert(r.enrollments.deep_view() =~= Seq::empty());
            assert(r.module_progresses.deep_view() =~= Seq::empty());
            assert(r.lesson_progresses.deep_view() =~= Seq::empty());
            assert(r.quizz_progresses.deep_view() =~= Seq::empty());
        }
        r
    }

    /// The position of the user with this account.
    pub fn user_index(&self, account_id: &String) -> (r: Option<usize>)
        ensures
            found_at(r, self.deep_view().user_pos(account_id@)),
            r is Some ==> r.unwrap() < self.users.len(),
    {
        let mut i: usize = 0;
        while i < self.users.len()
            invariant
                i <= self.users.len(),
                first_from(
                    self.users.deep_view(),
                    user_is(account_id@),
                    i as int,
                ) == first_where(
                    self.users.deep_view(),
                    user_is(account_id@),
                ),
            decreases self.users.len() - i,
        {
            if self.users[i].account_id == *account_id {
                return Some(i);
            }
            i += 1;
        }
        None
    }

    /// The position of the course with this id.
    pub fn course_index(&self, course_id: u64) -> (r: Option<usize>)
        ensures
            found_at(r, self.deep_view().course_pos(course_id)),
            r is Some ==> r.unwrap() < self.courses.len(),
    {
        let mut i: usize = 0;
        while i < self.courses.len()
            invariant
                i <= self.courses.len(),
                first_from(
                    self.courses.deep_view(),
                    course_is(course_id),
                    i as int,
                ) == first_where(
                    self.courses.deep_view(),
                    course_is(course_id),
                ),
            decreases self.courses.len() - i,
        {
            if self.courses[i].id == course_id {
                return Some(i);
            }
            i += 1;
        }
        None
    }

    /// The position of the module with this id.
    pub fn module_index(&self, module_id: u64) -> (r: Option<usize>)
        ensures
            found_at(r, self.deep_view().module_pos(module_id)),
            r is Some ==> r.unwrap() < self.modules.len(),
    {
        let mut i: usize = 0;
        while i < self.modules.len()
            invariant
                i <= self.modules.len(),
                first_from(
                    self.modules.deep_view(),
                    module_is(module_id),
                    i as int,
                ) == first_where(
                    self.modules.deep_view(),
                    module_is(module_id),
                ),
            decreases self.modules.len() - i,
        {
            if self.modules[i].id == module_id {
                return Some(i);
            }
            i += 1;
        }
        None
    }

    /// The position of the lesson with this id.
    pub fn lesson_index(&self, lesson_id: u64) -> (r: Option<usize>)
        ensures
            found_at(r, self.deep_view().lesson_pos(lesson_id)),
            r is Some ==> r.unwrap() < self.lessons.len(),
    {
        let mut i: usize = 0;
        while i < self.lessons.len()
            invariant
                i <= self.lessons.len(),
                first_from(
                    self.lessons.deep_view(),
                    lesson_is(lesson_id),
                    i as int,
                ) == first_where(
                    self.lessons.deep_view(),
                    lesson_is(lesson_id),
                ),
            decreases self.lessons.len() - i,
        {
            if self.lessons[i].id == lesson_id {
                return Some(i);
            }
            i += 1;
        }
        None
    }

    /// The position of the quiz with this id.
    pub fn quizz_index(&self, quizz_id: u64) -> (r: Option<usize>)
        ensures
            found_at(r, self.deep_view().quizz_pos(quizz_id)),
            r is Some ==> r.unwrap() < self.quizzes.len(),
    {
        let mut i: usize = 0;
        while i < self.quizzes.len()
            invariant
                i <= self.quizzes.len(),
                first_from(
                    self.quizzes.deep_view(),
                    quizz_is(quizz_id),
                    i as int,
                ) == first_where(
                    self.quizzes.deep_view(),
                    quizz_is(quizz_id),
                ),
            decreases self.quizzes.len() - i,
        {
            if self.quizzes[i].id == quizz_id {
                return Some(i);
            }
            i += 1;
        }
        None
    }

    /// The position of the enrollment of this student in this course.
    pub fn enrollment_index(&self, course_id: u64, student_id: &String) -> (r: Option<usize>)
        ensures
            found_at(r, self.deep_view().enrollment_pos(course_id, student_id@)),
            r is Some ==> r.unwrap() < self.enrollments.len(),
    {
        let mut i: usize = 0;
        while i < self.enrollments.len()
            invariant
                i <= self.enrollments.len(),
                first_from(
                    self.enrollments.deep_view(),
                    enrollment_is(course_id, student_id@),
                    i as int,
                ) == first_where(
                    self.enrollments.deep_view(),
                    enrollment_is(course_id, student_id@),
                ),
            decreases self.enrollments.len() - i,
        {
            if self.enrollments[i].course_id == course_id
                && self.enrollments[i].student_id == *student_id
            {
                return Some(i);
            }
            i += 1;
        }
        None
    }

    /// The position of the progress of this student in this module.
    pub fn module_progress_index(&self, module_id: u64, student_id: &String) -> (r: Option<usize>)
        ensures
            found_at(r, self.deep_view().module_progress_pos(module_id, student_id@)),
            r is Some ==> r.unwrap() < self.module_progresses.len(),
    {
        let mut i: usize = 0;
        while i < self.module_progresses.len()
            invariant
                i <= self.module_progresses.len(),
                first_from(
                    self.module_progresses.deep_view(),
                    module_progress_is(module_id, student_id@),
                    i as int,
                ) == first_where(
                    self.module_progresses.deep_view(),
                    module_progress_is(module_id, student_id@),
                ),
            decreases self.module_progresses.len() - i,
        {
            if self.module_progresses[i].module_id == module_id
                && self.module_progresses[i].student_id == *student_id
            {
                return Some(i);
            }
            i += 1;
        }
        None
    }

    /// The position of the progress of this student in this lesson.
    pub fn lesson_progress_index(&self, lesson_id: u64, student_id: &String) -> (r: Option<usize>)
        ensures
            found_at(r, self.deep_view().lesson_progress_pos(lesson_id, student_id@)),
            r is Some ==> r.unwrap() < self.lesson_progresses.len(),
    {
        let mut i: usize = 0;
        while i < self.lesson_progresses.len()
            invariant
                i <= self.lesson_progresses.len(),
                first_from(
                    self.lesson_progresses.deep_view(),
                    lesson_progress_is(lesson_id, student_id@),
                    i as int,
                ) == first_where(
                    self.lesson_progresses.deep_view(),
                    lesson_progress_is(lesson_id, student_id@),
                ),
            decreases self.lesson_progresses.len() - i,
        {
            if self.lesson_progresses[i].lesson_id == lesson_id
                && self.lesson_progresses[i].student_id == *student_id
            {
                return Some(i);
            }
            i += 1;
        }
        None
    }

    /// The position of the progress of this student in this quiz.
    pub fn quizz_progress_index(&self, quizz_id: u64, student_id: &String) -> (r: Option<usize>)
        ensures
            found_at(r, self.deep_view().quizz_progress_pos(quizz_id, student_id@)),
            r is Some ==> r.unwrap() < self.quizz_progresses.len(),
    {
        let mut i: usize = 0;
        while i < self.quizz_progresses.len()
            invariant
                i <= self.quizz_progresses.len(),
                first_from(
                    self.quizz_progresses.deep_view(),
                    quizz_progress_is(quizz_id, student_id@),
                    i as int,
                ) == first_where(
                    self.quizz_progresses.deep_view(),
                    quizz_progress_is(quizz_id, student_id@),
                ),
            decreases self.quizz_progresses.len() - i,
        {
            if self.quizz_progresses[i].quizz_id == quizz_id
                && self.quizz_progresses[i].student_id == *student_id
            {
                return Some(i);
            }
            i += 1;
        }
        None
    }

}

} // verus!
