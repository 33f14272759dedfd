use crate::contract::{Contract, ContractView};
use crate::error::Error;
use crate::getters::{course_behind, course_by, enrollment_among, kept};
use crate::models::{
    Course, CourseView, FullCourse, FullCourseView, FullEnrollment, FullEnrollmentView, FullLesson,
    FullLessonProgress, FullLessonProgressView, FullLessonView, FullModule, FullModuleProgress,
    FullModuleProgressView, FullModuleView, FullQuizzProgress, FullQuizzProgressView, LessonView,
    User, UserView,
};
use crate::seqs::{collect, first_from, first_where, lemma_collect_step, lemma_deep_push};
use vstd::prelude::*;

verus! {

/// A lesson as shown inside a module view.
pub open spec fn full_lesson(l: LessonView) -> FullLessonView {
    FullLessonView {
        id: l.id,
        title: l.title,
        description: l.description,
        video_url: l.video_url,
        article: l.article,
        order: l.order,
        with_ai: l.with_ai,
        created_at: l.created_at,
        updated_at: l.updated_at,
    }
}

/// The view of the lesson that an id names, if any.
pub open spec fn full_lesson_named(st: ContractView) -> spec_fn(u64) -> Option<FullLessonView> {
    |lesson_id: u64|
        match st.lesson(lesson_id) {
            Some(l) => Some(full_lesson(l)),
            None => None,
        }
}

/// The view of the module that an id names, if any.
pub open spec fn full_module_named(st: ContractView) -> spec_fn(u64) -> Option<FullModuleView> {
    |module_id: u64| st.full_module(module_id)
}

/// Recognises a course that cannot be shown in full.
pub open spec fn course_unviewable(st: ContractView) -> spec_fn(CourseView) -> bool {
    |c: CourseView| st.full_course(c.id) is Err
}

/// Whether `r` is the full view of the courses: all of them in order, or the error of the
/// first one that cannot be shown.
pub open spec fn is_full_view_of(
    st: ContractView,
    courses: Seq<CourseView>,
    r: Result<Seq<FullCourseView>, Error>,
) -> bool {
    match r {
        Ok(v) => {
            &&& first_where(courses, course_unviewable(st)) is None
            &&& v.len() == courses.len()
            &&& forall|k: int|
                0 <= k < courses.len() ==> Ok::<FullCourseView, Error>(#[trigger] v[k])
                    == st.full_course(courses[k].id)
        },
        Err(e) => match first_where(courses, course_unviewable(st)) {
            Some(k) => st.full_course(courses[k].id) == Err::<FullCourseView, Error>(e),
            None => false,
        },
    }
}

impl ContractView {
    /// A module with its lessons and quiz resolved. Lessons that the catalog lacks are
    /// left out.
    pub open spec fn full_module(self, module_id: u64) -> Option<FullModuleView> {
        match self.module(module_id) {
            Some(m) => Some(
                FullModuleView {
                    id: m.id,
                    title: m.title,
                    description: m.description,
                    status: m.status,
                    order: m.order,
                    with_ai: m.with_ai,
                    created_at: m.created_at,
                    updated_at: m.updated_at,
                    lessons: collect(m.lessons_ids, full_lesson_named(self)),
                    quizz: match m.quizz_id {
                        Some(q) => self.quizz(q),
                        None => None,
                    },
                },
            ),
            None => None,
        }
    }

    /// A course with its mentor and modules resolved. Modules that the catalog lacks are
    /// left out; a mentor who is not a user is an integrity violation.
    pub open spec fn full_course(self, course_id: u64) -> Result<FullCourseView, Error> {
        match self.course(course_id) {
            None => Err(Error::NotFound),
            Some(c) => match self.user(c.mentor_id) {
                None => Err(Error::IntegrityViolation),
                Some(mentor) => Ok(
                    FullCourseView {
                        id: c.id,
                        title: c.title,
                        description: c.description,
                        level: c.level,
                        duration: c.duration,
                        status: c.status,
                        requirements: c.requirements,
                        objectives: c.objectives,
                        category: c.category,
                        picture: c.picture,
                        with_ai: c.with_ai,
                        price: c.price,
                        mentor,
                        modules: collect(c.modules_ids, full_module_named(self)),
                        created_at: c.created_at,
                        updated_at: c.updated_at,
                    },
                ),
            },
        }
    }

    /// A quiz joined with the student's progress in it, where the progress row, the quiz
    /// and the student all exist.
    pub open spec fn full_quizz_progress(self, quizz_id: u64, student_id: Seq<char>) -> Option<
        FullQuizzProgressView,
    > {
        match (
            self.quizz_progress(quizz_id, student_id),
            self.quizz(quizz_id),
            self.user(student_id),
        ) {
            (Some(p), Some(quizz), Some(student)) => Some(
                FullQuizzProgressView {
                    id: p.id,
                    quizz,
                    student,
                    status: p.status,
                    try_count: p.try_count,
                    is_enrolled: p.is_enrolled,
                    is_submitted: p.is_submitted,
                    is_correct: p.is_correct,
                    completed_at: p.completed_at,
                },
            ),
            _ => None,
        }
    }

    /// A lesson joined with the student's progress in it, where the progress row exists.
    pub open spec fn full_lesson_progress(self, lesson: FullLessonView, student: UserView)
        -> Option<FullLessonProgressView> {
        match self.lesson_progress(lesson.id, student.account_id) {
            Some(p) => Some(
                FullLessonProgressView {
                    id: lesson.id,
                    lesson,
                    student,
                    status: p.status,
                    is_enrolled: p.is_enrolled,
                    completed_at: p.completed_at,
                },
            ),
            None => None,
        }
    }

    /// Every lesson of the list has a progress row of the student.
    pub open spec fn lessons_tracked(self, lessons: Seq<FullLessonView>, student: UserView) -> bool {
        forall|j: int|
            0 <= j < lessons.len() ==> self.full_lesson_progress(#[trigger] lessons[j], student)
                is Some
    }

    /// A module joined with the student's progress in it, in its lessons and in its quiz,
    /// where none of those progress rows is missing.
    pub open spec fn full_module_progress(self, module: FullModuleView, student: UserView)
        -> Option<FullModuleProgressView> {
        match self.module_progress(module.id, student.account_id) {
            None => None,
            Some(p) => {
                let quizz = match module.quizz {
                    Some(q) => self.full_quizz_progress(q.id, student.account_id),
                    None => None,
                };
                if self.lessons_tracked(module.lessons, student) && (module.quizz is Some
                    ==> quizz is Some) {
                    Some(
                        FullModuleProgressView {
                            id: p.id,
                            module,
                            student,
                            lessons: Seq::new(
                                module.lessons.len(),
                                |j: int|
                                    self.full_lesson_progress(module.lessons[j], student).unwrap(),
                            ),
                            status: p.status,
                            is_enrolled: p.is_enrolled,
                            progress: p.progress,
                            quizz,
                            completed_at: p.completed_at,
                        },
                    )
                } else {
                    None
                }
            },
        }
    }

    /// Every module of the list has all the progress rows of the student that its view
    /// needs.
    pub open spec fn modules_tracked(self, modules: Seq<FullModuleView>, student: UserView) -> bool {
        forall|k: int|
            0 <= k < modules.len() ==> self.full_module_progress(#[trigger] modules[k], student)
                is Some
    }

    /// The enrollment of a student in a course with the course, the student and the
    /// per-module progress resolved. A progress row that the view needs and that is
    /// missing is an integrity violation.
    pub open spec fn full_enrollment(self, course_id: u64, student_id: Seq<char>) -> Result<
        FullEnrollmentView,
        Error,
    > {
        match (
            self.enrollment(course_id, student_id),
            self.course(course_id),
            self.user(student_id),
        ) {
            (Some(e), Some(course), Some(student)) => {
                let modules = collect(course.modules_ids, full_module_named(self));
                if !self.modules_tracked(modules, student) {
                    Err(Error::IntegrityViolation)
                } else {
                    Ok(
                        FullEnrollmentView {
                            id: e.id,
                            course,
                            student,
                            modules: Seq::new(
                                modules.len(),
                                |k: int| self.full_module_progress(modules[k], student).unwrap(),
                            ),
                            status: e.status,
                            progress: e.progress,
                            carted_at: e.carted_at,
                            enrolled_at: e.enrolled_at,
                            completed_at: e.completed_at,
                            course_review: e.course_review,
                            updated_at: e.updated_at,
                        },
                    )
                }
            },
            _ => Err(Error::NotFound),
        }
    }
}

impl Contract {
    /// The views of the lessons of the list that the catalog has.
    pub fn full_lessons_of(&self, lessons: &Vec<u64>) -> (r: Vec<FullLesson>)
        ensures
            r.deep_view() == collect(lessons@, full_lesson_named(self.deep_view())),
    {
        let ghost f = full_lesson_named(self.deep_view());
        let mut out: Vec<FullLesson> = Vec::new();
        let mut i: usize = 0;
        assert(out.deep_view() =~= Seq::empty());
        while i < lessons.len()
            invariant
                i <= lessons.len(),
                f == full_lesson_named(self.deep_view()),
                out.deep_view() == collect(lessons@.take(i as int), f),
            decreases lessons.len() - i,
        {
            proof {
                lemma_collect_step(lessons@, f, i as int);
            }
            match self.lesson_index(lessons[i]) {
                Some(l) => {
                    let ghost before = out;
                    let lesson = &self.lessons[l];
                    let item = FullLesson {
                        id: lesson.id,
                        title: lesson.title.clone(),
                        description: lesson.description.clone(),
                        video_url: lesson.video_url.clone(),
                        article: lesson.article.clone(),
                        order: lesson.order,
                        with_ai: lesson.with_ai,
                        created_at: lesson.created_at,
                        updated_at: lesson.updated_at,
                    };
                    out.push(item);
                    proof {
                        lemma_deep_push(before, out, item);
                    }
                },
                None => {},
            }
            i += 1;
        }
        proof {
            assert(lessons@.take(i as int) =~= lessons@);
        }
        out
    }

    /// A module with its lessons and quiz resolved.
    pub fn get_full_module_by_id(&self, module_id: u64) -> (r: Option<FullModule>)
        ensures
            r.deep_view() == self.deep_view().full_module(module_id),
    {
        let m = match self.module_index(module_id) {
            Some(m) => m,
            None => {
                return None;
            },
        };
        let module = &self.modules[m];
        let lessons = self.full_lessons_of(&module.lessons_ids);
        let quizz = match module.quizz_id {
            Some(q) => self.get_quizz_by_id(q),
            None => None,
        };
        Some(
            FullModule {
                id: module.id,
                title: module.title.clone(),
                description: module.description.clone(),
                status: module.status.clone(),
                order: module.order,
                with_ai: module.with_ai,
                created_at: module.created_at,
                updated_at: module.updated_at,
                lessons,
                quizz,
            },
        )
    }

    /// The views of the modules of the list that the catalog has.
    pub fn full_modules_of(&self, modules: &Vec<u64>) -> (r: Vec<FullModule>)
        ensures
            r.deep_view() == collect(modules@, full_module_named(self.deep_view())),
    {
        let ghost f = full_module_named(self.deep_view());
        let mut out: Vec<FullModule> = Vec::new();
        let mut i: usize = 0;
        assert(out.deep_view() =~= Seq::empty());
        while i < modules.len()
            invariant
                i <= modules.len(),
                f == full_module_named(self.deep_view()),
                out.deep_view() == collect(modules@.take(i as int), f),
            decreases modules.len() - i,
        {
            proof {
                lemma_collect_step(modules@, f, i as int);
            }
            match self.get_full_module_by_id(modules[i]) {
                Some(item) => {
                    let ghost before = out;
                    out.push(item);
                    proof {
                        lemma_deep_push(before, out, item);
                    }
                },
                None => {},
            }
            i += 1;
        }
        proof {
            assert(modules@.take(i as int) =~= modules@);
        }
        out
    }

    /// A course with its mentor and modules resolved.
    pub fn get_full_course(&self, course_id: u64) -> (r: Result<FullCourse, Error>)
        ensures
            match r {
                Ok(c) => self.deep_view().full_course(course_id) == Ok::<FullCourseView, Error>(
                    c.deep_view(),
                ),
                Err(e) => self.deep_view().full_course(course_id) == Err::<FullCourseView, Error>(
                    e,
                ),
            },
    {
        let c = match self.course_index(course_id) {
            Some(c) => c,
            None => {
                return Err(Error::NotFound);
            },
        };
        let course = self.courses[c].clone();
        let mentor = match self.user_index(&course.mentor_id) {
            Some(u) => self.users[u].clone(),
            None => {
                return Err(Error::IntegrityViolation);
            },
        };
        let modules = self.full_modules_of(&course.modules_ids);
        Ok(
            FullCourse {
                id: course.id,
                title: course.title,
                description: course.description,
                level: course.level,
                duration: course.duration,
                status: course.status,
                requirements: course.requirements,
                objectives: course.objectives,
                category: course.category,
                picture: course.picture,
                with_ai: course.with_ai,
                price: course.price,
                mentor,
                modules,
                created_at: course.created_at,
                updated_at: course.updated_at,
            },
        )
    }

    /// The full views of the courses, in order.
    pub fn full_courses_of(&self, courses: &Vec<Course>) -> (r: Result<Vec<FullCourse>, Error>)
        ensures
            is_full_view_of(
                self.deep_view(),
                courses.deep_view(),
                match r {
                    Ok(v) => Ok(v.deep_view()),
                    Err(e) => Err(e),
                },
            ),
    {
        let ghost p = course_unviewable(self.deep_view());
        let mut out: Vec<FullCourse> = Vec::new();
        let mut i: usize = 0;
        while i < courses.len()
            invariant
                i <= courses.len(),
                out.len() == i,
                p == course_unviewable(self.deep_view()),
                first_from(courses.deep_view(), p, i as int) == first_where(courses.deep_view(), p),
                forall|k: int|
                    0 <= k < i ==> Ok::<FullCourseView, Error>((#[trigger] out[k]).deep_view())
                        == self.deep_view().full_course(courses[k].id),
            decreases courses.len() - i,
        {
            match self.get_full_course(courses[i].id) {
                Ok(full) => {
                    out.push(full);
                },
                Err(e) => {
                    return Err(e);
                },
            }
            i += 1;
        }
        Ok(out)
    }

    /// Every course in full.
    pub fn get_full_courses(&self) -> (r: Result<Vec<FullCourse>, Error>)
        ensures
            is_full_view_of(
                self.deep_view(),
                self.deep_view().courses,
                match r {
                    Ok(v) => Ok(v.deep_view()),
                    Err(e) => Err(e),
                },
            ),
    {
        let courses = self.get_courses();
        self.full_courses_of(&courses)
    }

    /// The courses that the account is enrolled in or has completed, in full.
    pub fn get_user_enrolled_full_courses(&self, account_id: String) -> (r: Result<
        Vec<FullCourse>,
        Error,
    >)
        ensures
            is_full_view_of(
                self.deep_view(),
                collect(
                    self.deep_view().enrollments,
                    course_behind(
                        self.deep_view(),
                        enrollment_among(account_id@, false, true, true),
                    ),
                ),
                match r {
                    Ok(v) => Ok(v.deep_view()),
                    Err(e) => Err(e),
                },
            ),
    {
        let courses = self.get_user_enrolled_courses(account_id);
        self.full_courses_of(&courses)
    }

    /// The courses that the account has completed, in full.
    pub fn get_user_completed_full_courses(&self, account_id: String) -> (r: Result<
        Vec<FullCourse>,
        Error,
    >)
        ensures
            is_full_view_of(
                self.deep_view(),
                collect(
                    self.deep_view().enrollments,
                    course_behind(
                        self.deep_view(),
                        enrollment_among(account_id@, false, false, true),
                    ),
                ),
                match r {
                    Ok(v) => Ok(v.deep_view()),
                    Err(e) => Err(e),
                },
            ),
    {
        let courses = self.get_user_completed_courses(account_id);
        self.full_courses_of(&courses)
    }

    /// The courses of the mentor, in full.
    pub fn get_user_created_full_courses(&self, account_id: String) -> (r: Result<
        Vec<FullCourse>,
        Error,
    >)
        ensures
            is_full_view_of(
                self.deep_view(),
                collect(self.deep_view().courses, kept(course_by(account_id@))),
                match r {
                    Ok(v) => Ok(v.deep_view()),
                    Err(e) => Err(e),
                },
            ),
    {
        let courses = self.get_user_created_courses(account_id);
        self.full_courses_of(&courses)
    }

    /// A quiz joined with the student's progress in it.
    pub fn get_full_quizz_progress(&self, quizz_id: u64, student_id: String) -> (r: Option<
        FullQuizzProgress,
    >)
        ensures
            r.deep_view() == self.deep_view().full_quizz_progress(quizz_id, student_id@),
    {
        let p = match self.quizz_progress_index(quizz_id, &student_id) {
            Some(p) => p,
            None => {
                return None;
            },
        };
        let q = match self.quizz_index(quizz_id) {
            Some(q) => q,
            None => {
                return None;
            },
        };
        let u = match self.user_index(&student_id) {
            Some(u) => u,
            None => {
                return None;
            },
        };
        let row = &self.quizz_progresses[p];
        Some(
            FullQuizzProgress {
                id: row.id,
                quizz: self.quizzes[q].clone(),
                student: self.users[u].clone(),
                status: row.status,
                try_count: row.try_count,
                is_enrolled: row.is_enrolled,
                is_submitted: row.is_submitted,
                is_correct: row.is_correct,
                completed_at: row.completed_at,
            },
        )
    }

    /// The lessons joined with the student's progress in each, or nothing where a progress
    /// row is missing.
    pub fn full_lesson_progresses(&self, lessons: &Vec<FullLesson>, student: &User) -> (r: Option<
        Vec<FullLessonProgress>,
    >)
        ensures
            match r {
                Some(v) => {
                    &&& self.deep_view().lessons_tracked(lessons.deep_view(), student.deep_view())
                    &&& v.deep_view() == Seq::new(
                        lessons.deep_view().len(),
                        |j: int|
                            self.deep_view().full_lesson_progress(
                                lessons.deep_view()[j],
                                student.deep_view(),
                            ).unwrap(),
                    )
                },
                None => !self.deep_view().lessons_tracked(
                    lessons.deep_view(),
                    student.deep_view(),
                ),
            },
    {
        let mut out: Vec<FullLessonProgress> = Vec::new();
        let mut i: usize = 0;
        while i < lessons.len()
            invariant
                i <= lessons.len(),
                out.len() == i,
                forall|j: int|
                    0 <= j < i ==> Some((#[trigger] out[j]).deep_view())
                        == self.deep_view().full_lesson_progress(
                        lessons.deep_view()[j],
                        student.deep_view(),
                    ),
            decreases lessons.len() - i,
        {
            match self.lesson_progress_index(lessons[i].id, &student.account_id) {
                Some(p) => {
                    let row = &self.lesson_progresses[p];
                    out.push(
                        FullLessonProgress {
                            id: lessons[i].id,
                            lesson: lessons[i].clone(),
                            student: student.clone(),
                            status: row.status,
                            is_enrolled: row.is_enrolled,
                            completed_at: row.completed_at,
                        },
                    );
                },
                None => {
                    assert(self.deep_view().full_lesson_progress(
                        lessons.deep_view()[i as int],
                        student.deep_view(),
                    ) is None);
                    return None;
                },
            }
            i += 1;
        }
        proof {
            assert forall|j: int| 0 <= j < lessons.deep_view().len() implies self.deep_view().full_lesson_progress(
                #[trigger] lessons.deep_view()[j],
                student.deep_view(),
            ) is Some by {
                assert(Some(out[j].deep_view()) == self.deep_view().full_lesson_progress(
                    lessons.deep_view()[j],
                    student.deep_view(),
                ));
            }
            assert(out.deep_view() =~= Seq::new(
                lessons.deep_view().len(),
                |j: int|
                    self.deep_view().full_lesson_progress(
                        lessons.deep_view()[j],
                        student.deep_view(),
                    ).unwrap(),
            ));
        }
        Some(out)
    }

    /// A module joined with the student's progress in it, in its lessons and in its quiz,
    /// or nothing where one of those progress rows is missing.
    pub fn full_module_progress(&self, module: FullModule, student: &User) -> (r: Option<
        FullModuleProgress,
    >)
        ensures
            r.deep_view() == self.deep_view().full_module_progress(
                module.deep_view(),
                student.deep_view(),
            ),
    {
        let p = match self.module_progress_index(module.id, &student.account_id) {
            Some(p) => p,
            None => {
                return None;
            },
        };
        let quizz = match &module.quizz {
            Some(q) => {
                match self.get_full_quizz_progress(q.id, student.account_id.clone()) {
                    Some(full) => Some(full),
                    None => {
                        return None;
                    },
                }
            },
            None => None,
        };
        let lessons = match self.full_lesson_progresses(&module.lessons, student) {
            Some(lessons) => lessons,
            None => {
                return None;
            },
        };
        let row = &self.module_progresses[p];
        Some(
            FullModuleProgress {
                id: row.id,
                module,
                student: student.clone(),
                lessons,
                status: row.status,
                is_enrolled: row.is_enrolled,
                progress: row.progress,
                quizz,
                completed_at: row.completed_at,
            },
        )
    }

    /// The enrollment of a student in a course with the course, the student and the
    /// per-module progress resolved.
    #[verifier::loop_isolation(false)]
    pub fn get_student_enrolled_course(&self, course_id: u64, student_id: String) -> (r: Result<
        FullEnrollment,
        Error,
    >)
        ensures
            match r {
                Ok(v) => self.deep_view().full_enrollment(course_id, student_id@) == Ok::<
                    FullEnrollmentView,
                    Error,
                >(v.deep_view()),
                Err(e) => self.deep_view().full_enrollment(course_id, student_id@) == Err::<
                    FullEnrollmentView,
                    Error,
                >(e),
            },
    {
        let e = match self.enrollment_index(course_id, &student_id) {
            Some(e) => e,
            None => {
                return Err(Error::NotFound);
            },
        };
        let course = match self.get_course_by_id(course_id) {
            Some(course) => course,
            None => {
                return Err(Error::NotFound);
            },
        };
        let student = match self.get_user_by_id(student_id) {
            Some(student) => student,
            None => {
                return Err(Error::NotFound);
            },
        };
        let modules = self.full_modules_of(&course.modules_ids);
        let mut out: Vec<FullModuleProgress> = Vec::new();
        let mut i: usize = 0;
        while i < modules.len()
            invariant
                i <= modules.len(),
                out.len() == i,
                forall|k: int|
                    0 <= k < i ==> Some((#[trigger] out[k]).deep_view())
                        == self.deep_view().full_module_progress(
                        modules.deep_view()[k],
                        student.deep_view(),
                    ),
            decreases modules.len() - i,
        {
            match self.full_module_progress(modules[i].clone(), &student) {
                Some(full) => {
                    out.push(full);
                },
                None => {
                    assert(self.deep_view().full_module_progress(
                        modules.deep_view()[i as int],
                        student.deep_view(),
                    ) is None);
                    return Err(Error::IntegrityViolation);
                },
            }
            i += 1;
        }
        proof {
            assert forall|k: int| 0 <= k < modules.deep_view().len() implies self.deep_view().full_module_progress(
                #[trigger] modules.deep_view()[k],
                student.deep_view(),
            ) is Some by {
                assert(Some(out[k].deep_view()) == self.deep_view().full_module_progress(
                    modules.deep_view()[k],
                    student.deep_view(),
                ));
            }
            assert(out.deep_view() =~= Seq::new(
                modules.deep_view().len(),
                |k: int|
                    self.deep_view().full_module_progress(
                        modules.deep_view()[k],
                        student.deep_view(),
                    ).unwrap(),
            ));
        }
        let row = &self.enrollments[e];
        Ok(
            FullEnrollment {
                id: row.id,
                course,
                student,
                modules: out,
                status: row.status,
                progress: row.progress,
                carted_at: row.carted_at,
                enrolled_at: row.enrolled_at,
                completed_at: row.completed_at,
                course_review: row.course_review,
                updated_at: row.updated_at,
            },
        )
    }
}

} // verus!
