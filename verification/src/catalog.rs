use crate::contract::{lesson_is, Contract, ContractView};
use crate::error::Error;
use crate::models::{
    Course, CourseStatus, CourseView, Lesson, LessonView, Module, ModuleView, Quizz, QuizzView,
};
use crate::progress::transition;
use crate::quiz::{Question, QuestionView};
use crate::seqs::{first_from, first_where, lemma_deep_push, lemma_first_where_same};
use crate::consistency::{
    lemma_delete_lesson_keeps_consistent, lemma_new_course_keeps_consistent,
    lemma_new_lesson_keeps_consistent, lemma_new_module_keeps_consistent,
    lemma_new_quizz_keeps_consistent, lemma_same_links_stay_consistent,
};
use crate::rows::{
    lemma_delete_lesson_keeps_catalog, lemma_new_course_keeps_catalog,
    lemma_new_lesson_keeps_catalog, lemma_new_module_keeps_catalog,
    lemma_new_quizz_keeps_catalog, lemma_rows_survive_catalog_change,
    lemma_same_rows_stay_consistent,
};
use vstd::prelude::*;

verus! {

/// Recognises one id.
pub open spec fn id_is(id: u64) -> spec_fn(u64) -> bool {
    |x: u64| x == id
}

/// A sequence without the element at `i`, the last element moved into its place.
pub open spec fn swap_removed<T>(s: Seq<T>, i: int) -> Seq<T> {
    s.update(i, s.last()).drop_last()
}

/// Whether the stored lesson at `j` moves up when a gap opens at order `gap`: it is the
/// lesson that one of the sibling ids names, and it comes after the gap.
pub open spec fn moves_up(lessons: Seq<LessonView>, siblings: Seq<u64>, gap: u64, j: int) -> bool {
    &&& lessons[j].order > gap
    &&& siblings.contains(lessons[j].id)
    &&& first_where(lessons, lesson_is(lessons[j].id)) == Some(j)
}

/// The lessons after the gap at order `gap` is closed: each sibling that came after the gap
/// has its order reduced by one, and nothing else changes.
pub open spec fn close_gap(lessons: Seq<LessonView>, siblings: Seq<u64>, gap: u64) -> Seq<
    LessonView,
> {
    Seq::new(
        lessons.len(),
        |j: int|
            if moves_up(lessons, siblings, gap, j) {
                LessonView { order: (lessons[j].order - 1) as u64, ..lessons[j] }
            } else {
                lessons[j]
            },
    )
}

impl ContractView {
    /// The position of a lesson that the caller may edit: the lesson must exist and the
    /// caller must be the mentor of the course that the lesson's module belongs to.
    pub open spec fn owned_lesson(self, caller: Seq<char>, lesson_id: u64) -> Result<int, Error> {
        match self.lesson_pos(lesson_id) {
            None => Err(Error::NotFound),
            Some(l) => match self.module(self.lessons[l].module_id) {
                None => Err(Error::IntegrityViolation),
                Some(m) => match self.course(m.course_id) {
                    None => Err(Error::IntegrityViolation),
                    Some(c) => if c.mentor_id != caller {
                        Err(Error::Unauthorized)
                    } else {
                        Ok(l)
                    },
                },
            },
        }
    }

    /// The position of a module that the caller may edit.
    pub open spec fn owned_module(self, caller: Seq<char>, module_id: u64) -> Result<int, Error> {
        match self.module_pos(module_id) {
            None => Err(Error::NotFound),
            Some(m) => match self.course(self.modules[m].course_id) {
                None => Err(Error::IntegrityViolation),
                Some(c) => if c.mentor_id != caller {
                    Err(Error::Unauthorized)
                } else {
                    Ok(m)
                },
            },
        }
    }

    /// The position of a quiz that the caller may edit.
    pub open spec fn owned_quizz(self, caller: Seq<char>, quizz_id: u64) -> Result<int, Error> {
        match self.quizz_pos(quizz_id) {
            None => Err(Error::NotFound),
            Some(q) => match self.owned_module(caller, self.quizzes[q].module_id) {
                Err(Error::Unauthorized) => Err(Error::Unauthorized),
                Err(_) => Err(Error::IntegrityViolation),
                Ok(_) => Ok(q),
            },
        }
    }

    /// The position of a course whose status the caller may change: the caller must be its
    /// mentor or an administrator.
    pub open spec fn managed_course(self, caller: Seq<char>, course_id: u64) -> Result<int, Error> {
        match self.course_pos(course_id) {
            None => Err(Error::NotFound),
            Some(c) => if self.courses[c].mentor_id != caller && !self.is_admin(caller) {
                Err(Error::Unauthorized)
            } else {
                Ok(c)
            },
        }
    }

    /// Every one of these lessons is in the catalog.
    pub open spec fn lessons_stored(self, lessons: Seq<u64>) -> bool {
        forall|k: int| 0 <= k < lessons.len() ==> self.lesson(#[trigger] lessons[k]) is Some
    }
}

/// What publishing a course does to the platform.
pub open spec fn publish_course_outcome(
    st: ContractView,
    caller: Seq<char>,
    course_id: u64,
    published_at: u64,
) -> Result<ContractView, Error> {
    match st.managed_course(caller, course_id) {
        Err(e) => Err(e),
        Ok(c) => Ok(
            ContractView {
                courses: st.courses.update(
                    c,
                    CourseView {
                        status: CourseStatus::Published,
                        updated_at: published_at,
                        ..st.courses[c]
                    },
                ),
                ..st
            },
        ),
    }
}

/// What archiving a course does to the platform.
pub open spec fn archive_course_outcome(st: ContractView, caller: Seq<char>, course_id: u64)
    -> Result<ContractView, Error> {
    match st.managed_course(caller, course_id) {
        Err(e) => Err(e),
        Ok(c) => Ok(
            ContractView {
                courses: st.courses.update(
                    c,
                    CourseView { status: CourseStatus::Archived, ..st.courses[c] },
                ),
                ..st
            },
        ),
    }
}

/// What deleting a lesson does to the platform.
///
/// The lesson leaves its module's list and the store, and the siblings that came after it
/// move up by one. Progress rows that name the lesson stay as they are.
pub open spec fn delete_lesson_outcome(st: ContractView, caller: Seq<char>, lesson_id: u64)
    -> Result<ContractView, Error> {
    match st.owned_lesson(caller, lesson_id) {
        Err(e) => Err(e),
        Ok(l) => {
            let m = st.module_pos(st.lessons[l].module_id).unwrap();
            let module = st.modules[m];
            match first_where(module.lessons_ids, id_is(lesson_id)) {
                None => Err(Error::IntegrityViolation),
                Some(k) => {
                    let siblings = module.lessons_ids.remove(k);
                    if !st.lessons_stored(siblings) {
                        Err(Error::IntegrityViolation)
                    } else {
                        Ok(
                            ContractView {
                                modules: st.modules.update(
                                    m,
                                    ModuleView { lessons_ids: siblings, ..module },
                                ),
                                lessons: swap_removed(
                                    close_gap(st.lessons, siblings, st.lessons[l].order),
                                    l,
                                ),
                                ..st
                            },
                        )
                    }
                },
            }
        },
    }
}

fn position_of(ids: &Vec<u64>, id: u64) -> (r: Option<usize>)
    ensures
        match r {
            Some(i) => first_where(ids@, id_is(id)) == Some(i as int) && i < ids.len(),
            None => first_where(ids@, id_is(id)) is None,
        },
        r is Some <==> ids@.contains(id),
{
    let mut i: usize = 0;
    while i < ids.len()
        invariant
            i <= ids.len(),
            first_from(ids@, id_is(id), i as int) == first_where(ids@, id_is(id)),
            forall|j: int| 0 <= j < i ==> ids@[j] != id,
        decreases ids.len() - i,
    {
        if ids[i] == id {
            return Some(i);
        }
        i += 1;
    }
    None
}

impl Contract {
    /// The position of a lesson that the caller may edit.
    pub fn owned_lesson(&self, caller: &String, lesson_id: u64) -> (r: Result<usize, Error>)
        ensures
            match r {
                Ok(l) => self.deep_view().owned_lesson(caller@, lesson_id) == Ok::<int, Error>(
                    l as int,
                ) && l < self.lessons.len(),
                Err(e) => self.deep_view().owned_lesson(caller@, lesson_id) == Err::<int, Error>(e),
            },
    {
        let l = match self.lesson_index(lesson_id) {
            Some(l) => l,
            None => {
                return Err(Error::NotFound);
            },
        };
        let m = match self.module_index(self.lessons[l].module_id) {
            Some(m) => m,
            None => {
                return Err(Error::IntegrityViolation);
            },
        };
        let c = match self.course_index(self.modules[m].course_id) {
            Some(c) => c,
            None => {
                return Err(Error::IntegrityViolation);
            },
        };
        if self.courses[c].mentor_id != *caller {
            return Err(Error::Unauthorized);
        }
        Ok(l)
    }

    /// The position of a module that the caller may edit.
    pub fn owned_module(&self, caller: &String, module_id: u64) -> (r: Result<usize, Error>)
        ensures
            match r {
                Ok(m) => self.deep_view().owned_module(caller@, module_id) == Ok::<int, Error>(
                    m as int,
                ) && m < self.modules.len(),
                Err(e) => self.deep_view().owned_module(caller@, module_id) == Err::<int, Error>(e),
            },
    {
        let m = match self.module_index(module_id) {
            Some(m) => m,
            None => {
                return Err(Error::NotFound);
            },
        };
        let c = match self.course_index(self.modules[m].course_id) {
            Some(c) => c,
            None => {
                return Err(Error::IntegrityViolation);
            },
        };
        if self.courses[c].mentor_id != *caller {
            return Err(Error::Unauthorized);
        }
        Ok(m)
    }

    /// The position of a quiz that the caller may edit.
    pub fn owned_quizz(&self, caller: &String, quizz_id: u64) -> (r: Result<usize, Error>)
        ensures
            match r {
                Ok(q) => self.deep_view().owned_quizz(caller@, quizz_id) == Ok::<int, Error>(
                    q as int,
                ) && q < self.quizzes.len(),
                Err(e) => self.deep_view().owned_quizz(caller@, quizz_id) == Err::<int, Error>(e),
            },
    {
        let q = match self.quizz_index(quizz_id) {
            Some(q) => q,
            None => {
                return Err(Error::NotFound);
            },
        };
        match self.owned_module(caller, self.quizzes[q].module_id) {
            Err(Error::Unauthorized) => Err(Error::Unauthorized),
            Err(_) => Err(Error::IntegrityViolation),
            Ok(_) => Ok(q),
        }
    }

    /// The position of a course whose status the caller may change.
    pub fn managed_course(&self, caller: &String, course_id: u64) -> (r: Result<usize, Error>)
        ensures
            match r {
                Ok(c) => self.deep_view().managed_course(caller@, course_id) == Ok::<int, Error>(
                    c as int,
                ) && c < self.courses.len(),
                Err(e) => self.deep_view().managed_course(caller@, course_id) == Err::<int, Error>(
                    e,
                ),
            },
    {
        let c = match self.course_index(course_id) {
            Some(c) => c,
            None => {
                return Err(Error::NotFound);
            },
        };
        if self.courses[c].mentor_id != *caller && !self.is_admin(caller.clone()) {
            return Err(Error::Unauthorized);
        }
        Ok(c)
    }

    /// Adds a course in draft status, with the caller as its mentor. The caller must be a
    /// registered user.
    pub fn create_course(
        &mut self,
        caller: String,
        title: String,
        description: String,
        level: String,
        duration: String,
        category: String,
        requirements: Vec<String>,
        objectives: Vec<String>,
        picture: String,
        with_ai: bool,
        price: u128,
        created_at: u64,
    ) -> (r: Result<Course, Error>)
        ensures
            match r {
                Ok(course) => {
                    &&& old(self).deep_view().user(caller@) is Some
                    &&& old(self).course_count < u64::MAX
                    &&& course.deep_view() == (CourseView {
                        id: old(self).course_count,
                        title: title@,
                        description: description@,
                        level: level@,
                        duration: duration@,
                        status: CourseStatus::Draft,
                        requirements: requirements.deep_view(),
                        objectives: objectives.deep_view(),
                        category: category@,
                        picture: picture@,
                        with_ai,
                        price,
                        mentor_id: caller@,
                        modules_ids: Seq::empty(),
                        created_at,
                        updated_at: created_at,
                    })
                    &&& final(self).deep_view() == (ContractView {
                        courses: old(self).deep_view().courses.push(course.deep_view()),
                        course_count: (old(self).course_count + 1) as u64,
                        ..old(self).deep_view()
                    })
                },
                Err(e) => {
                    &&& final(self).deep_view() == old(self).deep_view()
                    &&& e == if old(self).deep_view().user(caller@) is None {
                        Error::NotFound
                    } else {
                        Error::CapacityExceeded
                    }
                    &&& old(self).deep_view().user(caller@) is None || old(self).course_count
                        == u64::MAX
                },
            },
            old(self).deep_view().consistent() ==> final(self).deep_view().consistent(),
            old(self).deep_view().sound() ==> final(self).deep_view().sound(),
    {
        if self.user_index(&caller).is_none() {
            return Err(Error::NotFound);
        }
        if self.course_count == u64::MAX {
            return Err(Error::CapacityExceeded);
        }
        let course = Course {
            id: self.course_count,
            title,
            description,
            level,
            duration,
            status: CourseStatus::Draft,
            requirements,
            objectives,
            category,
            picture,
            with_ai,
            price,
            mentor_id: caller,
            modules_ids: Vec::new(),
            created_at,
            updated_at: created_at,
        };
        assert(course.modules_ids@ =~= Seq::empty());
        let stored = course.clone();
        let ghost before = self.courses;
        self.courses.push(stored);
        self.course_count = self.course_count + 1;
        proof {
            lemma_deep_push(before, self.courses, stored);
            if old(self).deep_view().consistent() {
                lemma_new_course_keeps_consistent(old(self).deep_view(), stored.deep_view());
            }
            if old(self).deep_view().sound() {
                lemma_new_course_keeps_catalog(old(self).deep_view(), self.deep_view());
                lemma_rows_survive_catalog_change(old(self).deep_view(), self.deep_view());
            }
        }
        Ok(course)
    }

    /// Adds a module at the end of a course. The caller must be a registered user.
    pub fn create_module(
        &mut self,
        caller: String,
        course_id: u64,
        title: String,
        description: String,
        status: String,
        order: u64,
        with_ai: bool,
        created_at: u64,
    ) -> (r: Result<(), Error>)
        ensures
            match r {
                Ok(()) => {
                    &&& old(self).deep_view().user(caller@) is Some
                    &&& old(self).deep_view().course_pos(course_id) is Some
                    &&& old(self).module_count < u64::MAX
                    &&& final(self).deep_view() == old(self).deep_view().with_module(
                        ModuleView {
                            id: old(self).module_count,
                            title: title@,
                            description: description@,
                            status: status@,
                            order,
                            with_ai,
                            created_at,
                            updated_at: created_at,
                            course_id,
                            lessons_ids: Seq::empty(),
                            quizz_id: None,
                        },
                    )
                },
                Err(e) => {
                    &&& final(self).deep_view() == old(self).deep_view()
                    &&& e == if old(self).deep_view().user(caller@) is None || old(
                        self,
                    ).deep_view().course_pos(course_id) is None {
                        Error::NotFound
                    } else {
                        Error::CapacityExceeded
                    }
                    &&& old(self).deep_view().user(caller@) is None || old(
                        self,
                    ).deep_view().course_pos(course_id) is None || old(self).module_count
                        == u64::MAX
                },
            },
            old(self).deep_view().consistent() ==> final(self).deep_view().consistent(),
            old(self).deep_view().sound() ==> final(self).deep_view().sound(),
    {
        if self.user_index(&caller).is_none() {
            return Err(Error::NotFound);
        }
        let c = match self.course_index(course_id) {
            Some(c) => c,
            None => {
                return Err(Error::NotFound);
            },
        };
        if self.module_count == u64::MAX {
            return Err(Error::CapacityExceeded);
        }
        let module = Module {
            id: self.module_count,
            title,
            description,
            status,
            order,
            with_ai,
            created_at,
            updated_at: created_at,
            course_id,
            lessons_ids: Vec::new(),
            quizz_id: None,
        };
        assert(module.lessons_ids@ =~= Seq::empty());
        self.attach_module(c, module);
        Ok(())
    }

    /// Stores a module under the next module id and lists it in the course at `c`.
    pub(crate) fn attach_module(&mut self, c: usize, module: Module)
        requires
            c < old(self).courses.len(),
            old(self).deep_view().course_pos(module.course_id) == Some(c as int),
            module.id == old(self).module_count,
            old(self).module_count < u64::MAX,
            module.lessons_ids.len() == 0,
            module.quizz_id is None,
        ensures
            final(self).deep_view() == old(self).deep_view().with_module(module.deep_view()),
            old(self).deep_view().consistent() ==> final(self).deep_view().consistent(),
            old(self).deep_view().sound() ==> final(self).deep_view().sound(),
    {
        let ghost before = self.modules;
        let id = self.module_count;
        self.modules.push(module);
        self.courses[c].modules_ids.push(id);
        self.module_count = id + 1;
        proof {
            lemma_deep_push(before, self.modules, module);
            let st = old(self).deep_view();
            assert(self.courses.deep_view() =~= st.courses.update(
                c as int,
                CourseView { modules_ids: st.courses[c as int].modules_ids.push(id), ..st.courses[c as int] },
            ));
            if old(self).deep_view().consistent() {
                lemma_new_module_keeps_consistent(old(self).deep_view(), module.deep_view());
            }
            if old(self).deep_view().sound() {
                lemma_new_module_keeps_catalog(old(self).deep_view(), module.deep_view());
                lemma_rows_survive_catalog_change(old(self).deep_view(), self.deep_view());
            }
        }
    }

    /// Changes the title and description of a module. The caller must be the course's mentor.
    pub fn update_module(
        &mut self,
        caller: String,
        module_id: u64,
        title: String,
        description: String,
        updated_at: u64,
    ) -> (r: Result<(), Error>)
        ensures
            transition(
                r,
                old(self).deep_view(),
                final(self).deep_view(),
                match old(self).deep_view().owned_module(caller@, module_id) {
                    Err(e) => Err(e),
                    Ok(m) => Ok(
                        ContractView {
                            modules: old(self).deep_view().modules.update(
                                m,
                                ModuleView {
                                    title: title@,
                                    description: description@,
                                    updated_at,
                                    ..old(self).deep_view().modules[m]
                                },
                            ),
                            ..old(self).deep_view()
                        },
                    ),
                },
            ),
            old(self).deep_view().consistent() ==> final(self).deep_view().consistent(),
            old(self).deep_view().sound() ==> final(self).deep_view().sound(),
    {
        let m = match self.owned_module(&caller, module_id) {
            Ok(m) => m,
            Err(e) => {
                return Err(e);
            },
        };
        self.modules[m].title = title;
        self.modules[m].description = description;
        self.modules[m].updated_at = updated_at;
        proof {
            let st = old(self).deep_view();
            assert(self.modules.deep_view() =~= st.modules.update(
                m as int,
                ModuleView { title: title@, description: description@, updated_at, ..st.modules[m as int] },
            ));
            if old(self).deep_view().consistent() {
                lemma_same_links_stay_consistent(old(self).deep_view(), self.deep_view());
            }
            if old(self).deep_view().sound() {
                lemma_same_rows_stay_consistent(old(self).deep_view(), self.deep_view());
            }
        }
        Ok(())
    }

    /// Adds an empty quiz and makes it the quiz of the module.
    pub fn create_quizz(
        &mut self,
        module_id: u64,
        title: String,
        description: String,
        created_at: u64,
    ) -> (r: Result<(), Error>)
        ensures
            transition(
                r,
                old(self).deep_view(),
                final(self).deep_view(),
                match old(self).deep_view().module_pos(module_id) {
                    None => Err(Error::NotFound),
                    Some(m) => if old(self).quizz_count == u64::MAX {
                        Err(Error::CapacityExceeded)
                    } else {
                        Ok(
                            ContractView {
                                quizzes: old(self).deep_view().quizzes.push(
                                    QuizzView {
                                        id: old(self).quizz_count,
                                        module_id,
                                        title: title@,
                                        description: description@,
                                        questions: Seq::empty(),
                                        with_ai: false,
                                        created_at,
                                        updated_at: created_at,
                                    },
                                ),
                                modules: old(self).deep_view().modules.update(
                                    m,
                                    ModuleView {
                                        quizz_id: Some(old(self).quizz_count),
                                        ..old(self).deep_view().modules[m]
                                    },
                                ),
                                quizz_count: (old(self).quizz_count + 1) as u64,
                                ..old(self).deep_view()
                            },
                        )
                    },
                },
            ),
            old(self).deep_view().consistent() ==> final(self).deep_view().consistent(),
            old(self).deep_view().sound() ==> final(self).deep_view().sound(),
    {
        let m = match self.module_index(module_id) {
            Some(m) => m,
            None => {
                return Err(Error::NotFound);
            },
        };
        if self.quizz_count == u64::MAX {
            return Err(Error::CapacityExceeded);
        }
        let id = self.quizz_count;
        let quizz = Quizz {
            id,
            module_id,
            title,
            description,
            questions: Vec::new(),
            with_ai: false,
            created_at,
            updated_at: created_at,
        };
        assert(quizz.questions.deep_view() =~= Seq::empty());
        let ghost before = self.quizzes;
        self.quizzes.push(quizz);
        self.modules[m].quizz_id = Some(id);
        self.quizz_count = id + 1;
        proof {
            lemma_deep_push(before, self.quizzes, quizz);
            let st = old(self).deep_view();
            assert(self.modules.deep_view() =~= st.modules.update(
                m as int,
                ModuleView { quizz_id: Some(id), ..st.modules[m as int] },
            ));
            if old(self).deep_view().consistent() {
                lemma_new_quizz_keeps_consistent(old(self).deep_view(), quizz.deep_view());
            }
            if old(self).deep_view().sound() {
                lemma_new_quizz_keeps_catalog(old(self).deep_view(), quizz.deep_view());
                lemma_rows_survive_catalog_change(old(self).deep_view(), self.deep_view());
            }
        }
        Ok(())
    }

    /// Replaces the questions of a quiz. The caller must be the course's mentor.
    pub fn save_quizz_questions(
        &mut self,
        caller: String,
        quizz_id: u64,
        with_ai: bool,
        questions: Vec<Question>,
    ) -> (r: Result<(), Error>)
        ensures
            transition(
                r,
                old(self).deep_view(),
                final(self).deep_view(),
                match old(self).deep_view().owned_quizz(caller@, quizz_id) {
                    Err(e) => Err(e),
                    Ok(q) => Ok(
                        ContractView {
                            quizzes: old(self).deep_view().quizzes.update(
                                q,
                                QuizzView {
                                    questions: questions.deep_view(),
                                    with_ai,
                                    ..old(self).deep_view().quizzes[q]
                                },
                            ),
                            ..old(self).deep_view()
                        },
                    ),
                },
            ),
            old(self).deep_view().consistent() ==> final(self).deep_view().consistent(),
            old(self).deep_view().sound() ==> final(self).deep_view().sound(),
    {
        let q = match self.owned_quizz(&caller, quizz_id) {
            Ok(q) => q,
            Err(e) => {
                return Err(e);
            },
        };
        self.quizzes[q].questions = questions;
        self.quizzes[q].with_ai = with_ai;
        proof {
            let st = old(self).deep_view();
            assert(self.quizzes.deep_view() =~= st.quizzes.update(
                q as int,
                QuizzView { questions: questions.deep_view(), with_ai, ..st.quizzes[q as int] },
            ));
            if old(self).deep_view().consistent() {
                lemma_same_links_stay_consistent(old(self).deep_view(), self.deep_view());
            }
            if old(self).deep_view().sound() {
                lemma_same_rows_stay_consistent(old(self).deep_view(), self.deep_view());
            }
        }
        Ok(())
    }

    /// Adds a lesson at the end of a module.
    pub fn create_lesson(
        &mut self,
        module_id: u64,
        title: String,
        description: String,
        video_url: String,
        article: String,
        order: u64,
        with_ai: bool,
        created_at: u64,
    ) -> (r: Result<(), Error>)
        ensures
            transition(
                r,
                old(self).deep_view(),
                final(self).deep_view(),
                match old(self).deep_view().module_pos(module_id) {
                    None => Err(Error::NotFound),
                    Some(m) => if old(self).lesson_count == u64::MAX {
                        Err(Error::CapacityExceeded)
                    } else {
                        Ok(
                            old(self).deep_view().with_lesson(
                                LessonView {
                                    id: old(self).lesson_count,
                                    title: title@,
                                    description: description@,
                                    video_url: video_url@,
                                    article: article@,
                                    order,
                                    with_ai,
                                    module_id,
                                    created_at,
                                    updated_at: created_at,
                                },
                            ),
                        )
                    },
                },
            ),
            old(self).deep_view().consistent() ==> final(self).deep_view().consistent(),
            old(self).deep_view().sound() ==> final(self).deep_view().sound(),
    {
        let m = match self.module_index(module_id) {
            Some(m) => m,
            None => {
                return Err(Error::NotFound);
            },
        };
        if self.lesson_count == u64::MAX {
            return Err(Error::CapacityExceeded);
        }
        let lesson = Lesson {
            id: self.lesson_count,
            title,
            description,
            video_url,
            article,
            order,
            with_ai,
            module_id,
            created_at,
            updated_at: created_at,
        };
        self.attach_lesson(m, lesson);
        Ok(())
    }

    /// Stores a lesson under the next lesson id and lists it in the module at `m`.
    pub(crate) fn attach_lesson(&mut self, m: usize, lesson: Lesson)
        requires
            m < old(self).modules.len(),
            old(self).deep_view().module_pos(lesson.module_id) == Some(m as int),
            lesson.id == old(self).lesson_count,
            old(self).lesson_count < u64::MAX,
        ensures
            final(self).deep_view() == old(self).deep_view().with_lesson(lesson.deep_view()),
            old(self).deep_view().consistent() ==> final(self).deep_view().consistent(),
            old(self).deep_view().sound() ==> final(self).deep_view().sound(),
    {
        let ghost before = self.lessons;
        let id = self.lesson_count;
        self.lessons.push(lesson);
        self.modules[m].lessons_ids.push(id);
        self.lesson_count = id + 1;
        proof {
            lemma_deep_push(before, self.lessons, lesson);
            let st = old(self).deep_view();
            assert(self.modules.deep_view() =~= st.modules.update(
                m as int,
                ModuleView { lessons_ids: st.modules[m as int].lessons_ids.push(id), ..st.modules[m as int] },
            ));
            if old(self).deep_view().consistent() {
                lemma_new_lesson_keeps_consistent(old(self).deep_view(), lesson.deep_view());
            }
            if old(self).deep_view().sound() {
                lemma_new_lesson_keeps_catalog(old(self).deep_view(), lesson.deep_view());
                lemma_rows_survive_catalog_change(old(self).deep_view(), self.deep_view());
            }
        }
    }

    /// Changes the title and description of a lesson. The caller must be the course's mentor.
    pub fn update_lesson_details(
        &mut self,
        caller: String,
        lesson_id: u64,
        title: String,
        description: String,
        updated_at: u64,
    ) -> (r: Result<(), Error>)
        ensures
            transition(
                r,
                old(self).deep_view(),
                final(self).deep_view(),
                match old(self).deep_view().owned_lesson(caller@, lesson_id) {
                    Err(e) => Err(e),
                    Ok(l) => Ok(
                        ContractView {
                            lessons: old(self).deep_view().lessons.update(
                                l,
                                LessonView {
                                    title: title@,
                                    description: description@,
                                    updated_at,
                                    ..old(self).deep_view().lessons[l]
                                },
                            ),
                            ..old(self).deep_view()
                        },
                    ),
                },
            ),
            old(self).deep_view().consistent() ==> final(self).deep_view().consistent(),
            old(self).deep_view().sound() ==> final(self).deep_view().sound(),
    {
        let l = match self.owned_lesson(&caller, lesson_id) {
            Ok(l) => l,
            Err(e) => {
                return Err(e);
            },
        };
        self.lessons[l].title = title;
        self.lessons[l].description = description;
        self.lessons[l].updated_at = updated_at;
        proof {
            let st = old(self).deep_view();
            assert(self.lessons.deep_view() =~= st.lessons.update(
                l as int,
                LessonView { title: title@, description: description@, updated_at, ..st.lessons[l as int] },
            ));
            if old(self).deep_view().consistent() {
                lemma_same_links_stay_consistent(old(self).deep_view(), self.deep_view());
            }
            if old(self).deep_view().sound() {
                lemma_same_rows_stay_consistent(old(self).deep_view(), self.deep_view());
            }
        }
        Ok(())
    }

    /// Sets the video of a lesson. The caller must be the course's mentor.
    pub fn add_video_to_lesson(&mut self, caller: String, lesson_id: u64, ipfs_url: String) -> (r:
        Result<(), Error>)
        ensures
            transition(
                r,
                old(self).deep_view(),
                final(self).deep_view(),
                match old(self).deep_view().owned_lesson(caller@, lesson_id) {
                    Err(e) => Err(e),
                    Ok(l) => Ok(
                        ContractView {
                            lessons: old(self).deep_view().lessons.update(
                                l,
                                LessonView { video_url: ipfs_url@, ..old(self).deep_view().lessons[l] },
                            ),
                            ..old(self).deep_view()
                        },
                    ),
                },
            ),
            old(self).deep_view().consistent() ==> final(self).deep_view().consistent(),
            old(self).deep_view().sound() ==> final(self).deep_view().sound(),
    {
        let l = match self.owned_lesson(&caller, lesson_id) {
            Ok(l) => l,
            Err(e) => {
                return Err(e);
            },
        };
        self.lessons[l].video_url = ipfs_url;
        proof {
            let st = old(self).deep_view();
            assert(self.lessons.deep_view() =~= st.lessons.update(
                l as int,
                LessonView { video_url: ipfs_url@, ..st.lessons[l as int] },
            ));
            if old(self).deep_view().consistent() {
                lemma_same_links_stay_consistent(old(self).deep_view(), self.deep_view());
            }
            if old(self).deep_view().sound() {
                lemma_same_rows_stay_consistent(old(self).deep_view(), self.deep_view());
            }
        }
        Ok(())
    }

    /// Sets the article of a lesson. The caller must be the course's mentor.
    pub fn add_article_to_lesson(&mut self, caller: String, lesson_id: u64, article: String) -> (r:
        Result<(), Error>)
        ensures
            transition(
                r,
                old(self).deep_view(),
                final(self).deep_view(),
                match old(self).deep_view().owned_lesson(caller@, lesson_id) {
                    Err(e) => Err(e),
                    Ok(l) => Ok(
                        ContractView {
                            lessons: old(self).deep_view().lessons.update(
                                l,
                                LessonView { article: article@, ..old(self).deep_view().lessons[l] },
                            ),
                            ..old(self).deep_view()
                        },
                    ),
                },
            ),
            old(self).deep_view().consistent() ==> final(self).deep_view().consistent(),
            old(self).deep_view().sound() ==> final(self).deep_view().sound(),
    {
        let l = match self.owned_lesson(&caller, lesson_id) {
            Ok(l) => l,
            Err(e) => {
                return Err(e);
            },
        };
        self.lessons[l].article = article;
        proof {
            let st = old(self).deep_view();
            assert(self.lessons.deep_view() =~= st.lessons.update(
                l as int,
                LessonView { article: article@, ..st.lessons[l as int] },
            ));
            if old(self).deep_view().consistent() {
                lemma_same_links_stay_consistent(old(self).deep_view(), self.deep_view());
            }
            if old(self).deep_view().sound() {
                lemma_same_rows_stay_consistent(old(self).deep_view(), self.deep_view());
            }
        }
        Ok(())
    }

    /// Changes the title, description, price and category of a course. The caller must be
    /// its mentor.
    pub fn update_course_details(
        &mut self,
        caller: String,
        course_id: u64,
        title: String,
        description: String,
        price: u128,
        category: String,
        updated_at: u64,
    ) -> (r: Result<(), Error>)
        ensures
            transition(
                r,
                old(self).deep_view(),
                final(self).deep_view(),
                match old(self).deep_view().course_pos(course_id) {
                    None => Err(Error::NotFound),
                    Some(c) => if old(self).deep_view().courses[c].mentor_id != caller@ {
                        Err(Error::Unauthorized)
                    } else {
                        Ok(
                            ContractView {
                                courses: old(self).deep_view().courses.update(
                                    c,
                                    CourseView {
                                        title: title@,
                                        description: description@,
                                        price,
                                        category: category@,
                                        updated_at,
                                        ..old(self).deep_view().courses[c]
                                    },
                                ),
                                ..old(self).deep_view()
                            },
                        )
                    },
                },
            ),
            old(self).deep_view().consistent() ==> final(self).deep_view().consistent(),
            old(self).deep_view().sound() ==> final(self).deep_view().sound(),
    {
        let c = match self.course_index(course_id) {
            Some(c) => c,
            None => {
                return Err(Error::NotFound);
            },
        };
        if self.courses[c].mentor_id != caller {
            return Err(Error::Unauthorized);
        }
        self.courses[c].title = title;
        self.courses[c].description = description;
        self.courses[c].price = price;
        self.courses[c].category = category;
        self.courses[c].updated_at = updated_at;
        proof {
            let st = old(self).deep_view();
            assert(self.courses.deep_view() =~= st.courses.update(
                c as int,
                CourseView {
                    title: title@,
                    description: description@,
                    price,
                    category: category@,
                    updated_at,
                    ..st.courses[c as int]
                },
            ));
            if old(self).deep_view().consistent() {
                lemma_same_links_stay_consistent(old(self).deep_view(), self.deep_view());
            }
            if old(self).deep_view().sound() {
                lemma_same_rows_stay_consistent(old(self).deep_view(), self.deep_view());
            }
        }
        Ok(())
    }

    /// Publishes a course. The caller must be its mentor or an administrator.
    pub fn publish_course(&mut self, caller: String, course_id: u64, published_at: u64) -> (r:
        Result<(), Error>)
        ensures
            transition(
                r,
                old(self).deep_view(),
                final(self).deep_view(),
                publish_course_outcome(old(self).deep_view(), caller@, course_id, published_at),
            ),
            old(self).deep_view().consistent() ==> final(self).deep_view().consistent(),
            old(self).deep_view().sound() ==> final(self).deep_view().sound(),
    {
        let c = match self.managed_course(&caller, course_id) {
            Ok(c) => c,
            Err(e) => {
                return Err(e);
            },
        };
        self.courses[c].status = CourseStatus::Published;
        self.courses[c].updated_at = published_at;
        proof {
            let st = old(self).deep_view();
            assert(self.courses.deep_view() =~= st.courses.update(
                c as int,
                CourseView {
                    status: CourseStatus::Published,
                    updated_at: published_at,
                    ..st.courses[c as int]
                },
            ));
            if old(self).deep_view().consistent() {
                lemma_same_links_stay_consistent(old(self).deep_view(), self.deep_view());
            }
            if old(self).deep_view().sound() {
                lemma_same_rows_stay_consistent(old(self).deep_view(), self.deep_view());
            }
        }
        Ok(())
    }

    /// Archives a course. The caller must be its mentor or an administrator.
    pub fn archive_course(&mut self, caller: String, course_id: u64) -> (r: Result<(), Error>)
        ensures
            transition(
                r,
                old(self).deep_view(),
                final(self).deep_view(),
                archive_course_outcome(old(self).deep_view(), caller@, course_id),
            ),
            old(self).deep_view().consistent() ==> final(self).deep_view().consistent(),
            old(self).deep_view().sound() ==> final(self).deep_view().sound(),
    {
        let c = match self.managed_course(&caller, course_id) {
            Ok(c) => c,
            Err(e) => {
                return Err(e);
            },
        };
        self.courses[c].status = CourseStatus::Archived;
        proof {
            let st = old(self).deep_view();
            assert(self.courses.deep_view() =~= st.courses.update(
                c as int,
                CourseView { status: CourseStatus::Archived, ..st.courses[c as int] },
            ));
            if old(self).deep_view().consistent() {
                lemma_same_links_stay_consistent(old(self).deep_view(), self.deep_view());
            }
            if old(self).deep_view().sound() {
                lemma_same_rows_stay_consistent(old(self).deep_view(), self.deep_view());
            }
        }
        Ok(())
    }

    /// Whether every lesson of the list is in the catalog.
    pub fn lessons_stored(&self, lessons: &Vec<u64>) -> (r: bool)
        ensures
            r == self.deep_view().lessons_stored(lessons@),
    {
        let mut i: usize = 0;
        while i < lessons.len()
            invariant
                i <= lessons.len(),
                forall|k: int| 0 <= k < i ==> self.deep_view().lesson(#[trigger] lessons@[k]) is Some,
            decreases lessons.len() - i,
        {
            if self.lesson_index(lessons[i]).is_none() {
                return false;
            }
            i += 1;
        }
        true
    }

    fn close_gap(&mut self, siblings: &Vec<u64>, gap: u64)
        ensures
            final(self).deep_view() == (ContractView {
                lessons: close_gap(old(self).deep_view().lessons, siblings@, gap),
                ..old(self).deep_view()
            }),
    {
        let ghost before = self.deep_view();
        let mut j: usize = 0;
        while j < self.lessons.len()
            invariant
                j <= self.lessons.len(),
                self.lessons.len() == before.lessons.len(),
                self.deep_view() == (ContractView { lessons: self.lessons.deep_view(), ..before }),
                forall|k: int|
                    0 <= k < j ==> (#[trigger] self.lessons[k]).deep_view() == close_gap(
                        before.lessons,
                        siblings@,
                        gap,
                    )[k],
                forall|k: int|
                    j <= k < self.lessons.len() ==> (#[trigger] self.lessons[k]).deep_view()
                        == before.lessons[k],
                forall|k: int|
                    0 <= k < self.lessons.len() ==> (#[trigger] self.lessons[k]).id
                        == before.lessons[k].id,
            decreases self.lessons.len() - j,
        {
            let id = self.lessons[j].id;
            let order = self.lessons[j].order;
            proof {
                lemma_first_where_same(
                    self.lessons.deep_view(),
                    lesson_is(id),
                    before.lessons,
                    lesson_is(id),
                );
            }
            if order > gap && position_of(siblings, id).is_some() {
                let named = self.lesson_index(id);
                if named == Some(j) {
                    self.lessons[j].order = order - 1;
                }
            }
            j += 1;
        }
        proof {
            assert(self.lessons.deep_view() =~= close_gap(before.lessons, siblings@, gap));
        }
    }

    /// Deletes a lesson and closes the gap that it leaves among its siblings. The caller
    /// must be the course's mentor.
    pub fn delete_lesson(&mut self, caller: String, lesson_id: u64) -> (r: Result<(), Error>)
        ensures
            transition(
                r,
                old(self).deep_view(),
                final(self).deep_view(),
                delete_lesson_outcome(old(self).deep_view(), caller@, lesson_id),
            ),
            old(self).deep_view().consistent() ==> final(self).deep_view().consistent(),
            old(self).deep_view().sound() ==> final(self).deep_view().sound(),
    {
        let l = match self.owned_lesson(&caller, lesson_id) {
            Ok(l) => l,
            Err(e) => {
                return Err(e);
            },
        };
        let m = match self.module_index(self.lessons[l].module_id) {
            Some(m) => m,
            None => {
                return Err(Error::IntegrityViolation);
            },
        };
        let k = match position_of(&self.modules[m].lessons_ids, lesson_id) {
            Some(k) => k,
            None => {
                return Err(Error::IntegrityViolation);
            },
        };
        let mut siblings = self.modules[m].lessons_ids.clone();
        assert(siblings@ =~= self.modules[m as int].lessons_ids@);
        siblings.remove(k);
        if !self.lessons_stored(&siblings) {
            return Err(Error::IntegrityViolation);
        }
        let gap = self.lessons[l].order;
        self.close_gap(&siblings, gap);
        self.modules[m].lessons_ids.remove(k);
        self.lessons.swap_remove(l);
        proof {
            let st = old(self).deep_view();
            assert(self.modules.deep_view() =~= st.modules.update(
                m as int,
                ModuleView { lessons_ids: siblings@, ..st.modules[m as int] },
            ));
            assert(self.lessons.deep_view() =~= swap_removed(
                close_gap(st.lessons, siblings@, gap),
                l as int,
            ));
            if old(self).deep_view().consistent() {
                lemma_delete_lesson_keeps_consistent(old(self).deep_view(), caller@, lesson_id);
            }
            if old(self).deep_view().sound() {
                lemma_delete_lesson_keeps_catalog(old(self).deep_view(), caller@, lesson_id);
                lemma_rows_survive_catalog_change(old(self).deep_view(), self.deep_view());
            }
        }
        Ok(())
    }
}

} // verus!
