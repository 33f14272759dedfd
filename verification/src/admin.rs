use crate::contract::{Contract, ContractView};
use crate::error::Error;
use crate::models::{
    Course, CourseStatus, CourseView, Lesson, LessonView, Module, ModuleView, Role, User, UserView,
};
use crate::progress::transition;
use crate::seqs::lemma_deep_push;
use crate::consistency::{lemma_new_course_keeps_consistent, lemma_same_links_stay_consistent};
use crate::rows::{
    lemma_new_course_keeps_catalog, lemma_rows_survive_catalog_change,
    lemma_same_rows_stay_consistent,
};
use vstd::prelude::*;

verus! {

impl Contract {
    /// Gives the caller's own user the administrator role. The caller must be the
    /// platform's administrator account.
    pub fn change_user_to_admin(&mut self, caller: String) -> (r: Result<(), Error>)
        ensures
            transition(
                r,
                old(self).deep_view(),
                final(self).deep_view(),
                if caller@ != old(self).admin_id@ {
                    Err(Error::Unauthorized)
                } else {
                    match old(self).deep_view().user_pos(caller@) {
                        None => Err(Error::NotFound),
                        Some(u) => Ok(
                            ContractView {
                                users: old(self).deep_view().users.update(
                                    u,
                                    UserView { role: Role::Admin, ..old(self).deep_view().users[u] },
                                ),
                                ..old(self).deep_view()
                            },
                        ),
                    }
                },
            ),
            old(self).deep_view().consistent() ==> final(self).deep_view().consistent(),
            old(self).deep_view().sound() ==> final(self).deep_view().sound(),
    {
        if caller != self.admin_id {
            return Err(Error::Unauthorized);
        }
        let u = match self.user_index(&caller) {
            Some(u) => u,
            None => {
                return Err(Error::NotFound);
            },
        };
        self.users[u].role = Role::Admin;
        proof {
            let st = old(self).deep_view();
            assert(self.users.deep_view() =~= st.users.update(
                u as int,
                UserView { role: Role::Admin, ..st.users[u as int] },
            ));
            if old(self).deep_view().consistent() {
                lemma_same_links_stay_consistent(old(self).deep_view(), self.deep_view());
            }
            if old(self).deep_view().sound() {
                lemma_same_rows_stay_consistent(old(self).deep_view(), self.deep_view());
            }
        }
        Ok(())
    }

    /// Sets the price of a course. The caller must be the platform's administrator account.
    pub fn update_course_price_by_admin(&mut self, caller: String, course_id: u64, price: u128) -> (r:
        Result<(), Error>)
        ensures
            transition(
                r,
                old(self).deep_view(),
                final(self).deep_view(),
                if caller@ != old(self).admin_id@ {
                    Err(Error::Unauthorized)
                } else {
                    match old(self).deep_view().course_pos(course_id) {
                        None => Err(Error::NotFound),
                        Some(c) => Ok(
                            ContractView {
                                courses: old(self).deep_view().courses.update(
                                    c,
                                    CourseView { price, ..old(self).deep_view().courses[c] },
                                ),
                                ..old(self).deep_view()
                            },
                        ),
                    }
                },
            ),
            old(self).deep_view().consistent() ==> final(self).deep_view().consistent(),
            old(self).deep_view().sound() ==> final(self).deep_view().sound(),
    {
        if caller != self.admin_id {
            return Err(Error::Unauthorized);
        }
        let c = match self.course_index(course_id) {
            Some(c) => c,
            None => {
                return Err(Error::NotFound);
            },
        };
        self.courses[c].price = price;
        proof {
            let st = old(self).deep_view();
            assert(self.courses.deep_view() =~= st.courses.update(
                c as int,
                CourseView { price, ..st.courses[c as int] },
            ));
            if old(self).deep_view().consistent() {
                lemma_same_links_stay_consistent(old(self).deep_view(), self.deep_view());
            }
            if old(self).deep_view().sound() {
                lemma_same_rows_stay_consistent(old(self).deep_view(), self.deep_view());
            }
        }
        Ok(())
    }

    /// Adds a course in draft status for the given mentor and returns its id. The caller
    /// must be the platform's administrator account.
    pub fn save_course_by_admin(
        &mut self,
        caller: String,
        mentor_id: String,
        title: String,
        description: String,
        level: String,
        duration: String,
        category: String,
        requirements: Vec<String>,
        objectives: Vec<String>,
        picture: String,
        with_ai: bool,
        price: u128,
        created_at: u64,
    ) -> (r: Result<u64, Error>)
        ensures
            transition(
                r,
                old(self).deep_view(),
                final(self).deep_view(),
                if caller@ != old(self).admin_id@ {
                    Err(Error::Unauthorized)
                } else if old(self).course_count == u64::MAX {
                    Err(Error::CapacityExceeded)
                } else {
                    Ok(
                        ContractView {
                            courses: old(self).deep_view().courses.push(
                                CourseView {
                                    id: old(self).course_count,
                                    title: title@,
                                    description: description@,
                                    level: level@,
                                    duration: duration@,
                                    status: CourseStatus::Draft,
                                    requirements: requirements.deep_view(),
                                    objectives: objectives.deep_view(),
                                    category: category@,
                                    picture: picture@,
                                    with_ai,
                                    price,
                                    mentor_id: mentor_id@,
                                    modules_ids: Seq::empty(),
                                    created_at,
                                    updated_at: created_at,
                                },
                            ),
                            course_count: (old(self).course_count + 1) as u64,
                            ..old(self).deep_view()
                        },
                    )
                },
            ),
            r is Ok ==> r.unwrap() == old(self).course_count,
            old(self).deep_view().consistent() ==> final(self).deep_view().consistent(),
            old(self).deep_view().sound() ==> final(self).deep_view().sound(),
    {
        if caller != self.admin_id {
            return Err(Error::Unauthorized);
        }
        if self.course_count == u64::MAX {
            return Err(Error::CapacityExceeded);
        }
        let id = self.course_count;
        let course = Course {
            id,
            title,
            description,
            level,
            duration,
            status: CourseStatus::Draft,
            requirements,
            objectives,
            category,
            picture,
            with_ai,
            price,
            mentor_id,
            modules_ids: Vec::new(),
            created_at,
            updated_at: created_at,
        };
        assert(course.modules_ids@ =~= Seq::empty());
        let ghost before = self.courses;
        self.courses.push(course);
        self.course_count = id + 1;
        proof {
            lemma_deep_push(before, self.courses, course);
            if old(self).deep_view().consistent() {
                lemma_new_course_keeps_consistent(old(self).deep_view(), course.deep_view());
            }
            if old(self).deep_view().sound() {
                lemma_new_course_keeps_catalog(old(self).deep_view(), self.deep_view());
                lemma_rows_survive_catalog_change(old(self).deep_view(), self.deep_view());
            }
        }
        Ok(id)
    }

    /// Adds a module at the end of a course and returns it. The caller must be the
    /// platform's administrator account.
    pub fn save_module_by_admin(
        &mut self,
        caller: String,
        course_id: u64,
        title: String,
        description: String,
        status: String,
        order: u64,
        with_ai: bool,
        created_at: u64,
    ) -> (r: Result<Module, Error>)
        ensures
            transition(
                r,
                old(self).deep_view(),
                final(self).deep_view(),
                if caller@ != old(self).admin_id@ {
                    Err(Error::Unauthorized)
                } else if old(self).deep_view().course_pos(course_id) is None {
                    Err(Error::NotFound)
                } else if old(self).module_count == u64::MAX {
                    Err(Error::CapacityExceeded)
                } else {
                    Ok(
                        old(self).deep_view().with_module(
                            ModuleView {
                                id: old(self).module_count,
                                title: title@,
                                description: description@,
                                status: status@,
                                order,
                                with_ai,
                                created_at,
                                updated_at: created_at,
                                course_id,
                                lessons_ids: Seq::empty(),
                                quizz_id: None,
                            },
                        ),
                    )
                },
            ),
            r is Ok ==> r.unwrap().deep_view() == final(self).deep_view().modules.last(),
            old(self).deep_view().consistent() ==> final(self).deep_view().consistent(),
            old(self).deep_view().sound() ==> final(self).deep_view().sound(),
    {
        if caller != self.admin_id {
            return Err(Error::Unauthorized);
        }
        let c = match self.course_index(course_id) {
            Some(c) => c,
            None => {
                return Err(Error::NotFound);
            },
        };
        if self.module_count == u64::MAX {
            return Err(Error::CapacityExceeded);
        }
        let module = Module {
            id: self.module_count,
            title,
            description,
            status,
            order,
            with_ai,
            created_at,
            updated_at: created_at,
            course_id,
            lessons_ids: Vec::new(),
            quizz_id: None,
        };
        assert(module.lessons_ids@ =~= Seq::empty());
        let copy = module.clone();
        self.attach_module(c, module);
        Ok(copy)
    }

    /// Adds a lesson at the end of a module. The caller must be the platform's
    /// administrator account.
    pub fn save_lesson_by_admin(
        &mut self,
        caller: String,
        module_id: u64,
        title: String,
        description: String,
        video_url: String,
        article: String,
        order: u64,
        with_ai: bool,
        created_at: u64,
    ) -> (r: Result<(), Error>)
        ensures
            transition(
                r,
                old(self).deep_view(),
                final(self).deep_view(),
                if caller@ != old(self).admin_id@ {
                    Err(Error::Unauthorized)
                } else if old(self).deep_view().module_pos(module_id) is None {
                    Err(Error::NotFound)
                } else if old(self).lesson_count == u64::MAX {
                    Err(Error::CapacityExceeded)
                } else {
                    Ok(
                        old(self).deep_view().with_lesson(
                            LessonView {
                                id: old(self).lesson_count,
                                title: title@,
                                description: description@,
                                video_url: video_url@,
                                article: article@,
                                order,
                                with_ai,
                                module_id,
                                created_at,
                                updated_at: created_at,
                            },
                        ),
                    )
                },
            ),
            old(self).deep_view().consistent() ==> final(self).deep_view().consistent(),
            old(self).deep_view().sound() ==> final(self).deep_view().sound(),
    {
        if caller != self.admin_id {
            return Err(Error::Unauthorized);
        }
        let m = match self.module_index(module_id) {
            Some(m) => m,
            None => {
                return Err(Error::NotFound);
            },
        };
        if self.lesson_count == u64::MAX {
            return Err(Error::CapacityExceeded);
        }
        let lesson = Lesson {
            id: self.lesson_count,
            title,
            description,
            video_url,
            article,
            order,
            with_ai,
            module_id,
            created_at,
            updated_at: created_at,
        };
        self.attach_lesson(m, lesson);
        Ok(())
    }

    /// Rewrites the content, order and flags of a lesson and returns the lesson as stored.
    /// The caller must be the platform's administrator account.
    pub fn update_lesson_by_admin(
        &mut self,
        caller: String,
        lesson_id: u64,
        title: String,
        description: String,
        video_url: String,
        article: String,
        order: u64,
        with_ai: bool,
        updated_at: u64,
    ) -> (r: Result<Lesson, Error>)
        ensures
            transition(
                r,
                old(self).deep_view(),
                final(self).deep_view(),
                if caller@ != old(self).admin_id@ {
                    Err(Error::Unauthorized)
                } else {
                    match old(self).deep_view().lesson_pos(lesson_id) {
                        None => Err(Error::NotFound),
                        Some(l) => Ok(
                            ContractView {
                                lessons: old(self).deep_view().lessons.update(
                                    l,
                                    LessonView {
                                        title: title@,
                                        description: description@,
                                        video_url: video_url@,
                                        article: article@,
                                        order,
                                        with_ai,
                                        updated_at,
                                        ..old(self).deep_view().lessons[l]
                                    },
                                ),
                                ..old(self).deep_view()
                            },
                        ),
                    }
                },
            ),
            r is Ok ==> Some(r.unwrap().deep_view()) == final(self).deep_view().lesson(lesson_id),
            old(self).deep_view().consistent() ==> final(self).deep_view().consistent(),
            old(self).deep_view().sound() ==> final(self).deep_view().sound(),
    {
        if caller != self.admin_id {
            return Err(Error::Unauthorized);
        }
        let l = match self.lesson_index(lesson_id) {
            Some(l) => l,
            None => {
                return Err(Error::NotFound);
            },
        };
        self.lessons[l].title = title;
        self.lessons[l].description = description;
        self.lessons[l].video_url = video_url;
        self.lessons[l].article = article;
        self.lessons[l].order = order;
        self.lessons[l].with_ai = with_ai;
        self.lessons[l].updated_at = updated_at;
        proof {
            let st = old(self).deep_view();
            assert(self.lessons.deep_view() =~= st.lessons.update(
                l as int,
                LessonView {
                    title: title@,
                    description: description@,
                    video_url: video_url@,
                    article: article@,
                    order,
                    with_ai,
                    updated_at,
                    ..st.lessons[l as int]
                },
            ));
            crate::seqs::lemma_first_where_same(
                self.deep_view().lessons,
                crate::contract::lesson_is(lesson_id),
                st.lessons,
                crate::contract::lesson_is(lesson_id),
            );
            if old(self).deep_view().consistent() {
                lemma_same_links_stay_consistent(old(self).deep_view(), self.deep_view());
            }
            if old(self).deep_view().sound() {
                lemma_same_rows_stay_consistent(old(self).deep_view(), self.deep_view());
            }
        }
        Ok(self.lessons[l].clone())
    }

    /// Rewrites the name, e-mail address, username and phone number of a user and returns
    /// the user as stored. The caller must be the platform's administrator account.
    pub fn update_user_min_info_by_admin(
        &mut self,
        caller: String,
        account_id: String,
        name: String,
        email: String,
        username: String,
        phone: String,
        updated_at: u64,
    ) -> (r: Result<User, Error>)
        ensures
            transition(
                r,
                old(self).deep_view(),
                final(self).deep_view(),
                if caller@ != old(self).admin_id@ {
                    Err(Error::Unauthorized)
                } else {
                    match old(self).deep_view().user_pos(account_id@) {
                        None => Err(Error::NotFound),
                        Some(u) => Ok(
                            ContractView {
                                users: old(self).deep_view().users.update(
                                    u,
                                    UserView {
                                        name: name@,
                                        email: email@,
                                        username: username@,
                                        phone: phone@,
                                        updated_at,
                                        ..old(self).deep_view().users[u]
                                    },
                                ),
                                ..old(self).deep_view()
                            },
                        ),
                    }
                },
            ),
            r is Ok ==> Some(r.unwrap().deep_view()) == final(self).deep_view().user(account_id@),
            old(self).deep_view().consistent() ==> final(self).deep_view().consistent(),
            old(self).deep_view().sound() ==> final(self).deep_view().sound(),
    {
        if caller != self.admin_id {
            return Err(Error::Unauthorized);
        }
        let u = match self.user_index(&account_id) {
            Some(u) => u,
            None => {
                return Err(Error::NotFound);
            },
        };
        self.users[u].name = name;
        self.users[u].email = email;
        self.users[u].username = username;
        self.users[u].phone = phone;
        self.users[u].updated_at = updated_at;
        proof {
            let st = old(self).deep_view();
            assert(self.users.deep_view() =~= st.users.update(
                u as int,
                UserView {
                    name: name@,
                    email: email@,
                    username: username@,
                    phone: phone@,
                    updated_at,
                    ..st.users[u as int]
                },
            ));
            crate::seqs::lemma_first_where_same(
                self.deep_view().users,
                crate::contract::user_is(account_id@),
                st.users,
                crate::contract::user_is(account_id@),
            );
            if old(self).deep_view().consistent() {
                lemma_same_links_stay_consistent(old(self).deep_view(), self.deep_view());
            }
            if old(self).deep_view().sound() {
                lemma_same_rows_stay_consistent(old(self).deep_view(), self.deep_view());
            }
        }
        Ok(self.users[u].clone())
    }
}

} // verus!
