use crate::contract::{Contract, ContractView};
use crate::models::{
    EnrollmentStatus, LessonProgressStatus, Role, UserView,
};
use crate::seqs::{first_from, first_where, lemma_first_where};
use vstd::prelude::*;

verus! {

/// Recognises a user who holds the account, the username or the e-mail address.
pub open spec fn user_clashes(account_id: Seq<char>, username: Seq<char>, email: Seq<char>)
    -> spec_fn(UserView) -> bool {
    |u: UserView| u.account_id == account_id || u.username == username || u.email == email
}

impl ContractView {
    /// The account belongs to a user with the administrator role.
    pub open spec fn is_admin(self, account_id: Seq<char>) -> bool {
        match self.user(account_id) {
            Some(u) => u.role == Role::Admin,
            None => false,
        }
    }

    /// The course exists and the account is its mentor.
    pub open spec fn is_course_mentor(self, course_id: u64, account_id: Seq<char>) -> bool {
        match self.course(course_id) {
            Some(c) => c.mentor_id == account_id,
            None => false,
        }
    }

    /// The account has an enrollment in the course, and it has this status.
    pub open spec fn enrollment_has_status(
        self,
        course_id: u64,
        account_id: Seq<char>,
        status: EnrollmentStatus,
    ) -> bool {
        match self.enrollment(course_id, account_id) {
            Some(e) => e.status == status,
            None => false,
        }
    }

    /// The module exists and the account has completed every lesson of it.
    pub open spec fn module_lessons_done(self, module_id: u64, account_id: Seq<char>) -> bool {
        match self.module(module_id) {
            Some(m) => forall|k: int|
                0 <= k < m.lessons_ids.len() ==> self.lesson_done(
                    #[trigger] m.lessons_ids[k],
                    account_id,
                ),
            None => false,
        }
    }
}

impl Contract {
    /// A greeting, to see that the platform answers.
    pub fn hello_msg(&self) -> (r: String)
        ensures
            r@ == "Hello, World!"@,
    {
        "Hello, World!".to_owned()
    }

    /// Whether a user holds the account.
    pub fn user_exists_by_account_id(&self, account_id: String) -> (r: bool)
        ensures
            r == (self.deep_view().user(account_id@) is Some),
    {
        self.user_index(&account_id).is_some()
    }

    /// Whether a user holds the account, the username or the e-mail address.
    pub fn user_exists(&self, account_id: String, username: String, email: String) -> (r: bool)
        ensures
            r == (first_where(self.deep_view().users, user_clashes(account_id@, username@, email@))
                is Some),
    {
        let ghost p = user_clashes(account_id@, username@, email@);
        let mut i: usize = 0;
        while i < self.users.len()
            invariant
                i <= self.users.len(),
                p == user_clashes(account_id@, username@, email@),
                first_from(self.users.deep_view(), p, i as int) == first_where(
                    self.users.deep_view(),
                    p,
                ),
            decreases self.users.len() - i,
        {
            if self.users[i].account_id == account_id || self.users[i].username == username
                || self.users[i].email == email {
                return true;
            }
            i += 1;
        }
        false
    }

    /// Whether the account belongs to an administrator.
    pub fn is_admin(&self, account_id: String) -> (r: bool)
        ensures
            r == self.deep_view().is_admin(account_id@),
    {
        match self.user_index(&account_id) {
            Some(u) => self.users[u].role == Role::Admin,
            None => false,
        }
    }

    /// Whether the course exists and the account is its mentor.
    pub fn is_course_mentor(&self, course_id: u64, account_id: String) -> (r: bool)
        ensures
            r == self.deep_view().is_course_mentor(course_id, account_id@),
    {
        match self.course_index(course_id) {
            Some(c) => self.courses[c].mentor_id == account_id,
            None => false,
        }
    }

    /// Whether the course is in the account's cart.
    pub fn is_student_course_carted(&self, course_id: u64, account_id: String) -> (r: bool)
        ensures
            r == self.deep_view().enrollment_has_status(
                course_id,
                account_id@,
                EnrollmentStatus::Carted,
            ),
    {
        match self.enrollment_index(course_id, &account_id) {
            Some(e) => self.enrollments[e].status == EnrollmentStatus::Carted,
            None => false,
        }
    }

    /// Whether the account is enrolled in the course and has not completed it.
    pub fn is_student_course_enrolled(&self, course_id: u64, account_id: String) -> (r: bool)
        ensures
            r == self.deep_view().enrollment_has_status(
                course_id,
                account_id@,
                EnrollmentStatus::Enrolled,
            ),
    {
        match self.enrollment_index(course_id, &account_id) {
            Some(e) => self.enrollments[e].status == EnrollmentStatus::Enrolled,
            None => false,
        }
    }

    /// Whether the account has completed the course.
    pub fn is_student_course_completed(&self, course_id: u64, account_id: String) -> (r: bool)
        ensures
            r == self.deep_view().enrollment_has_status(
                course_id,
                account_id@,
                EnrollmentStatus::Completed,
            ),
    {
        match self.enrollment_index(course_id, &account_id) {
            Some(e) => self.enrollments[e].status == EnrollmentStatus::Completed,
            None => false,
        }
    }

    /// Whether the account holds an enrolled progress row for the module.
    pub fn is_student_module_enrolled(&self, module_id: u64, account_id: String) -> (r: bool)
        ensures
            r == match self.deep_view().module_progress(module_id, account_id@) {
                Some(p) => p.is_enrolled,
                None => false,
            },
    {
        match self.module_progress_index(module_id, &account_id) {
            Some(p) => self.module_progresses[p].is_enrolled,
            None => false,
        }
    }

    /// Whether the account holds an enrolled progress row for the lesson.
    pub fn is_student_lesson_enrolled(&self, lesson_id: u64, account_id: String) -> (r: bool)
        ensures
            r == match self.deep_view().lesson_progress(lesson_id, account_id@) {
                Some(p) => p.is_enrolled,
                None => false,
            },
    {
        match self.lesson_progress_index(lesson_id, &account_id) {
            Some(p) => self.lesson_progresses[p].is_enrolled,
            None => false,
        }
    }

    /// Whether the account has completed the lesson.
    pub fn is_student_lesson_completed(&self, lesson_id: u64, account_id: String) -> (r: bool)
        ensures
            r == self.deep_view().lesson_done(lesson_id, account_id@),
    {
        match self.lesson_progress_index(lesson_id, &account_id) {
            Some(p) => self.lesson_progresses[p].status == LessonProgressStatus::Completed,
            None => false,
        }
    }

    /// Whether the module exists and the account has completed every lesson of it.
    pub fn is_student_module_completed(&self, module_id: u64, account_id: String) -> (r: bool)
        ensures
            r == self.deep_view().module_lessons_done(module_id, account_id@),
    {
        let m = match self.module_index(module_id) {
            Some(m) => m,
            None => {
                return false;
            },
        };
        let lessons = &self.modules[m].lessons_ids;
        let mut i: usize = 0;
        while i < lessons.len()
            invariant
                i <= lessons.len(),
                self.deep_view().module(module_id) is Some,
                self.deep_view().module(module_id).unwrap().lessons_ids == lessons@,
                forall|k: int|
                    0 <= k < i ==> self.deep_view().lesson_done(#[trigger] lessons@[k], account_id@),
            decreases lessons.len() - i,
        {
            match self.lesson_progress_index(lessons[i], &account_id) {
                Some(p) => {
                    if self.lesson_progresses[p].status != LessonProgressStatus::Completed {
                        assert(!self.deep_view().lesson_done(lessons@[i as int], account_id@));
                        return false;
                    }
                },
                None => {
                    assert(!self.deep_view().lesson_done(lessons@[i as int], account_id@));
                    return false;
                },
            }
            i += 1;
        }
        true
    }
}

} // verus!
