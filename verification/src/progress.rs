use crate::contract::{Contract, ContractView};
use crate::error::Error;
use crate::models::{
    EnrollmentStatus, EnrollmentView, LessonProgressStatus, LessonProgressView,
    ModuleProgressStatus, ModuleProgressView, ModuleView, QuizzProgressStatus, QuizzProgressView,
};
use crate::quiz::{same_questions, Question, QuestionView};
use crate::seqs::{first_from, first_where, lemma_first_where};
use crate::consistency::lemma_same_links_stay_consistent;
use crate::rows::lemma_same_rows_stay_consistent;
use vstd::prelude::*;

verus! {

/// What a re-evaluation of one module for one student has decided, before anything is
/// written: which progress row belongs to the module, whether the module is now complete,
/// and, where the whole course is then complete, which enrollment row to close.
#[derive(Clone, Copy, Debug)]
pub struct CascadePlan {
    pub module_row: usize,
    pub module_completes: bool,
    pub enrollment_row: Option<usize>,
}

/// The mathematical value of a [`CascadePlan`].
pub struct Cascade {
    pub module_row: int,
    pub module_completes: bool,
    pub enrollment_row: Option<int>,
}

impl DeepView for CascadePlan {
    type V = Cascade;

    open spec fn deep_view(&self) -> Cascade {
        Cascade {
            module_row: self.module_row as int,
            module_completes: self.module_completes,
            enrollment_row: match self.enrollment_row {
                Some(e) => Some(e as int),
                None => None,
            },
        }
    }
}

/// How an operation on the platform ended: on success the platform is in the state that the
/// model gives, on failure the error is the model's and the platform is as it was.
pub open spec fn transition<T>(
    r: Result<T, Error>,
    before: ContractView,
    after: ContractView,
    expected: Result<ContractView, Error>,
) -> bool {
    match r {
        Ok(_) => expected == Ok::<ContractView, Error>(after),
        Err(e) => expected == Err::<ContractView, Error>(e) && after == before,
    }
}

impl ContractView {
    /// The student has a progress row for the lesson, and it says completed.
    pub open spec fn lesson_done(self, lesson_id: u64, student: Seq<char>) -> bool {
        match self.lesson_progress(lesson_id, student) {
            Some(p) => p.status == LessonProgressStatus::Completed,
            None => false,
        }
    }

    /// The student has a progress row for the module, and it says completed.
    pub open spec fn module_done(self, module_id: u64, student: Seq<char>) -> bool {
        match self.module_progress(module_id, student) {
            Some(p) => p.status == ModuleProgressStatus::Completed,
            None => false,
        }
    }

    /// The student has a progress row for the quiz, and it says completed.
    pub open spec fn quizz_done(self, quizz_id: u64, student: Seq<char>) -> bool {
        match self.quizz_progress(quizz_id, student) {
            Some(p) => p.status == QuizzProgressStatus::Completed,
            None => false,
        }
    }
}

/// Recognises a lesson that still stands between the student and the module's completion:
/// one that is neither completed nor the lesson being completed by the current operation.
pub open spec fn lesson_open(st: ContractView, student: Seq<char>, just_done: Option<u64>)
    -> spec_fn(u64) -> bool {
    |lesson_id: u64| just_done != Some(lesson_id) && !st.lesson_done(lesson_id, student)
}

/// Recognises a module that still stands between the student and the course's completion.
pub open spec fn module_open(st: ContractView, student: Seq<char>, just_done: Option<u64>)
    -> spec_fn(u64) -> bool {
    |module_id: u64| just_done != Some(module_id) && !st.module_done(module_id, student)
}

/// Whether every lesson of the list is completed, read in list order up to the first one
/// that is not: if the student has no progress row for that one, the store is inconsistent.
pub open spec fn lessons_complete(
    st: ContractView,
    lessons: Seq<u64>,
    student: Seq<char>,
    just_done: Option<u64>,
) -> Result<bool, Error> {
    match first_where(lessons, lesson_open(st, student, just_done)) {
        None => Ok(true),
        Some(k) => if st.lesson_progress_pos(lessons[k], student) is None {
            Err(Error::IntegrityViolation)
        } else {
            Ok(false)
        },
    }
}

/// Whether every module of the list is completed, read as [`lessons_complete`] reads lessons.
pub open spec fn modules_complete(
    st: ContractView,
    modules: Seq<u64>,
    student: Seq<char>,
    just_done: Option<u64>,
) -> Result<bool, Error> {
    match first_where(modules, module_open(st, student, just_done)) {
        None => Ok(true),
        Some(k) => if st.module_progress_pos(modules[k], student) is None {
            Err(Error::IntegrityViolation)
        } else {
            Ok(false)
        },
    }
}

/// Whether the module's quiz, if it has one, is out of the way: completed, or the quiz being
/// passed by the current operation.
pub open spec fn quizz_passed(
    st: ContractView,
    module: ModuleView,
    student: Seq<char>,
    just_passed: Option<u64>,
) -> Result<bool, Error> {
    match module.quizz_id {
        None => Ok(true),
        Some(q) => if just_passed == Some(q) {
            Ok(true)
        } else {
            match st.quizz_progress(q, student) {
                None => Err(Error::IntegrityViolation),
                Some(p) => Ok(p.status == QuizzProgressStatus::Completed),
            }
        },
    }
}

/// The re-evaluation of one module for one student, as a function of the progress state.
///
/// The module is complete when all its lessons are completed and its quiz, if any, is
/// completed; the course is complete when all its modules are. `lesson_now` and `quizz_now`
/// name what the current operation is about to record as completed. A record that the
/// evaluation has to read and that is missing makes it an integrity violation.
pub open spec fn plan_cascade(
    st: ContractView,
    module_id: u64,
    student: Seq<char>,
    lesson_now: Option<u64>,
    quizz_now: Option<u64>,
) -> Result<Cascade, Error> {
    match (st.module_progress_pos(module_id, student), st.module(module_id)) {
        (Some(row), Some(m)) => match (
            quizz_passed(st, m, student, quizz_now),
            lessons_complete(st, m.lessons_ids, student, lesson_now),
            st.course(m.course_id),
        ) {
            (Ok(quizz_ok), Ok(lessons_ok), Some(c)) => {
                let completes = quizz_ok && lessons_ok;
                let closed = if completes {
                    Some(module_id)
                } else {
                    None
                };
                match modules_complete(st, c.modules_ids, student, closed) {
                    Err(e) => Err(e),
                    Ok(false) => Ok(
                        Cascade { module_row: row, module_completes: completes, enrollment_row: None },
                    ),
                    Ok(true) => match st.enrollment_pos(m.course_id, student) {
                        None => Err(Error::IntegrityViolation),
                        Some(e) => Ok(
                            Cascade {
                                module_row: row,
                                module_completes: completes,
                                enrollment_row: Some(e),
                            },
                        ),
                    },
                }
            },
            _ => Err(Error::IntegrityViolation),
        },
        _ => Err(Error::IntegrityViolation),
    }
}

/// The state after a plan is carried out at time `now`: the module's row is closed if the
/// module is complete, and the enrollment row is closed if the course is.
pub open spec fn apply_cascade(st: ContractView, plan: Cascade, now: u64) -> ContractView {
    let st1 = if plan.module_completes {
        ContractView {
            module_progresses: st.module_progresses.update(
                plan.module_row,
                ModuleProgressView {
                    status: ModuleProgressStatus::Completed,
                    completed_at: Some(now),
                    ..st.module_progresses[plan.module_row]
                },
            ),
            ..st
        }
    } else {
        st
    };
    match plan.enrollment_row {
        Some(e) => ContractView {
            enrollments: st1.enrollments.update(
                e,
                EnrollmentView {
                    status: EnrollmentStatus::Completed,
                    completed_at: Some(now),
                    ..st1.enrollments[e]
                },
            ),
            ..st1
        },
        None => st1,
    }
}

/// The state after the lesson progress row at `row` is closed at time `now`.
pub open spec fn finish_lesson(st: ContractView, row: int, now: u64) -> ContractView {
    ContractView {
        lesson_progresses: st.lesson_progresses.update(
            row,
            LessonProgressView {
                status: LessonProgressStatus::Completed,
                completed_at: Some(now),
                ..st.lesson_progresses[row]
            },
        ),
        ..st
    }
}

/// The state after the module progress row at `row` is marked started, if it was not started.
pub open spec fn start_module(st: ContractView, row: int) -> ContractView {
    if st.module_progresses[row].status == ModuleProgressStatus::NotStarted {
        ContractView {
            module_progresses: st.module_progresses.update(
                row,
                ModuleProgressView {
                    status: ModuleProgressStatus::Started,
                    ..st.module_progresses[row]
                },
            ),
            ..st
        }
    } else {
        st
    }
}

/// The state after one graded attempt is recorded in the quiz progress row at `row`.
pub open spec fn record_attempt(st: ContractView, row: int, correct: bool) -> ContractView {
    let old_row = st.quizz_progresses[row];
    ContractView {
        quizz_progresses: st.quizz_progresses.update(
            row,
            QuizzProgressView {
                status: if correct {
                    QuizzProgressStatus::Completed
                } else {
                    QuizzProgressStatus::Submitted
                },
                try_count: (old_row.try_count + 1) as u16,
                is_submitted: true,
                is_correct: correct,
                ..old_row
            },
        ),
        ..st
    }
}

/// What re-evaluating a module for a student at time `now` does to the platform.
pub open spec fn reevaluate_outcome(
    st: ContractView,
    module_id: u64,
    student: Seq<char>,
    now: u64,
) -> Result<ContractView, Error> {
    match plan_cascade(st, module_id, student, None, None) {
        Err(e) => Err(e),
        Ok(plan) => Ok(apply_cascade(st, plan, now)),
    }
}

/// What completing a lesson does to the platform.
///
/// The lesson must exist, the caller must hold an enrolled progress row for it, and the row
/// must not be completed yet. The row is then closed at `now`, the module is marked started
/// if this is the first lesson completed in it, and the module and the course are
/// re-evaluated.
pub open spec fn complete_lesson_outcome(
    st: ContractView,
    caller: Seq<char>,
    now: u64,
    lesson_id: u64,
) -> Result<ContractView, Error> {
    match st.lesson(lesson_id) {
        None => Err(Error::NotFound),
        Some(lesson) => match st.lesson_progress_pos(lesson_id, caller) {
            None => Err(Error::Unauthorized),
            Some(lp) => {
                let row = st.lesson_progresses[lp];
                if !row.is_enrolled {
                    Err(Error::Unauthorized)
                } else if row.status == LessonProgressStatus::Completed {
                    Err(Error::AlreadyInTerminalState)
                } else {
                    match plan_cascade(st, lesson.module_id, caller, Some(lesson_id), None) {
                        Err(e) => Err(e),
                        Ok(plan) => Ok(
                            apply_cascade(
                                start_module(finish_lesson(st, lp, now), plan.module_row),
                                plan,
                                now,
                            ),
                        ),
                    }
                }
            },
        },
    }
}

/// What submitting answers to a quiz does to the platform.
///
/// The quiz must exist, the caller must hold an enrolled progress row for it that is not
/// yet correct, and as many questions must be submitted as the quiz has. The attempt is
/// counted; it is correct when the submission equals the quiz's questions, position by
/// position. A correct attempt completes the quiz and re-evaluates its module and course;
/// an incorrect one leaves the quiz open for another attempt.
pub open spec fn submit_quizz_outcome(
    st: ContractView,
    caller: Seq<char>,
    now: u64,
    quizz_id: u64,
    submitted: Seq<QuestionView>,
) -> Result<ContractView, Error> {
    match st.quizz(quizz_id) {
        None => Err(Error::NotFound),
        Some(quizz) => match st.quizz_progress_pos(quizz_id, caller) {
            None => Err(Error::Unauthorized),
            Some(qp) => {
                let row = st.quizz_progresses[qp];
                if !row.is_enrolled {
                    Err(Error::Unauthorized)
                } else if row.is_correct {
                    Err(Error::AlreadyInTerminalState)
                } else if submitted.len() != quizz.questions.len() {
                    Err(Error::ArityMismatch)
                } else if row.try_count == u16::MAX {
                    Err(Error::CapacityExceeded)
                } else if submitted == quizz.questions {
                    match plan_cascade(st, quizz.module_id, caller, None, Some(quizz_id)) {
                        Err(e) => Err(e),
                        Ok(plan) => Ok(apply_cascade(record_attempt(st, qp, true), plan, now)),
                    }
                } else {
                    Ok(record_attempt(st, qp, false))
                }
            },
        },
    }
}

fn is_id(x: Option<u64>, id: u64) -> (r: bool)
    ensures
        r == (x == Some(id)),
{
    match x {
        Some(v) => v == id,
        None => false,
    }
}

impl Contract {
    /// Whether the student has completed every lesson of the list, counting `just_done`
    /// as completed.
    pub fn lessons_complete(&self, lessons: &Vec<u64>, student: &String, just_done: Option<u64>) -> (r:
        Result<bool, Error>)
        ensures
            r == lessons_complete(self.deep_view(), lessons@, student@, just_done),
    {
        let ghost open = lesson_open(self.deep_view(), student@, just_done);
        let mut i: usize = 0;
        while i < lessons.len()
            invariant
                i <= lessons.len(),
                open == lesson_open(self.deep_view(), student@, just_done),
                first_from(lessons@, open, i as int) == first_where(lessons@, open),
            decreases lessons.len() - i,
        {
            let id = lessons[i];
            if !is_id(just_done, id) {
                match self.lesson_progress_index(id, student) {
                    None => {
                        return Err(Error::IntegrityViolation);
                    },
                    Some(p) => {
                        if self.lesson_progresses[p].status != LessonProgressStatus::Completed {
                            return Ok(false);
                        }
                    },
                }
            }
            i += 1;
        }
        Ok(true)
    }

    /// Whether the student has completed every module of the list, counting `just_done`
    /// as completed.
    pub fn modules_complete(&self, modules: &Vec<u64>, student: &String, just_done: Option<u64>) -> (r:
        Result<bool, Error>)
        ensures
            r == modules_complete(self.deep_view(), modules@, student@, just_done),
    {
        let ghost open = module_open(self.deep_view(), student@, just_done);
        let mut i: usize = 0;
        while i < modules.len()
            invariant
                i <= modules.len(),
                open == module_open(self.deep_view(), student@, just_done),
                first_from(modules@, open, i as int) == first_where(modules@, open),
            decreases modules.len() - i,
        {
            let id = modules[i];
            if !is_id(just_done, id) {
                match self.module_progress_index(id, student) {
                    None => {
                        return Err(Error::IntegrityViolation);
                    },
                    Some(p) => {
                        if self.module_progresses[p].status != ModuleProgressStatus::Completed {
                            return Ok(false);
                        }
                    },
                }
            }
            i += 1;
        }
        Ok(true)
    }

    /// Re-evaluates one module and its course for one student without writing anything.
    pub fn plan_cascade(
        &self,
        module_id: u64,
        student: &String,
        lesson_now: Option<u64>,
        quizz_now: Option<u64>,
    ) -> (r: Result<CascadePlan, Error>)
        ensures
            match r {
                Ok(plan) => plan_cascade(
                    self.deep_view(),
                    module_id,
                    student@,
                    lesson_now,
                    quizz_now,
                ) == Ok::<Cascade, Error>(plan.deep_view()),
                Err(e) => plan_cascade(self.deep_view(), module_id, student@, lesson_now, quizz_now)
                    == Err::<Cascade, Error>(e),
            },
            r is Ok ==> r.unwrap().module_row < self.module_progresses.len(),
            r is Ok && r.unwrap().enrollment_row is Some ==> r.unwrap().enrollment_row.unwrap()
                < self.enrollments.len(),
    {
        let row = match self.module_progress_index(module_id, student) {
            Some(row) => row,
            None => {
                return Err(Error::IntegrityViolation);
            },
        };
        let m = match self.module_index(module_id) {
            Some(m) => m,
            None => {
                return Err(Error::IntegrityViolation);
            },
        };
        let module = &self.modules[m];
        let quizz_ok = match module.quizz_id {
            None => true,
            Some(q) => {
                if is_id(quizz_now, q) {
                    true
                } else {
                    match self.quizz_progress_index(q, student) {
                        None => {
                            return Err(Error::IntegrityViolation);
                        },
                        Some(p) => self.quizz_progresses[p].status == QuizzProgressStatus::Completed,
                    }
                }
            },
        };
        let lessons_ok = match self.lessons_complete(&module.lessons_ids, student, lesson_now) {
            Ok(b) => b,
            Err(e) => {
                return Err(e);
            },
        };
        let c = match self.course_index(module.course_id) {
            Some(c) => c,
            None => {
                return Err(Error::IntegrityViolation);
            },
        };
        let completes = quizz_ok && lessons_ok;
        let closed = if completes {
            Some(module_id)
        } else {
            None
        };
        let all = match self.modules_complete(&self.courses[c].modules_ids, student, closed) {
            Ok(b) => b,
            Err(e) => {
                return Err(e);
            },
        };
        if all {
            match self.enrollment_index(module.course_id, student) {
                None => Err(Error::IntegrityViolation),
                Some(e) => Ok(
                    CascadePlan { module_row: row, module_completes: completes, enrollment_row: Some(e) },
                ),
            }
        } else {
            Ok(CascadePlan { module_row: row, module_completes: completes, enrollment_row: None })
        }
    }

    fn apply_cascade(&mut self, plan: CascadePlan, now: u64)
        requires
            plan.module_row < old(self).module_progresses.len(),
            plan.enrollment_row is Some ==> plan.enrollment_row.unwrap() < old(
                self,
            ).enrollments.len(),
        ensures
            final(self).deep_view() == apply_cascade(old(self).deep_view(), plan.deep_view(), now),
    {
        if plan.module_completes {
            let row = plan.module_row;
            self.module_progresses[row].status = ModuleProgressStatus::Completed;
            self.module_progresses[row].completed_at = Some(now);
            proof {
                let before = old(self).deep_view().module_progresses;
                assert(self.module_progresses.deep_view() =~= before.update(
                    row as int,
                    ModuleProgressView {
                        status: ModuleProgressStatus::Completed,
                        completed_at: Some(now),
                        ..before[row as int]
                    },
                ));
            }
        }
        match plan.enrollment_row {
            Some(e) => {
                self.enrollments[e].status = EnrollmentStatus::Completed;
                self.enrollments[e].completed_at = Some(now);
                proof {
                    let before = old(self).deep_view().enrollments;
                    assert(self.enrollments.deep_view() =~= before.update(
                        e as int,
                        EnrollmentView {
                            status: EnrollmentStatus::Completed,
                            completed_at: Some(now),
                            ..before[e as int]
                        },
                    ));
                }
            },
            None => {},
        }
    }

    /// Re-derives the completion of a module, and of its course, from the student's
    /// progress rows, and records it at time `now`.
    pub fn reevaluate(&mut self, module_id: u64, student: String, now: u64) -> (r: Result<(), Error>)
        ensures
            transition(
                r,
                old(self).deep_view(),
                final(self).deep_view(),
                reevaluate_outcome(old(self).deep_view(), module_id, student@, now),
            ),
            old(self).deep_view().consistent() ==> final(self).deep_view().consistent(),
            old(self).deep_view().sound() ==> final(self).deep_view().sound(),
    {
        match self.plan_cascade(module_id, &student, None, None) {
            Err(e) => Err(e),
            Ok(plan) => {
                self.apply_cascade(plan, now);
                proof {
                    if old(self).deep_view().consistent() {
                        lemma_same_links_stay_consistent(old(self).deep_view(), self.deep_view());
                    }
                    if old(self).deep_view().sound() {
                        lemma_same_rows_stay_consistent(old(self).deep_view(), self.deep_view());
                    }
                }
                Ok(())
            },
        }
    }

    /// Records that the caller has completed a lesson, at time `now`, and lets the
    /// completion propagate to the lesson's module and course.
    pub fn complete_lesson(&mut self, caller: String, now: u64, lesson_id: u64) -> (r: Result<
        (),
        Error,
    >)
        ensures
            transition(
                r,
                old(self).deep_view(),
                final(self).deep_view(),
                complete_lesson_outcome(old(self).deep_view(), caller@, now, lesson_id),
            ),
            old(self).deep_view().consistent() ==> final(self).deep_view().consistent(),
            old(self).deep_view().sound() ==> final(self).deep_view().sound(),
    {
        let l = match self.lesson_index(lesson_id) {
            Some(l) => l,
            None => {
                return Err(Error::NotFound);
            },
        };
        let lp = match self.lesson_progress_index(lesson_id, &caller) {
            Some(lp) => lp,
            None => {
                return Err(Error::Unauthorized);
            },
        };
        if !self.lesson_progresses[lp].is_enrolled {
            return Err(Error::Unauthorized);
        }
        if self.lesson_progresses[lp].status == LessonProgressStatus::Completed {
            return Err(Error::AlreadyInTerminalState);
        }
        let module_id = self.lessons[l].module_id;
        let plan = match self.plan_cascade(module_id, &caller, Some(lesson_id), None) {
            Ok(plan) => plan,
            Err(e) => {
                return Err(e);
            },
        };
        self.lesson_progresses[lp].status = LessonProgressStatus::Completed;
        self.lesson_progresses[lp].completed_at = Some(now);
        proof {
            let before = old(self).deep_view().lesson_progresses;
            assert(self.lesson_progresses.deep_view() =~= before.update(
                lp as int,
                LessonProgressView {
                    status: LessonProgressStatus::Completed,
                    completed_at: Some(now),
                    ..before[lp as int]
                },
            ));
            assert(self.deep_view() == finish_lesson(old(self).deep_view(), lp as int, now));
        }
        let row = plan.module_row;
        if self.module_progresses[row].status == ModuleProgressStatus::NotStarted {
            self.module_progresses[row].status = ModuleProgressStatus::Started;
            proof {
                let before = old(self).deep_view().module_progresses;
                assert(self.module_progresses.deep_view() =~= before.update(
                    row as int,
                    ModuleProgressView {
                        status: ModuleProgressStatus::Started,
                        ..before[row as int]
                    },
                ));
            }
        }
        assert(self.deep_view() == start_module(
            finish_lesson(old(self).deep_view(), lp as int, now),
            row as int,
        ));
        self.apply_cascade(plan, now);
        proof {
            if old(self).deep_view().consistent() {
                lemma_same_links_stay_consistent(old(self).deep_view(), self.deep_view());
            }
            if old(self).deep_view().sound() {
                lemma_same_rows_stay_consistent(old(self).deep_view(), self.deep_view());
            }
        }
        Ok(())
    }

    /// Grades the caller's answers to a quiz at time `now`, counts the attempt, and on a
    /// correct attempt lets the completion propagate to the quiz's module and course.
    pub fn submit_quizz(
        &mut self,
        caller: String,
        now: u64,
        quizz_id: u64,
        submitted_questions: Vec<Question>,
    ) -> (r: Result<(), Error>)
        ensures
            transition(
                r,
                old(self).deep_view(),
                final(self).deep_view(),
                submit_quizz_outcome(
                    old(self).deep_view(),
                    caller@,
                    now,
                    quizz_id,
                    submitted_questions.deep_view(),
                ),
            ),
            old(self).deep_view().consistent() ==> final(self).deep_view().consistent(),
            old(self).deep_view().sound() ==> final(self).deep_view().sound(),
    {
        let q = match self.quizz_index(quizz_id) {
            Some(q) => q,
            None => {
                return Err(Error::NotFound);
            },
        };
        let qp = match self.quizz_progress_index(quizz_id, &caller) {
            Some(qp) => qp,
            None => {
                return Err(Error::Unauthorized);
            },
        };
        if !self.quizz_progresses[qp].is_enrolled {
            return Err(Error::Unauthorized);
        }
        if self.quizz_progresses[qp].is_correct {
            return Err(Error::AlreadyInTerminalState);
        }
        if submitted_questions.len() != self.quizzes[q].questions.len() {
            return Err(Error::ArityMismatch);
        }
        let tries = self.quizz_progresses[qp].try_count;
        if tries == u16::MAX {
            return Err(Error::CapacityExceeded);
        }
        let correct = same_questions(&submitted_questions, &self.quizzes[q].questions);
        if correct {
            let module_id = self.quizzes[q].module_id;
            let plan = match self.plan_cascade(module_id, &caller, None, Some(quizz_id)) {
                Ok(plan) => plan,
                Err(e) => {
                    return Err(e);
                },
            };
            self.record_attempt(qp, true);
            self.apply_cascade(plan, now);
        } else {
            self.record_attempt(qp, false);
        }
        proof {
            if old(self).deep_view().consistent() {
                lemma_same_links_stay_consistent(old(self).deep_view(), self.deep_view());
            }
            if old(self).deep_view().sound() {
                lemma_same_rows_stay_consistent(old(self).deep_view(), self.deep_view());
            }
        }
        Ok(())
    }

    fn record_attempt(&mut self, row: usize, correct: bool)
        requires
            row < old(self).quizz_progresses.len(),
            old(self).quizz_progresses[row as int].try_count < u16::MAX,
        ensures
            final(self).deep_view() == record_attempt(old(self).deep_view(), row as int, correct),
    {
        let tries = self.quizz_progresses[row].try_count;
        self.quizz_progresses[row].is_submitted = true;
        self.quizz_progresses[row].try_count = tries + 1;
        self.quizz_progresses[row].is_correct = correct;
        self.quizz_progresses[row].status = if correct {
            QuizzProgressStatus::Completed
        } else {
            QuizzProgressStatus::Submitted
        };
        proof {
            let before = old(self).deep_view().quizz_progresses;
            assert(self.quizz_progresses.deep_view() =~= before.update(
                row as int,
                QuizzProgressView {
                    status: if correct {
                        QuizzProgressStatus::Completed
                    } else {
                        QuizzProgressStatus::Submitted
                    },
                    try_count: (before[row as int].try_count + 1) as u16,
                    is_submitted: true,
                    is_correct: correct,
                    ..before[row as int]
                },
            ));
        }
    }
}

} // verus!
