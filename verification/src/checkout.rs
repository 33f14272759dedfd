use crate::contract::{Contract, ContractView};
use crate::error::Error;
use crate::models::{
    Course, CourseView, EnrollmentStatus, EnrollmentView, LessonProgress, LessonProgressStatus,
    LessonProgressView, ModuleProgress, ModuleProgressStatus, ModuleProgressView, QuizzProgress,
    QuizzProgressStatus, QuizzProgressView, Transfer, TransferView,
};
use crate::seqs::{
    collect, gather, lemma_collect_step, lemma_deep_push, lemma_gather_step,
};
use crate::consistency::lemma_same_links_stay_consistent;
use crate::rows::lemma_checkout_keeps_rows;
use vstd::prelude::*;

verus! {

/// The platform fee on a price: ten percent, rounded down.
pub open spec fn fee(price: u128) -> int {
    (price * 10) / 100
}

/// What a buyer pays for a course: its price and the fee on it.
pub open spec fn price_with_fee(price: u128) -> int {
    price + fee(price)
}

/// What a buyer pays for a list of courses.
pub open spec fn courses_total_with_fee(courses: Seq<CourseView>) -> int
    decreases courses.len(),
{
    if courses.len() == 0 {
        0
    } else {
        courses_total_with_fee(courses.drop_last()) + price_with_fee(courses.last().price)
    }
}

/// Recognises an enrollment that sits in the account's cart.
pub open spec fn in_cart_of(account: Seq<char>) -> spec_fn(EnrollmentView) -> bool {
    |e: EnrollmentView| e.student_id == account && e.status == EnrollmentStatus::Carted
}

/// The course behind an enrollment in the account's cart, where the catalog has it.
pub open spec fn carted_course(st: ContractView, account: Seq<char>) -> spec_fn(
    EnrollmentView,
) -> Option<CourseView> {
    |e: EnrollmentView|
        if in_cart_of(account)(e) {
            st.course(e.course_id)
        } else {
            None
        }
}

/// The course id of an enrollment in the account's cart.
pub open spec fn carted_course_id(account: Seq<char>) -> spec_fn(EnrollmentView) -> Option<u64> {
    |e: EnrollmentView|
        if in_cart_of(account)(e) {
            Some(e.course_id)
        } else {
            None
        }
}

/// The modules of a course, or nothing for an id that the catalog does not have.
pub open spec fn modules_of(st: ContractView) -> spec_fn(u64) -> Seq<u64> {
    |course_id: u64|
        match st.course(course_id) {
            Some(c) => c.modules_ids,
            None => Seq::empty(),
        }
}

/// The quiz of a module, if the module exists and has one.
pub open spec fn quizz_of(st: ContractView) -> spec_fn(u64) -> Option<u64> {
    |module_id: u64|
        match st.module(module_id) {
            Some(m) => m.quizz_id,
            None => None,
        }
}

/// A lesson id, if the catalog has the lesson.
pub open spec fn stored_lesson(st: ContractView) -> spec_fn(u64) -> Option<u64> {
    |lesson_id: u64|
        if st.lesson(lesson_id) is Some {
            Some(lesson_id)
        } else {
            None
        }
}

/// The lessons of a module that the catalog has, in the module's order.
pub open spec fn lessons_of(st: ContractView) -> spec_fn(u64) -> Seq<u64> {
    |module_id: u64|
        match st.module(module_id) {
            Some(m) => collect(m.lessons_ids, stored_lesson(st)),
            None => Seq::empty(),
        }
}

impl ContractView {
    /// The courses in the account's cart, in the order in which they were carted.
    pub open spec fn carted_courses(self, account: Seq<char>) -> Seq<CourseView> {
        collect(self.enrollments, carted_course(self, account))
    }

    /// What the account has to attach to check its cart out.
    pub open spec fn required_payment(self, account: Seq<char>) -> int {
        courses_total_with_fee(self.carted_courses(account))
    }

    /// The ids of the courses that a checkout by the account enrolls it in.
    pub open spec fn checkout_courses(self, account: Seq<char>) -> Seq<u64> {
        collect(self.enrollments, carted_course_id(account))
    }

    /// The modules that a checkout of these courses creates progress rows for: every module
    /// of every course, in order.
    pub open spec fn checkout_modules(self, courses: Seq<u64>) -> Seq<u64> {
        gather(courses, modules_of(self))
    }

    /// The quizzes that a checkout of these modules creates progress rows for: the quiz of
    /// every module that has one.
    pub open spec fn checkout_quizzes(self, modules: Seq<u64>) -> Seq<u64> {
        collect(modules, quizz_of(self))
    }

    /// The lessons that a checkout of these modules creates progress rows for: every lesson
    /// of every module.
    pub open spec fn checkout_lessons(self, modules: Seq<u64>) -> Seq<u64> {
        gather(modules, lessons_of(self))
    }

    /// The module is in the catalog, and so is its quiz, if it has one.
    pub open spec fn module_ready(self, module_id: u64) -> bool {
        match self.module(module_id) {
            Some(m) => match m.quizz_id {
                Some(q) => self.quizz(q) is Some,
                None => true,
            },
            None => false,
        }
    }

    /// Every one of these courses is in the catalog.
    pub open spec fn courses_stored(self, courses: Seq<u64>) -> bool {
        forall|k: int| 0 <= k < courses.len() ==> self.course(#[trigger] courses[k]) is Some
    }

    /// Every one of these modules is in the catalog, with its quiz.
    pub open spec fn modules_ready(self, modules: Seq<u64>) -> bool {
        forall|k: int| 0 <= k < modules.len() ==> self.module_ready(#[trigger] modules[k])
    }

    /// Every course, module and quiz that a checkout by the account has to read is there.
    pub open spec fn checkout_consistent(self, account: Seq<char>) -> bool {
        let courses = self.checkout_courses(account);
        self.courses_stored(courses) && self.modules_ready(self.checkout_modules(courses))
    }
}

/// Fresh module progress rows for a student, one per module, with consecutive ids from `base`.
pub open spec fn module_rows(modules: Seq<u64>, student: Seq<char>, base: u64) -> Seq<
    ModuleProgressView,
> {
    Seq::new(
        modules.len(),
        |k: int|
            ModuleProgressView {
                id: (base + k) as u64,
                module_id: modules[k],
                student_id: student,
                status: ModuleProgressStatus::NotStarted,
                is_enrolled: true,
                progress: 0,
                completed_at: None,
            },
    )
}

/// Fresh quiz progress rows for a student, one per quiz, with consecutive ids from `base`.
pub open spec fn quizz_rows(quizzes: Seq<u64>, student: Seq<char>, base: u64) -> Seq<
    QuizzProgressView,
> {
    Seq::new(
        quizzes.len(),
        |k: int|
            QuizzProgressView {
                id: (base + k) as u64,
                quizz_id: quizzes[k],
                student_id: student,
                status: QuizzProgressStatus::NotStarted,
                try_count: 0,
                is_enrolled: true,
                is_submitted: false,
                is_correct: false,
                completed_at: None,
            },
    )
}

/// Fresh lesson progress rows for a student, one per lesson, with consecutive ids from `base`.
pub open spec fn lesson_rows(lessons: Seq<u64>, student: Seq<char>, base: u64) -> Seq<
    LessonProgressView,
> {
    Seq::new(
        lessons.len(),
        |k: int|
            LessonProgressView {
                id: (base + k) as u64,
                lesson_id: lessons[k],
                student_id: student,
                status: LessonProgressStatus::NotStarted,
                is_enrolled: true,
                completed_at: None,
            },
    )
}

/// The enrollments after a checkout by the account at time `now`: what was in its cart is
/// enrolled, everything else is as it was.
pub open spec fn enroll_cart(enrollments: Seq<EnrollmentView>, account: Seq<char>, now: u64) -> Seq<
    EnrollmentView,
> {
    Seq::new(
        enrollments.len(),
        |i: int|
            if in_cart_of(account)(enrollments[i]) {
                EnrollmentView {
                    status: EnrollmentStatus::Enrolled,
                    enrolled_at: Some(now),
                    updated_at: now,
                    ..enrollments[i]
                }
            } else {
                enrollments[i]
            },
    )
}

/// The transfers that a checkout of these courses asks for: to each course's mentor, the
/// course's price without the fee.
pub open spec fn owner_transfers(st: ContractView, courses: Seq<u64>) -> Seq<TransferView> {
    Seq::new(
        courses.len(),
        |k: int|
            TransferView {
                receiver_id: st.course(courses[k]).unwrap().mentor_id,
                amount: st.course(courses[k]).unwrap().price,
            },
    )
}

/// What a checkout by `caller` with `deposit` attached does to the platform at time `now`,
/// and the transfers it asks for.
///
/// The deposit must cover the price and fee of every carted course. Then every carted
/// enrollment of the caller becomes enrolled, and the caller gets one fresh progress row
/// for every module, quiz and lesson of those courses.
pub open spec fn checkout_outcome(st: ContractView, caller: Seq<char>, deposit: u128, now: u64)
    -> Result<(ContractView, Seq<TransferView>), Error> {
    let courses = st.checkout_courses(caller);
    let modules = st.checkout_modules(courses);
    let quizzes = st.checkout_quizzes(modules);
    let lessons = st.checkout_lessons(modules);
    if st.required_payment(caller) > u128::MAX {
        Err(Error::CapacityExceeded)
    } else if deposit < st.required_payment(caller) {
        Err(Error::InsufficientPayment)
    } else if !st.checkout_consistent(caller) {
        Err(Error::IntegrityViolation)
    } else if st.module_progress_count + modules.len() > u64::MAX || st.quizz_progress_count
        + quizzes.len() > u64::MAX || st.lesson_progress_count + lessons.len() > u64::MAX {
        Err(Error::CapacityExceeded)
    } else {
        Ok(
            (
                ContractView {
                    enrollments: enroll_cart(st.enrollments, caller, now),
                    module_progresses: st.module_progresses + module_rows(
                        modules,
                        caller,
                        st.module_progress_count,
                    ),
                    quizz_progresses: st.quizz_progresses + quizz_rows(
                        quizzes,
                        caller,
                        st.quizz_progress_count,
                    ),
                    lesson_progresses: st.lesson_progresses + lesson_rows(
                        lessons,
                        caller,
                        st.lesson_progress_count,
                    ),
                    module_progress_count: (st.module_progress_count + modules.len()) as u64,
                    quizz_progress_count: (st.quizz_progress_count + quizzes.len()) as u64,
                    lesson_progress_count: (st.lesson_progress_count + lessons.len()) as u64,
                    ..st
                },
                owner_transfers(st, courses),
            ),
        )
    }
}

/// The total of a list of courses is at least the total of any of its beginnings.
pub proof fn lemma_total_grows(courses: Seq<CourseView>, i: int)
    requires
        0 <= i <= courses.len(),
    ensures
        0 <= courses_total_with_fee(courses.take(i)) <= courses_total_with_fee(courses),
    decreases courses.len() - i,
{
    if i == courses.len() {
        assert(courses.take(i) =~= courses);
        lemma_total_nonnegative(courses);
    } else {
        lemma_total_grows(courses, i + 1);
        assert(courses.take(i + 1).drop_last() =~= courses.take(i));
        lemma_total_nonnegative(courses.take(i));
    }
}

proof fn lemma_total_nonnegative(courses: Seq<CourseView>)
    ensures
        0 <= courses_total_with_fee(courses),
    decreases courses.len(),
{
    if courses.len() > 0 {
        lemma_total_nonnegative(courses.drop_last());
    }
}

impl Contract {
    /// The price of the courses with the fee on each, or `CapacityExceeded` where the sum
    /// does not fit the integer type.
    pub fn calculate_total_courses_price_with_fee(&self, courses: Vec<Course>) -> (r: Result<
        u128,
        Error,
    >)
        ensures
            match r {
                Ok(total) => total == courses_total_with_fee(courses.deep_view()),
                Err(e) => e == Error::CapacityExceeded && courses_total_with_fee(
                    courses.deep_view(),
                ) > u128::MAX,
            },
    {
        let mut total: u128 = 0;
        let mut i: usize = 0;
        while i < courses.len()
            invariant
                i <= courses.len(),
                total == courses_total_with_fee(courses.deep_view().take(i as int)),
            decreases courses.len() - i,
        {
            let price = courses[i].price;
            let fee = price / 10;
            proof {
                assert(fee == (price * 10) / 100) by (nonlinear_arith)
                    requires
                        fee == price / 10,
                        price >= 0,
                ;
                assert(courses.deep_view().take(i + 1).drop_last() =~= courses.deep_view().take(
                    i as int,
                ));
                lemma_total_grows(courses.deep_view(), i + 1);
            }
            if fee > u128::MAX - price || price + fee > u128::MAX - total {
                return Err(Error::CapacityExceeded);
            }
            total = total + (price + fee);
            i += 1;
        }
        proof {
            assert(courses.deep_view().take(i as int) =~= courses.deep_view());
        }
        Ok(total)
    }

    /// The courses in the account's cart.
    pub fn get_user_carted_courses(&self, account_id: String) -> (r: Vec<Course>)
        ensures
            r.deep_view() == self.deep_view().carted_courses(account_id@),
    {
        let ghost f = carted_course(self.deep_view(), account_id@);
        let mut out: Vec<Course> = Vec::new();
        let mut i: usize = 0;
        assert(out.deep_view() =~= Seq::empty());
        while i < self.enrollments.len()
            invariant
                i <= self.enrollments.len(),
                f == carted_course(self.deep_view(), account_id@),
                out.deep_view() == collect(self.enrollments.deep_view().take(i as int), f),
            decreases self.enrollments.len() - i,
        {
            proof {
                lemma_collect_step(self.enrollments.deep_view(), f, i as int);
            }
            if self.enrollments[i].student_id == account_id && self.enrollments[i].status
                == EnrollmentStatus::Carted {
                match self.course_index(self.enrollments[i].course_id) {
                    Some(c) => {
                        let ghost before = out;
                        let course = self.courses[c].clone();
                        out.push(course);
                        proof {
                            lemma_deep_push(before, out, course);
                        }
                    },
                    None => {},
                }
            }
            i += 1;
        }
        proof {
            assert(self.enrollments.deep_view().take(i as int) =~= self.enrollments.deep_view());
        }
        out
    }

    /// What the account has to attach to check its cart out.
    pub fn get_user_carted_courses_prices_with_fee(&self, account_id: String) -> (r: Result<
        u128,
        Error,
    >)
        ensures
            match r {
                Ok(total) => total == self.deep_view().required_payment(account_id@),
                Err(e) => e == Error::CapacityExceeded && self.deep_view().required_payment(
                    account_id@,
                ) > u128::MAX,
            },
    {
        let courses = self.get_user_carted_courses(account_id);
        self.calculate_total_courses_price_with_fee(courses)
    }
}

fn append_ids(dst: &mut Vec<u64>, src: &Vec<u64>)
    ensures
        final(dst)@ == old(dst)@ + src@,
{
    let mut j: usize = 0;
    while j < src.len()
        invariant
            j <= src.len(),
            dst@ == old(dst)@ + src@.take(j as int),
        decreases src.len() - j,
    {
        dst.push(src[j]);
        proof {
            assert(src@.take(j + 1) =~= src@.take(j as int).push(src@[j as int]));
            assert(dst@ =~= old(dst)@ + src@.take(j + 1));
        }
        j += 1;
    }
    proof {
        assert(src@.take(j as int) =~= src@);
    }
}

fn fresh_module_rows(modules: &Vec<u64>, student: &String, base: u64) -> (r: Vec<ModuleProgress>)
    requires
        base + modules.len() <= u64::MAX,
    ensures
        r.deep_view() == module_rows(modules@, student@, base),
{
    let mut out: Vec<ModuleProgress> = Vec::new();
    let mut i: usize = 0;
    while i < modules.len()
        invariant
            i <= modules.len(),
            base + modules.len() <= u64::MAX,
            out.len() == i,
            forall|k: int| 0 <= k < i ==> out[k].deep_view() == module_rows(modules@, student@, base)[k],
        decreases modules.len() - i,
    {
        out.push(
            ModuleProgress {
                id: base + (i as u64),
                module_id: modules[i],
                student_id: student.clone(),
                status: ModuleProgressStatus::NotStarted,
                is_enrolled: true,
                progress: 0,
                completed_at: None,
            },
        );
        i += 1;
    }
    proof {
        assert(out.deep_view() =~= module_rows(modules@, student@, base));
    }
    out
}

fn fresh_quizz_rows(quizzes: &Vec<u64>, student: &String, base: u64) -> (r: Vec<QuizzProgress>)
    requires
        base + quizzes.len() <= u64::MAX,
    ensures
        r.deep_view() == quizz_rows(quizzes@, student@, base),
{
    let mut out: Vec<QuizzProgress> = Vec::new();
    let mut i: usize = 0;
    while i < quizzes.len()
        invariant
            i <= quizzes.len(),
            base + quizzes.len() <= u64::MAX,
            out.len() == i,
            forall|k: int| 0 <= k < i ==> out[k].deep_view() == quizz_rows(quizzes@, student@, base)[k],
        decreases quizzes.len() - i,
    {
        out.push(
            QuizzProgress {
                id: base + (i as u64),
                quizz_id: quizzes[i],
                student_id: student.clone(),
                status: QuizzProgressStatus::NotStarted,
                try_count: 0,
                is_enrolled: true,
                is_submitted: false,
                is_correct: false,
                completed_at: None,
            },
        );
        i += 1;
    }
    proof {
        assert(out.deep_view() =~= quizz_rows(quizzes@, student@, base));
    }
    out
}

fn fresh_lesson_rows(lessons: &Vec<u64>, student: &String, base: u64) -> (r: Vec<LessonProgress>)
    requires
        base + lessons.len() <= u64::MAX,
    ensures
        r.deep_view() == lesson_rows(lessons@, student@, base),
{
    let mut out: Vec<LessonProgress> = Vec::new();
    let mut i: usize = 0;
    while i < lessons.len()
        invariant
            i <= lessons.len(),
            base + lessons.len() <= u64::MAX,
            out.len() == i,
            forall|k: int| 0 <= k < i ==> out[k].deep_view() == lesson_rows(lessons@, student@, base)[k],
        decreases lessons.len() - i,
    {
        out.push(
            LessonProgress {
                id: base + (i as u64),
                lesson_id: lessons[i],
                student_id: student.clone(),
                status: LessonProgressStatus::NotStarted,
                is_enrolled: true,
                completed_at: None,
            },
        );
        i += 1;
    }
    proof {
        assert(out.deep_view() =~= lesson_rows(lessons@, student@, base));
    }
    out
}

impl Contract {
    /// The ids of the courses in the account's cart, in the order of their enrollments.
    pub fn checkout_courses(&self, account_id: &String) -> (r: Vec<u64>)
        ensures
            r@ == self.deep_view().checkout_courses(account_id@),
    {
        let ghost f = carted_course_id(account_id@);
        let mut out: Vec<u64> = Vec::new();
        let mut i: usize = 0;
        assert(out@ =~= Seq::empty());
        while i < self.enrollments.len()
            invariant
                i <= self.enrollments.len(),
                f == carted_course_id(account_id@),
                out@ == collect(self.enrollments.deep_view().take(i as int), f),
            decreases self.enrollments.len() - i,
        {
            proof {
                lemma_collect_step(self.enrollments.deep_view(), f, i as int);
            }
            if self.enrollments[i].student_id == *account_id && self.enrollments[i].status
                == EnrollmentStatus::Carted {
                out.push(self.enrollments[i].course_id);
            }
            i += 1;
        }
        proof {
            assert(self.enrollments.deep_view().take(i as int) =~= self.enrollments.deep_view());
        }
        out
    }

    /// The modules of the given courses, and the transfers owed to the courses' mentors,
    /// or `IntegrityViolation` where the catalog lacks one of the courses.
    pub fn checkout_modules(&self, courses: &Vec<u64>) -> (r: Result<
        (Vec<u64>, Vec<Transfer>),
        Error,
    >)
        ensures
            match r {
                Ok((modules, transfers)) => {
                    &&& self.deep_view().courses_stored(courses@)
                    &&& modules@ == self.deep_view().checkout_modules(courses@)
                    &&& transfers.deep_view() == owner_transfers(self.deep_view(), courses@)
                },
                Err(e) => e == Error::IntegrityViolation && !self.deep_view().courses_stored(
                    courses@,
                ),
            },
    {
        let ghost st = self.deep_view();
        let ghost f = modules_of(st);
        let mut modules: Vec<u64> = Vec::new();
        let mut transfers: Vec<Transfer> = Vec::new();
        let mut i: usize = 0;
        assert(modules@ =~= Seq::empty());
        while i < courses.len()
            invariant
                i <= courses.len(),
                st == self.deep_view(),
                f == modules_of(st),
                st.courses_stored(courses@.take(i as int)),
                modules@ == gather(courses@.take(i as int), f),
                transfers.deep_view() =~= owner_transfers(st, courses@.take(i as int)),
            decreases courses.len() - i,
        {
            proof {
                lemma_gather_step(courses@, f, i as int);
            }
            match self.course_index(courses[i]) {
                None => {
                    return Err(Error::IntegrityViolation);
                },
                Some(c) => {
                    append_ids(&mut modules, &self.courses[c].modules_ids);
                    let ghost before = transfers;
                    let transfer = Transfer {
                        receiver_id: self.courses[c].mentor_id.clone(),
                        amount: self.courses[c].price,
                    };
                    transfers.push(transfer);
                    proof {
                        lemma_deep_push(before, transfers, transfer);
                        assert forall|k: int| 0 <= k < i + 1 implies st.course(
                            #[trigger] courses@.take(i + 1)[k],
                        ) is Some by {
                            if k < i {
                                assert(courses@.take(i as int)[k] == courses@[k]);
                            }
                        }
                    }
                },
            }
            i += 1;
        }
        proof {
            assert(courses@.take(i as int) =~= courses@);
        }
        Ok((modules, transfers))
    }

    /// The lessons of the list that the catalog has, in the order of the list.
    pub fn stored_lessons(&self, lessons: &Vec<u64>) -> (r: Vec<u64>)
        ensures
            r@ == collect(lessons@, stored_lesson(self.deep_view())),
    {
        let ghost f = stored_lesson(self.deep_view());
        let mut out: Vec<u64> = Vec::new();
        let mut i: usize = 0;
        assert(out@ =~= Seq::empty());
        while i < lessons.len()
            invariant
                i <= lessons.len(),
                f == stored_lesson(self.deep_view()),
                out@ == collect(lessons@.take(i as int), f),
            decreases lessons.len() - i,
        {
            proof {
                lemma_collect_step(lessons@, f, i as int);
            }
            if self.lesson_index(lessons[i]).is_some() {
                out.push(lessons[i]);
            }
            i += 1;
        }
        proof {
            assert(lessons@.take(i as int) =~= lessons@);
        }
        out
    }

    /// The quizzes and the lessons of the given modules, or `IntegrityViolation` where the
    /// catalog lacks one of the modules or the quiz of one.
    pub fn checkout_items(&self, modules: &Vec<u64>) -> (r: Result<(Vec<u64>, Vec<u64>), Error>)
        ensures
            match r {
                Ok((quizzes, lessons)) => {
                    &&& self.deep_view().modules_ready(modules@)
                    &&& quizzes@ == self.deep_view().checkout_quizzes(modules@)
                    &&& lessons@ == self.deep_view().checkout_lessons(modules@)
                },
                Err(e) => e == Error::IntegrityViolation && !self.deep_view().modules_ready(
                    modules@,
                ),
            },
    {
        let ghost st = self.deep_view();
        let ghost fq = quizz_of(st);
        let ghost fl = lessons_of(st);
        let mut quizzes: Vec<u64> = Vec::new();
        let mut lessons: Vec<u64> = Vec::new();
        let mut i: usize = 0;
        assert(quizzes@ =~= Seq::empty());
        assert(lessons@ =~= Seq::empty());
        while i < modules.len()
            invariant
                i <= modules.len(),
                st == self.deep_view(),
                fq == quizz_of(st),
                fl == lessons_of(st),
                st.modules_ready(modules@.take(i as int)),
                quizzes@ == collect(modules@.take(i as int), fq),
                lessons@ == gather(modules@.take(i as int), fl),
            decreases modules.len() - i,
        {
            proof {
                lemma_collect_step(modules@, fq, i as int);
                lemma_gather_step(modules@, fl, i as int);
            }
            match self.module_index(modules[i]) {
                None => {
                    assert(!st.module_ready(modules@[i as int]));
                    return Err(Error::IntegrityViolation);
                },
                Some(m) => {
                    match self.modules[m].quizz_id {
                        Some(q) => {
                            if self.quizz_index(q).is_none() {
                                assert(!st.module_ready(modules@[i as int]));
                                return Err(Error::IntegrityViolation);
                            }
                            quizzes.push(q);
                        },
                        None => {},
                    }
                    let found = self.stored_lessons(&self.modules[m].lessons_ids);
                    append_ids(&mut lessons, &found);
                    proof {
                        assert forall|k: int| 0 <= k < i + 1 implies st.module_ready(
                            #[trigger] modules@.take(i + 1)[k],
                        ) by {
                            if k < i {
                                assert(modules@.take(i as int)[k] == modules@[k]);
                            }
                        }
                    }
                },
            }
            i += 1;
        }
        proof {
            assert(modules@.take(i as int) =~= modules@);
        }
        Ok((quizzes, lessons))
    }

    fn enroll_cart(&mut self, account_id: &String, now: u64)
        ensures
            final(self).deep_view() == (ContractView {
                enrollments: enroll_cart(old(self).deep_view().enrollments, account_id@, now),
                ..old(self).deep_view()
            }),
    {
        let ghost before = self.deep_view();
        let mut i: usize = 0;
        while i < self.enrollments.len()
            invariant
                i <= self.enrollments.len(),
                self.enrollments.len() == before.enrollments.len(),
                self.deep_view() == (ContractView {
                    enrollments: self.enrollments.deep_view(),
                    ..before
                }),
                forall|j: int|
                    0 <= j < i ==> (#[trigger] self.enrollments[j]).deep_view() == enroll_cart(
                        before.enrollments,
                        account_id@,
                        now,
                    )[j],
                forall|j: int|
                    i <= j < self.enrollments.len() ==> (#[trigger] self.enrollments[j]).deep_view()
                        == before.enrollments[j],
            decreases self.enrollments.len() - i,
        {
            if self.enrollments[i].student_id == *account_id && self.enrollments[i].status
                == EnrollmentStatus::Carted {
                self.enrollments[i].status = EnrollmentStatus::Enrolled;
                self.enrollments[i].enrolled_at = Some(now);
                self.enrollments[i].updated_at = now;
            }
            i += 1;
        }
        proof {
            assert(self.enrollments.deep_view() =~= enroll_cart(
                before.enrollments,
                account_id@,
                now,
            ));
        }
    }

    /// Checks the caller's cart out with `deposit` attached, at time `now`: enrolls the
    /// caller in every carted course, creates the caller's progress rows, and returns the
    /// transfers that the host is to make to the courses' mentors.
    pub fn enroll_all_carted_courses(&mut self, caller: String, deposit: u128, now: u64) -> (r:
        Result<Vec<Transfer>, Error>)
        ensures
            match r {
                Ok(transfers) => checkout_outcome(old(self).deep_view(), caller@, deposit, now)
                    == Ok::<(ContractView, Seq<TransferView>), Error>(
                    (final(self).deep_view(), transfers.deep_view()),
                ),
                Err(e) => checkout_outcome(old(self).deep_view(), caller@, deposit, now) == Err::<
                    (ContractView, Seq<TransferView>),
                    Error,
                >(e) && final(self).deep_view() == old(self).deep_view(),
            },
            old(self).deep_view().consistent() ==> final(self).deep_view().consistent(),
            old(self).deep_view().sound() ==> final(self).deep_view().sound(),
    {
        let cost = match self.get_user_carted_courses_prices_with_fee(caller.clone()) {
            Ok(cost) => cost,
            Err(e) => {
                return Err(e);
            },
        };
        if deposit < cost {
            return Err(Error::InsufficientPayment);
        }
        let courses = self.checkout_courses(&caller);
        let (modules, transfers) = match self.checkout_modules(&courses) {
            Ok(found) => found,
            Err(e) => {
                return Err(e);
            },
        };
        let (quizzes, lessons) = match self.checkout_items(&modules) {
            Ok(found) => found,
            Err(e) => {
                return Err(e);
            },
        };
        if modules.len() as u64 > u64::MAX - self.module_progress_count || quizzes.len() as u64
            > u64::MAX - self.quizz_progress_count || lessons.len() as u64 > u64::MAX
            - self.lesson_progress_count {
            return Err(Error::CapacityExceeded);
        }
        let mut new_module_rows = fresh_module_rows(&modules, &caller, self.module_progress_count);
        let mut new_quizz_rows = fresh_quizz_rows(&quizzes, &caller, self.quizz_progress_count);
        let mut new_lesson_rows = fresh_lesson_rows(&lessons, &caller, self.lesson_progress_count);
        self.enroll_cart(&caller, now);
        self.module_progresses.append(&mut new_module_rows);
        self.quizz_progresses.append(&mut new_quizz_rows);
        self.lesson_progresses.append(&mut new_lesson_rows);
        self.module_progress_count = self.module_progress_count + modules.len() as u64;
        self.quizz_progress_count = self.quizz_progress_count + quizzes.len() as u64;
        self.lesson_progress_count = self.lesson_progress_count + lessons.len() as u64;
        proof {
            let st = old(self).deep_view();
            assert(self.module_progresses.deep_view() =~= st.module_progresses
                + module_rows(modules@, caller@, st.module_progress_count));
            assert(self.quizz_progresses.deep_view() =~= st.quizz_progresses
                + quizz_rows(quizzes@, caller@, st.quizz_progress_count));
            assert(self.lesson_progresses.deep_view() =~= st.lesson_progresses
                + lesson_rows(lessons@, caller@, st.lesson_progress_count));
            if old(self).deep_view().consistent() {
                lemma_same_links_stay_consistent(old(self).deep_view(), self.deep_view());
            }
            if old(self).deep_view().sound() {
                lemma_checkout_keeps_rows(old(self).deep_view(), caller@, deposit, now);
            }
        }
        Ok(transfers)
    }
}

} // verus!
