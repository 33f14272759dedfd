pub use crate::quiz::{Answer, AnswerView, Question, QuestionView};
use vstd::prelude::*;

verus! {

/// What a user may do on the platform.
#[derive(Clone, Copy, Debug, PartialEq, Eq, Structural)]
pub enum Role {
    User,
    Admin,
}

/// Where a course stands in its publication lifecycle.
#[derive(Clone, Copy, Debug, PartialEq, Eq, Structural)]
pub enum CourseStatus {
    Draft,
    Published,
    Archived,
}

/// Where one student stands with one course.
#[derive(Clone, Copy, Debug, PartialEq, Eq, Structural)]
pub enum EnrollmentStatus {
    Carted,
    Enrolled,
    Completed,
}

/// Where one student stands with one module.
#[derive(Clone, Copy, Debug, PartialEq, Eq, Structural)]
pub enum ModuleProgressStatus {
    NotStarted,
    Started,
    Completed,
}

/// Where one student stands with one lesson.
#[derive(Clone, Copy, Debug, PartialEq, Eq, Structural)]
pub enum LessonProgressStatus {
    NotStarted,
    Completed,
}

/// Where one student stands with one quiz.
#[derive(Clone, Copy, Debug, PartialEq, Eq, Structural)]
pub enum QuizzProgressStatus {
    NotStarted,
    Submitted,
    Completed,
}

impl Role {
    /// The lower-case name under which the role is written down.
    pub open spec fn name_of(self) -> Seq<char> {
        match self {
            Role::User => "user"@,
            Role::Admin => "admin"@,
        }
    }

    /// The role that a name stands for, if it is the name of one.
    pub open spec fn named(name: Seq<char>) -> Option<Role> {
        if name == "user"@ {
            Some(Role::User)
        } else if name == "admin"@ {
            Some(Role::Admin)
        } else {
            None
        }
    }

    /// The name of the role.
    pub fn name(&self) -> (r: String)
        ensures
            r@ == self.name_of(),
    {
        match self {
            Role::User => "user".to_owned(),
            Role::Admin => "admin".to_owned(),
        }
    }

    /// Reads the name of a role.
    pub fn from_name(name: &String) -> (r: Option<Role>)
        ensures
            r == Role::named(name@),
    {
        if *name == "user".to_owned() {
            Some(Role::User)
        } else if *name == "admin".to_owned() {
            Some(Role::Admin)
        } else {
            None
        }
    }

    /// Every role is read back from its name.
    pub proof fn lemma_name_round_trip(self)
        ensures
            Role::named(self.name_of()) == Some(self),
    {
        reveal_strlit("user");
        reveal_strlit("admin");
        assert("user"@.len() != "admin"@.len());
    }
}

impl CourseStatus {
    /// The lower-case name under which the course status is written down.
    pub open spec fn name_of(self) -> Seq<char> {
        match self {
            CourseStatus::Draft => "draft"@,
            CourseStatus::Published => "published"@,
            CourseStatus::Archived => "archived"@,
        }
    }

    /// The course status that a name stands for, if it is the name of one.
    pub open spec fn named(name: Seq<char>) -> Option<CourseStatus> {
        if name == "draft"@ {
            Some(CourseStatus::Draft)
        } else if name == "published"@ {
            Some(CourseStatus::Published)
        } else if name == "archived"@ {
            Some(CourseStatus::Archived)
        } else {
            None
        }
    }

    /// The name of the course status.
    pub fn name(&self) -> (r: String)
        ensures
            r@ == self.name_of(),
    {
        match self {
            CourseStatus::Draft => "draft".to_owned(),
            CourseStatus::Published => "published".to_owned(),
            CourseStatus::Archived => "archived".to_owned(),
        }
    }

    /// Reads the name of a course status.
    pub fn from_name(name: &String) -> (r: Option<CourseStatus>)
        ensures
            r == CourseStatus::named(name@),
    {
        if *name == "draft".to_owned() {
            Some(CourseStatus::Draft)
        } else if *name == "published".to_owned() {
            Some(CourseStatus::Published)
        } else if *name == "archived".to_owned() {
            Some(CourseStatus::Archived)
        } else {
            None
        }
    }

    /// Every course status is read back from its name.
    pub proof fn lemma_name_round_trip(self)
        ensures
            CourseStatus::named(self.name_of()) == Some(self),
    {
        reveal_strlit("draft");
        reveal_strlit("published");
        reveal_strlit("archived");
        assert("draft"@.len() != "published"@.len());
        assert("draft"@.len() != "archived"@.len());
        assert("published"@.len() != "archived"@.len());
    }
}

impl EnrollmentStatus {
    /// The lower-case name under which the enrollment status is written down.
    pub open spec fn name_of(self) -> Seq<char> {
        match self {
            EnrollmentStatus::Carted => "carted"@,
            EnrollmentStatus::Enrolled => "enrolled"@,
            EnrollmentStatus::Completed => "completed"@,
        }
    }

    /// The enrollment status that a name stands for, if it is the name of one.
    pub open spec fn named(name: Seq<char>) -> Option<EnrollmentStatus> {
        if name == "carted"@ {
            Some(EnrollmentStatus::Carted)
        } else if name == "enrolled"@ {
            Some(EnrollmentStatus::Enrolled)
        } else if name == "completed"@ {
            Some(EnrollmentStatus::Completed)
        } else {
            None
        }
    }

    /// The name of the enrollment status.
    pub fn name(&self) -> (r: String)
        ensures
            r@ == self.name_of(),
    {
        match self {
            EnrollmentStatus::Carted => "carted".to_owned(),
            EnrollmentStatus::Enrolled => "enrolled".to_owned(),
            EnrollmentStatus::Completed => "completed".to_owned(),
        }
    }

    /// Reads the name of a enrollment status.
    pub fn from_name(name: &String) -> (r: Option<EnrollmentStatus>)
        ensures
            r == EnrollmentStatus::named(name@),
    {
        if *name == "carted".to_owned() {
            Some(EnrollmentStatus::Carted)
        } else if *name == "enrolled".to_owned() {
            Some(EnrollmentStatus::Enrolled)
        } else if *name == "completed".to_owned() {
            Some(EnrollmentStatus::Completed)
        } else {
            None
        }
    }

    /// Every enrollment status is read back from its name.
    pub proof fn lemma_name_round_trip(self)
        ensures
            EnrollmentStatus::named(self.name_of()) == Some(self),
    {
        reveal_strlit("carted");
        reveal_strlit("enrolled");
        reveal_strlit("completed");
        assert("carted"@.len() != "enrolled"@.len());
        assert("carted"@.len() != "completed"@.len());
        assert("enrolled"@.len() != "completed"@.len());
    }
}

impl ModuleProgressStatus {
    /// The lower-case name under which the module progress status is written down.
    pub open spec fn name_of(self) -> Seq<char> {
        match self {
            ModuleProgressStatus::NotStarted => "not_started"@,
            ModuleProgressStatus::Started => "started"@,
            ModuleProgressStatus::Completed => "completed"@,
        }
    }

    /// The module progress status that a name stands for, if it is the name of one.
    pub open spec fn named(name: Seq<char>) -> Option<ModuleProgressStatus> {
        if name == "not_started"@ {
            Some(ModuleProgressStatus::NotStarted)
        } else if name == "started"@ {
            Some(ModuleProgressStatus::Started)
        } else if name == "completed"@ {
            Some(ModuleProgressStatus::Completed)
        } else {
            None
        }
    }

    /// The name of the module progress status.
    pub fn name(&self) -> (r: String)
        ensures
            r@ == self.name_of(),
    {
        match self {
            ModuleProgressStatus::NotStarted => "not_started".to_owned(),
            ModuleProgressStatus::Started => "started".to_owned(),
            ModuleProgressStatus::Completed => "completed".to_owned(),
        }
    }

    /// Reads the name of a module progress status.
    pub fn from_name(name: &String) -> (r: Option<ModuleProgressStatus>)
        ensures
            r == ModuleProgressStatus::named(name@),
    {
        if *name == "not_started".to_owned() {
            Some(ModuleProgressStatus::NotStarted)
        } else if *name == "started".to_owned() {
            Some(ModuleProgressStatus::Started)
        } else if *name == "completed".to_owned() {
            Some(ModuleProgressStatus::Completed)
        } else {
            None
        }
    }

    /// Every module progress status is read back from its name.
    pub proof fn lemma_name_round_trip(self)
        ensures
            ModuleProgressStatus::named(self.name_of()) == Some(self),
    {
        reveal_strlit("not_started");
        reveal_strlit("started");
        reveal_strlit("completed");
        assert("not_started"@.len() != "started"@.len());
        assert("not_started"@.len() != "completed"@.len());
        assert("started"@.len() != "completed"@.len());
    }
}

impl LessonProgressStatus {
    /// The lower-case name under which the lesson progress status is written down.
    pub open spec fn name_of(self) -> Seq<char> {
        match self {
            LessonProgressStatus::NotStarted => "not_started"@,
            LessonProgressStatus::Completed => "completed"@,
        }
    }

    /// The lesson progress status that a name stands for, if it is the name of one.
    pub open spec fn named(name: Seq<char>) -> Option<LessonProgressStatus> {
        if name == "not_started"@ {
            Some(LessonProgressStatus::NotStarted)
        } else if name == "completed"@ {
            Some(LessonProgressStatus::Completed)
        } else {
            None
        }
    }

    /// The name of the lesson progress status.
    pub fn name(&self) -> (r: String)
        ensures
            r@ == self.name_of(),
    {
        match self {
            LessonProgressStatus::NotStarted => "not_started".to_owned(),
            LessonProgressStatus::Completed => "completed".to_owned(),
        }
    }

    /// Reads the name of a lesson progress status.
    pub fn from_name(name: &String) -> (r: Option<LessonProgressStatus>)
        ensures
            r == LessonProgressStatus::named(name@),
    {
        if *name == "not_started".to_owned() {
            Some(LessonProgressStatus::NotStarted)
        } else if *name == "completed".to_owned() {
            Some(LessonProgressStatus::Completed)
        } else {
            None
        }
    }

    /// Every lesson progress status is read back from its name.
    pub proof fn lemma_name_round_trip(self)
        ensures
            LessonProgressStatus::named(self.name_of()) == Some(self),
    {
        reveal_strlit("not_started");
        reveal_strlit("completed");
        assert("not_started"@.len() != "completed"@.len());
    }
}

impl QuizzProgressStatus {
    /// The lower-case name under which the quiz progress status is written down.
    pub open spec fn name_of(self) -> Seq<char> {
        match self {
            QuizzProgressStatus::NotStarted => "not_started"@,
            QuizzProgressStatus::Submitted => "submitted"@,
            QuizzProgressStatus::Completed => "completed"@,
        }
    }

    /// The quiz progress status that a name stands for, if it is the name of one.
    pub open spec fn named(name: Seq<char>) -> Option<QuizzProgressStatus> {
        if name == "not_started"@ {
            Some(QuizzProgressStatus::NotStarted)
        } else if name == "submitted"@ {
            Some(QuizzProgressStatus::Submitted)
        } else if name == "completed"@ {
            Some(QuizzProgressStatus::Completed)
        } else {
            None
        }
    }

    /// The name of the quiz progress status.
    pub fn name(&self) -> (r: String)
        ensures
            r@ == self.name_of(),
    {
        match self {
            QuizzProgressStatus::NotStarted => "not_started".to_owned(),
            QuizzProgressStatus::Submitted => "submitted".to_owned(),
            QuizzProgressStatus::Completed => "completed".to_owned(),
        }
    }

    /// Reads the name of a quiz progress status.
    pub fn from_name(name: &String) -> (r: Option<QuizzProgressStatus>)
        ensures
            r == QuizzProgressStatus::named(name@),
    {
        if *name == "not_started".to_owned() {
            Some(QuizzProgressStatus::NotStarted)
        } else if *name == "submitted".to_owned() {
            Some(QuizzProgressStatus::Submitted)
        } else if *name == "completed".to_owned() {
            Some(QuizzProgressStatus::Completed)
        } else {
            None
        }
    }

    /// Every quiz progress status is read back from its name.
    pub proof fn lemma_name_round_trip(self)
        ensures
            QuizzProgressStatus::named(self.name_of()) == Some(self),
    {
        reveal_strlit("not_started");
        reveal_strlit("submitted");
        reveal_strlit("completed");
        assert("not_started"@.len() != "submitted"@.len());
        assert("not_started"@.len() != "completed"@.len());
        assert("submitted"@[0] != "completed"@[0]);
    }
}


/// A certificate a user has earned.
#[derive(Debug)]
pub struct Certification {
    pub id: u64,
    pub title: String,
    pub from: String,
    pub to: String,
    pub picture: String,
    pub created_at: u64,
    pub updated_at: u64,
}

/// The mathematical value of a [`Certification`].
pub struct CertificationView {
    pub id: u64,
    pub title: Seq<char>,
    pub from: Seq<char>,
    pub to: Seq<char>,
    pub picture: Seq<char>,
    pub created_at: u64,
    pub updated_at: u64,
}

impl DeepView for Certification {
    type V = CertificationView;

    open spec fn deep_view(&self) -> CertificationView {
        CertificationView {
            id: self.id,
            title: self.title@,
            from: self.from@,
            to: self.to@,
            picture: self.picture@,
            created_at: self.created_at,
            updated_at: self.updated_at,
        }
    }
}

impl Clone for Certification {
    fn clone(&self) -> (r: Self)
        ensures
            r.deep_view() == self.deep_view(),
    {
        Certification {
            id: self.id,
            title: self.title.clone(),
            from: self.from.clone(),
            to: self.to.clone(),
            picture: self.picture.clone(),
            created_at: self.created_at,
            updated_at: self.updated_at,
        }
    }
}

/// A registered account, keyed by its account identity.
#[derive(Debug)]
pub struct User {
    pub account_id: String,
    pub name: String,
    pub username: String,
    pub email: String,
    pub phone: String,
    pub role: Role,
    pub by_google: bool,
    pub certifications: Option<Vec<Certification>>,
    pub picture: String,
    pub created_at: u64,
    pub updated_at: u64,
}

/// The mathematical value of a [`User`].
pub struct UserView {
    pub account_id: Seq<char>,
    pub name: Seq<char>,
    pub username: Seq<char>,
    pub email: Seq<char>,
    pub phone: Seq<char>,
    pub role: Role,
    pub by_google: bool,
    pub certifications: Option<Seq<CertificationView>>,
    pub picture: Seq<char>,
    pub created_at: u64,
    pub updated_at: u64,
}

impl DeepView for User {
    type V = UserView;

    open spec fn deep_view(&self) -> UserView {
        UserView {
            account_id: self.account_id@,
            name: self.name@,
            username: self.username@,
            email: self.email@,
            phone: self.phone@,
            role: self.role,
            by_google: self.by_google,
            certifications: self.certifications.deep_view(),
            picture: self.picture@,
            created_at: self.created_at,
            updated_at: self.updated_at,
        }
    }
}

impl Clone for User {
    fn clone(&self) -> (r: Self)
        ensures
            r.deep_view() == self.deep_view(),
    {
        let certifications = match &self.certifications {
            Some(v) => {
                let w = v.clone();
                proof {
                    assert(w.deep_view() =~= v.deep_view());
                }
                Some(w)
            },
            None => None,
        };
        User {
            account_id: self.account_id.clone(),
            name: self.name.clone(),
            username: self.username.clone(),
            email: self.email.clone(),
            phone: self.phone.clone(),
            role: self.role,
            by_google: self.by_google,
            certifications,
            picture: self.picture.clone(),
            created_at: self.created_at,
            updated_at: self.updated_at,
        }
    }
}

/// A course of the catalog, with the ordered ids of its modules.
#[derive(Debug)]
pub struct Course {
    pub id: u64,
    pub title: String,
    pub description: String,
    pub level: String,
    pub duration: String,
    pub status: CourseStatus,
    pub requirements: Vec<String>,
    pub objectives: Vec<String>,
    pub category: String,
    pub picture: String,
    pub with_ai: bool,
    pub price: u128,
    pub mentor_id: String,
    pub modules_ids: Vec<u64>,
    pub created_at: u64,
    pub updated_at: u64,
}

/// The mathematical value of a [`Course`].
pub struct CourseView {
    pub id: u64,
    pub title: Seq<char>,
    pub description: Seq<char>,
    pub level: Seq<char>,
    pub duration: Seq<char>,
    pub status: CourseStatus,
    pub requirements: Seq<Seq<char>>,
    pub objectives: Seq<Seq<char>>,
    pub category: Seq<char>,
    pub picture: Seq<char>,
    pub with_ai: bool,
    pub price: u128,
    pub mentor_id: Seq<char>,
    pub modules_ids: Seq<u64>,
    pub created_at: u64,
    pub updated_at: u64,
}

impl DeepView for Course {
    type V = CourseView;

    open spec fn deep_view(&self) -> CourseView {
        CourseView {
            id: self.id,
            title: self.title@,
            description: self.description@,
            level: self.level@,
            duration: self.duration@,
            status: self.status,
            requirements: self.requirements.deep_view(),
            objectives: self.objectives.deep_view(),
            category: self.category@,
            picture: self.picture@,
            with_ai: self.with_ai,
            price: self.price,
            mentor_id: self.mentor_id@,
            modules_ids: self.modules_ids@,
            created_at: self.created_at,
            updated_at: self.updated_at,
        }
    }
}

impl Clone for Course {
    fn clone(&self) -> (r: Self)
        ensures
            r.deep_view() == self.deep_view(),
    {
        let requirements = self.requirements.clone();
        let objectives = self.objectives.clone();
        let modules_ids = self.modules_ids.clone();
        proof {
            assert(requirements.deep_view() =~= self.requirements.deep_view());
            assert(objectives.deep_view() =~= self.objectives.deep_view());
            assert(modules_ids@ =~= self.modules_ids@);
        }
        Course {
            id: self.id,
            title: self.title.clone(),
            description: self.description.clone(),
            level: self.level.clone(),
            duration: self.duration.clone(),
            status: self.status,
            requirements,
            objectives,
            category: self.category.clone(),
            picture: self.picture.clone(),
            with_ai: self.with_ai,
            price: self.price,
            mentor_id: self.mentor_id.clone(),
            modules_ids,
            created_at: self.created_at,
            updated_at: self.updated_at,
        }
    }
}

/// A module of a course, with the ordered ids of its lessons and at most one quiz.
#[derive(Debug)]
pub struct Module {
    pub id: u64,
    pub title: String,
    pub description: String,
    pub status: String,
    pub order: u64,
    pub with_ai: bool,
    pub created_at: u64,
    pub updated_at: u64,
    pub course_id: u64,
    pub lessons_ids: Vec<u64>,
    pub quizz_id: Option<u64>,
}

/// The mathematical value of a [`Module`].
pub struct ModuleView {
    pub id: u64,
    pub title: Seq<char>,
    pub description: Seq<char>,
    pub status: Seq<char>,
    pub order: u64,
    pub with_ai: bool,
    pub created_at: u64,
    pub updated_at: u64,
    pub course_id: u64,
    pub lessons_ids: Seq<u64>,
    pub quizz_id: Option<u64>,
}

impl DeepView for Module {
    type V = ModuleView;

    open spec fn deep_view(&self) -> ModuleView {
        ModuleView {
            id: self.id,
            title: self.title@,
            description: self.description@,
            status: self.status@,
            order: self.order,
            with_ai: self.with_ai,
            created_at: self.created_at,
            updated_at: self.updated_at,
            course_id: self.course_id,
            lessons_ids: self.lessons_ids@,
            quizz_id: self.quizz_id,
        }
    }
}

impl Clone for Module {
    fn clone(&self) -> (r: Self)
        ensures
            r.deep_view() == self.deep_view(),
    {
        let lessons_ids = self.lessons_ids.clone();
        proof {
            assert(lessons_ids@ =~= self.lessons_ids@);
        }
        Module {
            id: self.id,
            title: self.title.clone(),
            description: self.description.clone(),
            status: self.status.clone(),
            order: self.order,
            with_ai: self.with_ai,
            created_at: self.created_at,
            updated_at: self.updated_at,
            course_id: self.course_id,
            lessons_ids,
            quizz_id: self.quizz_id,
        }
    }
}

/// A lesson of a module; `order` is its logical position among its siblings.
#[derive(Debug)]
pub struct Lesson {
    pub id: u64,
    pub title: String,
    pub description: String,
    pub video_url: String,
    pub article: String,
    pub order: u64,
    pub with_ai: bool,
    pub module_id: u64,
    pub created_at: u64,
    pub updated_at: u64,
}

/// The mathematical value of a [`Lesson`].
pub struct LessonView {
    pub id: u64,
    pub title: Seq<char>,
    pub description: Seq<char>,
    pub video_url: Seq<char>,
    pub article: Seq<char>,
    pub order: u64,
    pub with_ai: bool,
    pub module_id: u64,
    pub created_at: u64,
    pub updated_at: u64,
}

impl DeepView for Lesson {
    type V = LessonView;

    open spec fn deep_view(&self) -> LessonView {
        LessonView {
            id: self.id,
            title: self.title@,
            description: self.description@,
            video_url: self.video_url@,
            article: self.article@,
            order: self.order,
            with_ai: self.with_ai,
            module_id: self.module_id,
            created_at: self.created_at,
            updated_at: self.updated_at,
        }
    }
}

impl Clone for Lesson {
    fn clone(&self) -> (r: Self)
        ensures
            r.deep_view() == self.deep_view(),
    {
        Lesson {
            id: self.id,
            title: self.title.clone(),
            description: self.description.clone(),
            video_url: self.video_url.clone(),
            article: self.article.clone(),
            order: self.order,
            with_ai: self.with_ai,
            module_id: self.module_id,
            created_at: self.created_at,
            updated_at: self.updated_at,
        }
    }
}

/// The quiz of a module, with its canonical questions.
#[derive(Debug)]
pub struct Quizz {
    pub id: u64,
    pub module_id: u64,
    pub title: String,
    pub description: String,
    pub questions: Vec<Question>,
    pub with_ai: bool,
    pub created_at: u64,
    pub updated_at: u64,
}

/// The mathematical value of a [`Quizz`].
pub struct QuizzView {
    pub id: u64,
    pub module_id: u64,
    pub title: Seq<char>,
    pub description: Seq<char>,
    pub questions: Seq<QuestionView>,
    pub with_ai: bool,
    pub created_at: u64,
    pub updated_at: u64,
}

impl DeepView for Quizz {
    type V = QuizzView;

    open spec fn deep_view(&self) -> QuizzView {
        QuizzView {
            id: self.id,
            module_id: self.module_id,
            title: self.title@,
            description: self.description@,
            questions: self.questions.deep_view(),
            with_ai: self.with_ai,
            created_at: self.created_at,
            updated_at: self.updated_at,
        }
    }
}

impl Clone for Quizz {
    fn clone(&self) -> (r: Self)
        ensures
            r.deep_view() == self.deep_view(),
    {
        let questions = self.questions.clone();
        proof {
            assert(questions.deep_view() =~= self.questions.deep_view());
        }
        Quizz {
            id: self.id,
            module_id: self.module_id,
            title: self.title.clone(),
            description: self.description.clone(),
            questions,
            with_ai: self.with_ai,
            created_at: self.created_at,
            updated_at: self.updated_at,
        }
    }
}

/// A lesson as shown inside a module view.
#[derive(Debug)]
pub struct FullLesson {
    pub id: u64,
    pub title: String,
    pub description: String,
    pub video_url: String,
    pub article: String,
    pub order: u64,
    pub with_ai: bool,
    pub created_at: u64,
    pub updated_at: u64,
}

/// The mathematical value of a [`FullLesson`].
pub struct FullLessonView {
    pub id: u64,
    pub title: Seq<char>,
    pub description: Seq<char>,
    pub video_url: Seq<char>,
    pub article: Seq<char>,
    pub order: u64,
    pub with_ai: bool,
    pub created_at: u64,
    pub updated_at: u64,
}

impl DeepView for FullLesson {
    type V = FullLessonView;

    open spec fn deep_view(&self) -> FullLessonView {
        FullLessonView {
            id: self.id,
            title: self.title@,
            description: self.description@,
            video_url: self.video_url@,
            article: self.article@,
            order: self.order,
            with_ai: self.with_ai,
            created_at: self.created_at,
            updated_at: self.updated_at,
        }
    }
}

impl Clone for FullLesson {
    fn clone(&self) -> (r: Self)
        ensures
            r.deep_view() == self.deep_view(),
    {
        FullLesson {
            id: self.id,
            title: self.title.clone(),
            description: self.description.clone(),
            video_url: self.video_url.clone(),
            article: self.article.clone(),
            order: self.order,
            with_ai: self.with_ai,
            created_at: self.created_at,
            updated_at: self.updated_at,
        }
    }
}

/// A module with its lessons and quiz resolved.
#[derive(Debug)]
pub struct FullModule {
    pub id: u64,
    pub title: String,
    pub description: String,
    pub status: String,
    pub order: u64,
    pub with_ai: bool,
    pub created_at: u64,
    pub updated_at: u64,
    pub lessons: Vec<FullLesson>,
    pub quizz: Option<Quizz>,
}

/// The mathematical value of a [`FullModule`].
pub struct FullModuleView {
    pub id: u64,
    pub title: Seq<char>,
    pub description: Seq<char>,
    pub status: Seq<char>,
    pub order: u64,
    pub with_ai: bool,
    pub created_at: u64,
    pub updated_at: u64,
    pub lessons: Seq<FullLessonView>,
    pub quizz: Option<QuizzView>,
}

impl DeepView for FullModule {
    type V = FullModuleView;

    open spec fn deep_view(&self) -> FullModuleView {
        FullModuleView {
            id: self.id,
            title: self.title@,
            description: self.description@,
            status: self.status@,
            order: self.order,
            with_ai: self.with_ai,
            created_at: self.created_at,
            updated_at: self.updated_at,
            lessons: self.lessons.deep_view(),
            quizz: self.quizz.deep_view(),
        }
    }
}

impl Clone for FullModule {
    fn clone(&self) -> (r: Self)
        ensures
            r.deep_view() == self.deep_view(),
    {
        let lessons = self.lessons.clone();
        let quizz = match &self.quizz {
            Some(v) => Some(v.clone()),
            None => None,
        };
        proof {
            assert(lessons.deep_view() =~= self.lessons.deep_view());
        }
        FullModule {
            id: self.id,
            title: self.title.clone(),
            description: self.description.clone(),
            status: self.status.clone(),
            order: self.order,
            with_ai: self.with_ai,
            created_at: self.created_at,
            updated_at: self.updated_at,
            lessons,
            quizz,
        }
    }
}

/// A course with its mentor and modules resolved.
#[derive(Debug)]
pub struct FullCourse {
    pub id: u64,
    pub title: String,
    pub description: String,
    pub level: String,
    pub duration: String,
    pub status: CourseStatus,
    pub requirements: Vec<String>,
    pub objectives: Vec<String>,
    pub category: String,
    pub picture: String,
    pub with_ai: bool,
    pub price: u128,
    pub mentor: User,
    pub modules: Vec<FullModule>,
    pub created_at: u64,
    pub updated_at: u64,
}

/// The mathematical value of a [`FullCourse`].
pub struct FullCourseView {
    pub id: u64,
    pub title: Seq<char>,
    pub description: Seq<char>,
    pub level: Seq<char>,
    pub duration: Seq<char>,
    pub status: CourseStatus,
    pub requirements: Seq<Seq<char>>,
    pub objectives: Seq<Seq<char>>,
    pub category: Seq<char>,
    pub picture: Seq<char>,
    pub with_ai: bool,
    pub price: u128,
    pub mentor: UserView,
    pub modules: Seq<FullModuleView>,
    pub created_at: u64,
    pub updated_at: u64,
}

impl DeepView for FullCourse {
    type V = FullCourseView;

    open spec fn deep_view(&self) -> FullCourseView {
        FullCourseView {
            id: self.id,
            title: self.title@,
            description: self.description@,
            level: self.level@,
            duration: self.duration@,
            status: self.status,
            requirements: self.requirements.deep_view(),
            objectives: self.objectives.deep_view(),
            category: self.category@,
            picture: self.picture@,
            with_ai: self.with_ai,
            price: self.price,
            mentor: self.mentor.deep_view(),
            modules: self.modules.deep_view(),
            created_at: self.created_at,
            updated_at: self.updated_at,
        }
    }
}

impl Clone for FullCourse {
    fn clone(&self) -> (r: Self)
        ensures
            r.deep_view() == self.deep_view(),
    {
        let requirements = self.requirements.clone();
        let objectives = self.objectives.clone();
        let modules = self.modules.clone();
        proof {
            assert(requirements.deep_view() =~= self.requirements.deep_view());
            assert(objectives.deep_view() =~= self.objectives.deep_view());
            assert(modules.deep_view() =~= self.modules.deep_view());
        }
        FullCourse {
            id: self.id,
            title: self.title.clone(),
            description: self.description.clone(),
            level: self.level.clone(),
            duration: self.duration.clone(),
            status: self.status,
            requirements,
            objectives,
            category: self.category.clone(),
            picture: self.picture.clone(),
            with_ai: self.with_ai,
            price: self.price,
            mentor: self.mentor.clone(),
            modules,
            created_at: self.created_at,
            updated_at: self.updated_at,
        }
    }
}

/// The lifecycle record of one student in one course.
#[derive(Debug)]
pub struct Enrollment {
    pub id: u64,
    pub course_id: u64,
    pub student_id: String,
    pub status: EnrollmentStatus,
    pub progress: u16,
    pub carted_at: u64,
    pub enrolled_at: Option<u64>,
    pub completed_at: Option<u64>,
    pub course_review: Option<u64>,
    pub updated_at: u64,
}

/// The mathematical value of a [`Enrollment`].
pub struct EnrollmentView {
    pub id: u64,
    pub course_id: u64,
    pub student_id: Seq<char>,
    pub status: EnrollmentStatus,
    pub progress: u16,
    pub carted_at: u64,
    pub enrolled_at: Option<u64>,
    pub completed_at: Option<u64>,
    pub course_review: Option<u64>,
    pub updated_at: u64,
}

impl DeepView for Enrollment {
    type V = EnrollmentView;

    open spec fn deep_view(&self) -> EnrollmentView {
        EnrollmentView {
            id: self.id,
            course_id: self.course_id,
            student_id: self.student_id@,
            status: self.status,
            progress: self.progress,
            carted_at: self.carted_at,
            enrolled_at: self.enrolled_at,
            completed_at: self.completed_at,
            course_review: self.course_review,
            updated_at: self.updated_at,
        }
    }
}

impl Clone for Enrollment {
    fn clone(&self) -> (r: Self)
        ensures
            r.deep_view() == self.deep_view(),
    {
        Enrollment {
            id: self.id,
            course_id: self.course_id,
            student_id: self.student_id.clone(),
            status: self.status,
            progress: self.progress,
            carted_at: self.carted_at,
            enrolled_at: self.enrolled_at,
            completed_at: self.completed_at,
            course_review: self.course_review,
            updated_at: self.updated_at,
        }
    }
}

/// The progress of one student in one module.
#[derive(Debug)]
pub struct ModuleProgress {
    pub id: u64,
    pub module_id: u64,
    pub student_id: String,
    pub status: ModuleProgressStatus,
    pub is_enrolled: bool,
    pub progress: u16,
    pub completed_at: Option<u64>,
}

/// The mathematical value of a [`ModuleProgress`].
pub struct ModuleProgressView {
    pub id: u64,
    pub module_id: u64,
    pub student_id: Seq<char>,
    pub status: ModuleProgressStatus,
    pub is_enrolled: bool,
    pub progress: u16,
    pub completed_at: Option<u64>,
}

impl DeepView for ModuleProgress {
    type V = ModuleProgressView;

    open spec fn deep_view(&self) -> ModuleProgressView {
        ModuleProgressView {
            id: self.id,
            module_id: self.module_id,
            student_id: self.student_id@,
            status: self.status,
            is_enrolled: self.is_enrolled,
            progress: self.progress,
            completed_at: self.completed_at,
        }
    }
}

impl Clone for ModuleProgress {
    fn clone(&self) -> (r: Self)
        ensures
            r.deep_view() == self.deep_view(),
    {
        ModuleProgress {
            id: self.id,
            module_id: self.module_id,
            student_id: self.student_id.clone(),
            status: self.status,
            is_enrolled: self.is_enrolled,
            progress: self.progress,
            completed_at: self.completed_at,
        }
    }
}

/// The progress of one student in one lesson.
#[derive(Debug)]
pub struct LessonProgress {
    pub id: u64,
    pub lesson_id: u64,
    pub student_id: String,
    pub status: LessonProgressStatus,
    pub is_enrolled: bool,
    pub completed_at: Option<u64>,
}

/// The mathematical value of a [`LessonProgress`].
pub struct LessonProgressView {
    pub id: u64,
    pub lesson_id: u64,
    pub student_id: Seq<char>,
    pub status: LessonProgressStatus,
    pub is_enrolled: bool,
    pub completed_at: Option<u64>,
}

impl DeepView for LessonProgress {
    type V = LessonProgressView;

    open spec fn deep_view(&self) -> LessonProgressView {
        LessonProgressView {
            id: self.id,
            lesson_id: self.lesson_id,
            student_id: self.student_id@,
            status: self.status,
            is_enrolled: self.is_enrolled,
            completed_at: self.completed_at,
        }
    }
}

impl Clone for LessonProgress {
    fn clone(&self) -> (r: Self)
        ensures
            r.deep_view() == self.deep_view(),
    {
        LessonProgress {
            id: self.id,
            lesson_id: self.lesson_id,
            student_id: self.student_id.clone(),
            status: self.status,
            is_enrolled: self.is_enrolled,
            completed_at: self.completed_at,
        }
    }
}

/// The progress of one student in one quiz.
#[derive(Debug)]
pub struct QuizzProgress {
    pub id: u64,
    pub quizz_id: u64,
    pub student_id: String,
    pub status: QuizzProgressStatus,
    pub try_count: u16,
    pub is_enrolled: bool,
    pub is_submitted: bool,
    pub is_correct: bool,
    pub completed_at: Option<u64>,
}

/// The mathematical value of a [`QuizzProgress`].
pub struct QuizzProgressView {
    pub id: u64,
    pub quizz_id: u64,
    pub student_id: Seq<char>,
    pub status: QuizzProgressStatus,
    pub try_count: u16,
    pub is_enrolled: bool,
    pub is_submitted: bool,
    pub is_correct: bool,
    pub completed_at: Option<u64>,
}

impl DeepView for QuizzProgress {
    type V = QuizzProgressView;

    open spec fn deep_view(&self) -> QuizzProgressView {
        QuizzProgressView {
            id: self.id,
            quizz_id: self.quizz_id,
            student_id: self.student_id@,
            status: self.status,
            try_count: self.try_count,
            is_enrolled: self.is_enrolled,
            is_submitted: self.is_submitted,
            is_correct: self.is_correct,
            completed_at: self.completed_at,
        }
    }
}

impl Clone for QuizzProgress {
    fn clone(&self) -> (r: Self)
        ensures
            r.deep_view() == self.deep_view(),
    {
        QuizzProgress {
            id: self.id,
            quizz_id: self.quizz_id,
            student_id: self.student_id.clone(),
            status: self.status,
            try_count: self.try_count,
            is_enrolled: self.is_enrolled,
            is_submitted: self.is_submitted,
            is_correct: self.is_correct,
            completed_at: self.completed_at,
        }
    }
}

/// A lesson joined with the progress of one student in it.
#[derive(Debug)]
pub struct FullLessonProgress {
    pub id: u64,
    pub lesson: FullLesson,
    pub student: User,
    pub status: LessonProgressStatus,
    pub is_enrolled: bool,
    pub completed_at: Option<u64>,
}

/// The mathematical value of a [`FullLessonProgress`].
pub struct FullLessonProgressView {
    pub id: u64,
    pub lesson: FullLessonView,
    pub student: UserView,
    pub status: LessonProgressStatus,
    pub is_enrolled: bool,
    pub completed_at: Option<u64>,
}

impl DeepView for FullLessonProgress {
    type V = FullLessonProgressView;

    open spec fn deep_view(&self) -> FullLessonProgressView {
        FullLessonProgressView {
            id: self.id,
            lesson: self.lesson.deep_view(),
            student: self.student.deep_view(),
            status: self.status,
            is_enrolled: self.is_enrolled,
            completed_at: self.completed_at,
        }
    }
}

impl Clone for FullLessonProgress {
    fn clone(&self) -> (r: Self)
        ensures
            r.deep_view() == self.deep_view(),
    {
        FullLessonProgress {
            id: self.id,
            lesson: self.lesson.clone(),
            student: self.student.clone(),
            status: self.status,
            is_enrolled: self.is_enrolled,
            completed_at: self.completed_at,
        }
    }
}

/// A quiz joined with the progress of one student in it.
#[derive(Debug)]
pub struct FullQuizzProgress {
    pub id: u64,
    pub quizz: Quizz,
    pub student: User,
    pub status: QuizzProgressStatus,
    pub try_count: u16,
    pub is_enrolled: bool,
    pub is_submitted: bool,
    pub is_correct: bool,
    pub completed_at: Option<u64>,
}

/// The mathematical value of a [`FullQuizzProgress`].
pub struct FullQuizzProgressView {
    pub id: u64,
    pub quizz: QuizzView,
    pub student: UserView,
    pub status: QuizzProgressStatus,
    pub try_count: u16,
    pub is_enrolled: bool,
    pub is_submitted: bool,
    pub is_correct: bool,
    pub completed_at: Option<u64>,
}

impl DeepView for FullQuizzProgress {
    type V = FullQuizzProgressView;

    open spec fn deep_view(&self) -> FullQuizzProgressView {
        FullQuizzProgressView {
            id: self.id,
            quizz: self.quizz.deep_view(),
            student: self.student.deep_view(),
            status: self.status,
            try_count: self.try_count,
            is_enrolled: self.is_enrolled,
            is_submitted: self.is_submitted,
            is_correct: self.is_correct,
            completed_at: self.completed_at,
        }
    }
}

impl Clone for FullQuizzProgress {
    fn clone(&self) -> (r: Self)
        ensures
            r.deep_view() == self.deep_view(),
    {
        FullQuizzProgress {
            id: self.id,
            quizz: self.quizz.clone(),
            student: self.student.clone(),
            status: self.status,
            try_count: self.try_count,
            is_enrolled: self.is_enrolled,
            is_submitted: self.is_submitted,
            is_correct: self.is_correct,
            completed_at: self.completed_at,
        }
    }
}

/// A module joined with the progress of one student in it and in its lessons and quiz.
#[derive(Debug)]
pub struct FullModuleProgress {
    pub id: u64,
    pub module: FullModule,
    pub student: User,
    pub lessons: Vec<FullLessonProgress>,
    pub status: ModuleProgressStatus,
    pub is_enrolled: bool,
    pub progress: u16,
    pub quizz: Option<FullQuizzProgress>,
    pub completed_at: Option<u64>,
}

/// The mathematical value of a [`FullModuleProgress`].
pub struct FullModuleProgressView {
    pub id: u64,
    pub module: FullModuleView,
    pub student: UserView,
    pub lessons: Seq<FullLessonProgressView>,
    pub status: ModuleProgressStatus,
    pub is_enrolled: bool,
    pub progress: u16,
    pub quizz: Option<FullQuizzProgressView>,
    pub completed_at: Option<u64>,
}

impl DeepView for FullModuleProgress {
    type V = FullModuleProgressView;

    open spec fn deep_view(&self) -> FullModuleProgressView {
        FullModuleProgressView {
            id: self.id,
            module: self.module.deep_view(),
            student: self.student.deep_view(),
            lessons: self.lessons.deep_view(),
            status: self.status,
            is_enrolled: self.is_enrolled,
            progress: self.progress,
            quizz: self.quizz.deep_view(),
            completed_at: self.completed_at,
        }
    }
}

impl Clone for FullModuleProgress {
    fn clone(&self) -> (r: Self)
        ensures
            r.deep_view() == self.deep_view(),
    {
        let lessons = self.lessons.clone();
        let quizz = match &self.quizz {
            Some(v) => Some(v.clone()),
            None => None,
        };
        proof {
            assert(lessons.deep_view() =~= self.lessons.deep_view());
        }
        FullModuleProgress {
            id: self.id,
            module: self.module.clone(),
            student: self.student.clone(),
            lessons,
            status: self.status,
            is_enrolled: self.is_enrolled,
            progress: self.progress,
            quizz,
            completed_at: self.completed_at,
        }
    }
}

/// An enrollment with its course, student and per-module progress resolved.
#[derive(Debug)]
pub struct FullEnrollment {
    pub id: u64,
    pub course: Course,
    pub student: User,
    pub modules: Vec<FullModuleProgress>,
    pub status: EnrollmentStatus,
    pub progress: u16,
    pub carted_at: u64,
    pub enrolled_at: Option<u64>,
    pub completed_at: Option<u64>,
    pub course_review: Option<u64>,
    pub updated_at: u64,
}

/// The mathematical value of a [`FullEnrollment`].
pub struct FullEnrollmentView {
    pub id: u64,
    pub course: CourseView,
    pub student: UserView,
    pub modules: Seq<FullModuleProgressView>,
    pub status: EnrollmentStatus,
    pub progress: u16,
    pub carted_at: u64,
    pub enrolled_at: Option<u64>,
    pub completed_at: Option<u64>,
    pub course_review: Option<u64>,
    pub updated_at: u64,
}

impl DeepView for FullEnrollment {
    type V = FullEnrollmentView;

    open spec fn deep_view(&self) -> FullEnrollmentView {
        FullEnrollmentView {
            id: self.id,
            course: self.course.deep_view(),
            student: self.student.deep_view(),
            modules: self.modules.deep_view(),
            status: self.status,
            progress: self.progress,
            carted_at: self.carted_at,
            enrolled_at: self.enrolled_at,
            completed_at: self.completed_at,
            course_review: self.course_review,
            updated_at: self.updated_at,
        }
    }
}

impl Clone for FullEnrollment {
    fn clone(&self) -> (r: Self)
        ensures
            r.deep_view() == self.deep_view(),
    {
        let modules = self.modules.clone();
        proof {
            assert(modules.deep_view() =~= self.modules.deep_view());
        }
        FullEnrollment {
            id: self.id,
            course: self.course.clone(),
            student: self.student.clone(),
            modules,
            status: self.status,
            progress: self.progress,
            carted_at: self.carted_at,
            enrolled_at: self.enrolled_at,
            completed_at: self.completed_at,
            course_review: self.course_review,
            updated_at: self.updated_at,
        }
    }
}

/// A course as listed for its mentor, with a progress figure.
#[derive(Debug)]
pub struct CourseWithProgress {
    pub id: u64,
    pub title: String,
    pub description: String,
    pub level: String,
    pub duration: String,
    pub status: CourseStatus,
    pub requirements: Vec<String>,
    pub objectives: Vec<String>,
    pub category: String,
    pub picture: String,
    pub with_ai: bool,
    pub price: u128,
    pub mentor_id: String,
    pub modules_ids: Vec<u64>,
    pub created_at: u64,
    pub updated_at: u64,
    pub progress: u64,
}

/// The mathematical value of a [`CourseWithProgress`].
pub struct CourseWithProgressView {
    pub id: u64,
    pub title: Seq<char>,
    pub description: Seq<char>,
    pub level: Seq<char>,
    pub duration: Seq<char>,
    pub status: CourseStatus,
    pub requirements: Seq<Seq<char>>,
    pub objectives: Seq<Seq<char>>,
    pub category: Seq<char>,
    pub picture: Seq<char>,
    pub with_ai: bool,
    pub price: u128,
    pub mentor_id: Seq<char>,
    pub modules_ids: Seq<u64>,
    pub created_at: u64,
    pub updated_at: u64,
    pub progress: u64,
}

impl DeepView for CourseWithProgress {
    type V = CourseWithProgressView;

    open spec fn deep_view(&self) -> CourseWithProgressView {
        CourseWithProgressView {
            id: self.id,
            title: self.title@,
            description: self.description@,
            level: self.level@,
            duration: self.duration@,
            status: self.status,
            requirements: self.requirements.deep_view(),
            objectives: self.objectives.deep_view(),
            category: self.category@,
            picture: self.picture@,
            with_ai: self.with_ai,
            price: self.price,
            mentor_id: self.mentor_id@,
            modules_ids: self.modules_ids@,
            created_at: self.created_at,
            updated_at: self.updated_at,
            progress: self.progress,
        }
    }
}

impl Clone for CourseWithProgress {
    fn clone(&self) -> (r: Self)
        ensures
            r.deep_view() == self.deep_view(),
    {
        let requirements = self.requirements.clone();
        let objectives = self.objectives.clone();
        let modules_ids = self.modules_ids.clone();
        proof {
            assert(requirements.deep_view() =~= self.requirements.deep_view());
            assert(objectives.deep_view() =~= self.objectives.deep_view());
            assert(modules_ids@ =~= self.modules_ids@);
        }
        CourseWithProgress {
            id: self.id,
            title: self.title.clone(),
            description: self.description.clone(),
            level: self.level.clone(),
            duration: self.duration.clone(),
            status: self.status,
            requirements,
            objectives,
            category: self.category.clone(),
            picture: self.picture.clone(),
            with_ai: self.with_ai,
            price: self.price,
            mentor_id: self.mentor_id.clone(),
            modules_ids,
            created_at: self.created_at,
            updated_at: self.updated_at,
            progress: self.progress,
        }
    }
}

/// A request to move `amount` to `receiver_id`, to be carried out by the host.
#[derive(Debug)]
pub struct Transfer {
    pub receiver_id: String,
    pub amount: u128,
}

/// The mathematical value of a [`Transfer`].
pub struct TransferView {
    pub receiver_id: Seq<char>,
    pub amount: u128,
}

impl DeepView for Transfer {
    type V = TransferView;

    open spec fn deep_view(&self) -> TransferView {
        TransferView {
            receiver_id: self.receiver_id@,
            amount: self.amount,
        }
    }
}

impl Clone for Transfer {
    fn clone(&self) -> (r: Self)
        ensures
            r.deep_view() == self.deep_view(),
    {
        Transfer {
            receiver_id: self.receiver_id.clone(),
            amount: self.amount,
        }
    }
}

} // verus!
