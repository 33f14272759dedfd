use vstd::prelude::*;

verus! {

/// One possible answer to a question, with its correctness flag.
#[derive(Debug)]
pub struct Answer {
    pub text: String,
    pub is_correct: bool,
}

/// The mathematical value of an [`Answer`].
pub struct AnswerView {
    pub text: Seq<char>,
    pub is_correct: bool,
}

impl DeepView for Answer {
    type V = AnswerView;

    open spec fn deep_view(&self) -> AnswerView {
        AnswerView { text: self.text@, is_correct: self.is_correct }
    }
}

impl Clone for Answer {
    fn clone(&self) -> (r: Self)
        ensures
            r.deep_view() == self.deep_view(),
    {
        Answer { text: self.text.clone(), is_correct: self.is_correct }
    }
}

/// A quiz question with its ordered answers.
#[derive(Debug)]
pub struct Question {
    pub text: String,
    pub answers: Vec<Answer>,
}

/// The mathematical value of a [`Question`].
pub struct QuestionView {
    pub text: Seq<char>,
    pub answers: Seq<AnswerView>,
}

impl DeepView for Question {
    type V = QuestionView;

    open spec fn deep_view(&self) -> QuestionView {
        QuestionView { text: self.text@, answers: self.answers.deep_view() }
    }
}

impl Clone for Question {
    fn clone(&self) -> (r: Self)
        ensures
            r.deep_view() == self.deep_view(),
    {
        let answers = self.answers.clone();
        proof {
            assert(answers.deep_view() =~= self.answers.deep_view());
        }
        Question { text: self.text.clone(), answers }
    }
}

/// Whether two answers have the same text and the same correctness flag.
pub fn same_answer(a: &Answer, b: &Answer) -> (r: bool)
    ensures
        r == (a.deep_view() == b.deep_view()),
{
    a.text == b.text && a.is_correct == b.is_correct
}

/// Whether two questions have the same text and the same answers in the same order.
pub fn same_question(a: &Question, b: &Question) -> (r: bool)
    ensures
        r == (a.deep_view() == b.deep_view()),
{
    if a.text != b.text {
        return false;
    }
    if a.answers.len() != b.answers.len() {
        assert(a.answers.deep_view().len() != b.answers.deep_view().len());
        return false;
    }
    let mut i: usize = 0;
    while i < a.answers.len()
        invariant
            i <= a.answers.len(),
            a.answers.len() == b.answers.len(),
            forall|j: int| 0 <= j < i ==> a.answers[j].deep_view() == b.answers[j].deep_view(),
        decreases a.answers.len() - i,
    {
        if !same_answer(&a.answers[i], &b.answers[i]) {
            assert(a.answers.deep_view()[i as int] != b.answers.deep_view()[i as int]);
            return false;
        }
        i += 1;
    }
    assert(a.answers.deep_view() =~= b.answers.deep_view());
    true
}

/// Whether two lists of questions are equal position by position.
pub fn same_questions(a: &Vec<Question>, b: &Vec<Question>) -> (r: bool)
    ensures
        r == (a.deep_view() == b.deep_view()),
{
    if a.len() != b.len() {
        assert(a.deep_view().len() != b.deep_view().len());
        return false;
    }
    let mut i: usize = 0;
    while i < a.len()
        invariant
            i <= a.len(),
            a.len() == b.len(),
            forall|j: int| 0 <= j < i ==> a[j].deep_view() == b[j].deep_view(),
        decreases a.len() - i,
    {
        if !same_question(&a[i], &b[i]) {
            assert(a.deep_view()[i as int] != b.deep_view()[i as int]);
            return false;
        }
        i += 1;
    }
    assert(a.deep_view() =~= b.deep_view());
    true
}

impl PartialEq for Answer {
    fn eq(&self, other: &Self) -> (r: bool) {
        same_answer(self, other)
    }
}

impl vstd::std_specs::cmp::PartialEqSpecImpl for Answer {
    open spec fn obeys_eq_spec() -> bool {
        true
    }

    open spec fn eq_spec(&self, other: &Self) -> bool {
        self.deep_view() == other.deep_view()
    }
}

impl PartialEq for Question {
    fn eq(&self, other: &Self) -> (r: bool) {
        same_question(self, other)
    }
}

impl vstd::std_specs::cmp::PartialEqSpecImpl for Question {
    open spec fn obeys_eq_spec() -> bool {
        true
    }

    open spec fn eq_spec(&self, other: &Self) -> bool {
        self.deep_view() == other.deep_view()
    }
}

} // verus!
