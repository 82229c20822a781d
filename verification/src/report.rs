//! The report vocabulary kernels share: statuses, summaries, questions and
//! answers, uniform across kernels so that a human is asked the same way
//! whatever loop is running.

use crate::fault::{self, Field, FieldView};
use crate::json::{self, Json};
use crate::run::PauseReason;
use crate::text;
use crate::wire;
use vstd::prelude::*;

verus! {

/// Where a report says the run stands.
#[derive(Debug, Clone, Copy, PartialEq, Eq, Structural)]
pub enum ReportStatus {
    Continue,
    Done,
    Blocked,
    NeedsInput,
}

impl ReportStatus {
    /// The word the wire format has for the status.
    pub open spec fn word(self) -> Seq<char> {
        match self {
            ReportStatus::Continue => "continue"@,
            ReportStatus::Done => "done"@,
            ReportStatus::Blocked => "blocked"@,
            ReportStatus::NeedsInput => "needs_input"@,
        }
    }

    pub fn as_str(&self) -> (s: &'static str)
        ensures
            s@ == self.word(),
    {
        match self {
            ReportStatus::Continue => "continue",
            ReportStatus::Done => "done",
            ReportStatus::Blocked => "blocked",
            ReportStatus::NeedsInput => "needs_input",
        }
    }
}

/// The status a word of the wire format stands for.
pub open spec fn status_named(word: Seq<char>) -> Option<ReportStatus> {
    if word == "continue"@ {
        Some(ReportStatus::Continue)
    } else if word == "done"@ {
        Some(ReportStatus::Done)
    } else if word == "blocked"@ {
        Some(ReportStatus::Blocked)
    } else if word == "needs_input"@ {
        Some(ReportStatus::NeedsInput)
    } else {
        None
    }
}

/// [`status_named`], computed.
pub fn named_status(word: &str) -> (r: Option<ReportStatus>)
    ensures
        r == status_named(word@),
{
    if text::same(word, "continue") {
        Some(ReportStatus::Continue)
    } else if text::same(word, "done") {
        Some(ReportStatus::Done)
    } else if text::same(word, "blocked") {
        Some(ReportStatus::Blocked)
    } else if text::same(word, "needs_input") {
        Some(ReportStatus::NeedsInput)
    } else {
        None
    }
}

/// Every status is the one its word names.
pub proof fn lemma_status_word_names_it(status: ReportStatus)
    ensures
        status_named(status.word()) == Some(status),
{
    reveal_strlit("continue");
    reveal_strlit("done");
    reveal_strlit("blocked");
    reveal_strlit("needs_input");
    assert("continue"@.len() == 8 && "done"@.len() == 4 && "blocked"@.len() == 7
        && "needs_input"@.len() == 11);
}

/// The member as a status.
pub open spec fn status_at(v: json::JsonView, key: Seq<char>) -> Option<ReportStatus> {
    match wire::text_at(v, key) {
        Some(word) => status_named(word),
        None => None,
    }
}

/// [`status_at`], computed.
pub fn read_status(v: &Json, key: &str) -> (r: Option<ReportStatus>)
    ensures
        r == status_at(v@, key@),
{
    let word = wire::read_text(v, key)?;
    named_status(word.as_str())
}

/// The words of the wire format for a status.
pub open spec fn status_words() -> Seq<Seq<char>> {
    seq!["continue"@, "done"@, "blocked"@, "needs_input"@]
}

proof fn lemma_status_words(word: Seq<char>)
    ensures
        status_words().contains(word) <==> status_named(word) is Some,
{
    let words = status_words();
    assert(words[0] == "continue"@ && words[1] == "done"@ && words[2] == "blocked"@ && words[3]
        == "needs_input"@);
}

/// The member as a status.
pub open spec fn status_field(v: json::JsonView, key: Seq<char>) -> FieldView {
    fault::word_field(v, key, status_words())
}

/// [`status_field`], computed.
pub fn look_for_status(v: &Json, key: &'static str) -> (r: Field)
    ensures
        r@ == status_field(v@, key@),
{
    let words: Vec<&'static str> = vec!["continue", "done", "blocked", "needs_input"];
    assert(fault::spelled(words@) =~= status_words());
    fault::look_for_word(v, key, &words)
}

/// A member is a sound status exactly where it reads as one.
pub proof fn lemma_status_field(v: json::JsonView, key: Seq<char>)
    ensures
        fault::sound(v, status_field(v, key)) <==> status_at(v, key) is Some,
{
    if let Some(json::JsonView::Str(word)) = json::member(v, key) {
        lemma_status_words(word);
    }
}

/// Something only a human can answer.
#[derive(Debug, Clone, PartialEq, Eq)]
pub struct Question {
    /// The handle an answer is addressed to.
    pub id: String,
    pub text: String,
    /// Suggested answers; free text is always allowed.
    pub options: Vec<String>,
}

/// What a question asks.
#[verifier::ext_equal]
pub ghost struct QuestionView {
    pub id: Seq<char>,
    pub text: Seq<char>,
    pub options: Seq<Seq<char>>,
}

impl View for Question {
    type V = QuestionView;

    open spec fn view(&self) -> QuestionView {
        QuestionView { id: self.id@, text: self.text@, options: text::texts(self.options@) }
    }
}

/// A human's answer to the question it names.
#[derive(Debug, Clone, PartialEq, Eq)]
pub struct Answer {
    pub question_id: String,
    pub answer: String,
}

/// What an answer says.
#[verifier::ext_equal]
pub ghost struct AnswerView {
    pub question_id: Seq<char>,
    pub answer: Seq<char>,
}

impl View for Answer {
    type V = AnswerView;

    open spec fn view(&self) -> AnswerView {
        AnswerView { question_id: self.question_id@, answer: self.answer@ }
    }
}

/// What a list of questions asks.
pub open spec fn question_views(v: Seq<Question>) -> Seq<QuestionView> {
    v.map_values(|q: Question| q@)
}

/// What a list of answers says.
pub open spec fn answer_views(v: Seq<Answer>) -> Seq<AnswerView> {
    v.map_values(|a: Answer| a@)
}

impl Question {
    /// The same question, once more.
    pub fn copy(&self) -> (r: Question)
        ensures
            r@ == self@,
    {
        Question {
            id: self.id.clone(),
            text: self.text.clone(),
            options: text::copied_all(&self.options),
        }
    }

    /// The question as a document.
    pub fn to_json(&self) -> (r: Json)
        ensures
            r@ == question_json(self@),
    {
        let mut fields: Vec<(String, Json)> = Vec::new();
        wire::put(&mut fields, "id", wire::text_json(self.id.as_str()));
        wire::put(&mut fields, "text", wire::text_json(self.text.as_str()));
        wire::put(&mut fields, "options", wire::texts_json(&self.options));
        Json::Object(fields)
    }

    /// [`as_question`], computed.
    fn read(v: &Json) -> (r: Option<Question>)
        ensures
            match r {
                Some(q) => as_question(v@) == Some(q@),
                None => as_question(v@) is None,
            },
    {
        let id = wire::read_text(v, "id")?;
        let asked = wire::read_text(v, "text")?;
        let options = wire::read_texts_or_none(v, "options")?;
        Some(Question { id, text: asked, options })
    }

    /// [`question_fault`], computed.
    fn refusal(v: &Json) -> (r: Option<String>)
        ensures
            wire::opt_text(r) == question_fault(v@),
    {
        let fields = vec![
            fault::look_for_text(v, "id"),
            fault::look_for_text(v, "text"),
            fault::look_for_texts(v, "options", false),
        ];
        assert(fault::field_views(fields@) =~= question_fields(v@));
        fault::look_over(v, "struct Question", &fields, false)
    }

    /// Reads a question from a document.
    pub fn from_json(v: &Json) -> (r: Result<Question, String>)
        ensures
            match r {
                Ok(q) => as_question(v@) == Some(q@),
                Err(words) => as_question(v@) is None && question_fault(v@) == Some(words@),
            },
    {
        proof {
            json::every_document_is_orderly(*v);
            lemma_question(v@);
        }
        match Question::refusal(v) {
            Some(words) => Err(words),
            None => Ok(Question::read(v).unwrap()),
        }
    }
}

impl Answer {
    /// The same answer, once more.
    pub fn copy(&self) -> (r: Answer)
        ensures
            r@ == self@,
    {
        Answer { question_id: self.question_id.clone(), answer: self.answer.clone() }
    }

    /// The answer as a document.
    pub fn to_json(&self) -> (r: Json)
        ensures
            r@ == answer_json(self@),
    {
        let mut fields: Vec<(String, Json)> = Vec::new();
        wire::put(&mut fields, "question_id", wire::text_json(self.question_id.as_str()));
        wire::put(&mut fields, "answer", wire::text_json(self.answer.as_str()));
        Json::Object(fields)
    }

    /// [`as_answer`], computed.
    fn read(v: &Json) -> (r: Option<Answer>)
        ensures
            match r {
                Some(a) => as_answer(v@) == Some(a@),
                None => as_answer(v@) is None,
            },
    {
        let question_id = wire::read_text(v, "question_id")?;
        let answer = wire::read_text(v, "answer")?;
        Some(Answer { question_id, answer })
    }

    /// [`answer_fault`], computed.
    pub fn refusal(v: &Json) -> (r: Option<String>)
        ensures
            wire::opt_text(r) == answer_fault(v@),
    {
        let fields = vec![
            fault::look_for_text(v, "question_id"),
            fault::look_for_text(v, "answer"),
        ];
        assert(fault::field_views(fields@) =~= answer_fields(v@));
        fault::look_over(v, "struct Answer", &fields, false)
    }

    /// Reads an answer from a document.
    pub fn from_json(v: &Json) -> (r: Result<Answer, String>)
        ensures
            match r {
                Ok(a) => as_answer(v@) == Some(a@),
                Err(words) => as_answer(v@) is None && answer_fault(v@) == Some(words@),
            },
    {
        proof {
            json::every_document_is_orderly(*v);
            lemma_answer(v@);
        }
        match Answer::refusal(v) {
            Some(words) => Err(words),
            None => Ok(Answer::read(v).unwrap()),
        }
    }
}

/// An answer as a document.
pub open spec fn answer_json(a: AnswerView) -> json::JsonView {
    json::JsonView::Object(
        json::Members::empty().insert("question_id"@, json::JsonView::Str(a.question_id)).insert(
            "answer"@,
            json::JsonView::Str(a.answer),
        ),
    )
}

/// The answer a document holds.
pub open spec fn as_answer(v: json::JsonView) -> Option<AnswerView> {
    match (wire::text_at(v, "question_id"@), wire::text_at(v, "answer"@)) {
        (Some(question_id), Some(answer)) => Some(AnswerView { question_id, answer }),
        _ => None,
    }
}

/// What is known of the members of an answer.
pub open spec fn answer_fields(v: json::JsonView) -> Seq<FieldView> {
    seq![fault::text_field(v, "question_id"@), fault::text_field(v, "answer"@)]
}

/// What is wrong with a document that is to be an answer.
pub open spec fn answer_fault(v: json::JsonView) -> Option<Seq<char>> {
    fault::record_fault(v, "struct Answer"@, answer_fields(v), false)
}

/// A document is refused exactly where it holds no answer.
pub proof fn lemma_answer(v: json::JsonView)
    requires
        json::orderly(v),
    ensures
        answer_fault(v) is None <==> as_answer(v) is Some,
{
    let fields = answer_fields(v);
    fault::lemma_record(v, "struct Answer"@, fields, false);
    assert(fault::all_sound(v, fields) <==> fault::sound(v, fields[0]) && fault::sound(
        v,
        fields[1],
    ));
}

/// An answer written as a document reads back as it was.
pub proof fn answers_read_back(a: AnswerView)
    ensures
        as_answer(answer_json(a)) == Some(a),
{
    reveal_strlit("question_id");
    reveal_strlit("answer");
    assert("question_id"@.len() == 11 && "answer"@.len() == 6);
}

/// A question as a document.
pub open spec fn question_json(q: QuestionView) -> json::JsonView {
    json::JsonView::Object(
        json::Members::empty().insert("id"@, json::JsonView::Str(q.id)).insert(
            "text"@,
            json::JsonView::Str(q.text),
        ).insert("options"@, wire::texts_view(q.options)),
    )
}

/// The question a document holds. Members it does not name are ignored, and
/// so is the lack of options.
pub open spec fn as_question(v: json::JsonView) -> Option<QuestionView> {
    match (
        wire::text_at(v, "id"@),
        wire::text_at(v, "text"@),
        wire::texts_or_none_at(v, "options"@),
    ) {
        (Some(id), Some(text), Some(options)) => Some(QuestionView { id, text, options }),
        _ => None,
    }
}

/// What is known of the members of a question.
pub open spec fn question_fields(v: json::JsonView) -> Seq<FieldView> {
    seq![
        fault::text_field(v, "id"@),
        fault::text_field(v, "text"@),
        fault::texts_field(v, "options"@, false),
    ]
}

/// What is wrong with a document that is to be a question.
pub open spec fn question_fault(v: json::JsonView) -> Option<Seq<char>> {
    fault::record_fault(v, "struct Question"@, question_fields(v), false)
}

/// A document is refused exactly where it holds no question.
pub proof fn lemma_question(v: json::JsonView)
    requires
        json::orderly(v),
    ensures
        question_fault(v) is None <==> as_question(v) is Some,
{
    let fields = question_fields(v);
    fault::lemma_record(v, "struct Question"@, fields, false);
    if let Some(options) = json::member(v, "options"@) {
        fault::lemma_texts_fault(options);
    }
    assert(fault::all_sound(v, fields) <==> fault::sound(v, fields[0]) && fault::sound(
        v,
        fields[1],
    ) && fault::sound(v, fields[2]));
}

/// A question written as a document reads back as it was.
pub proof fn questions_read_back(q: QuestionView)
    ensures
        as_question(question_json(q)) == Some(q),
{
    reveal_strlit("id");
    reveal_strlit("text");
    reveal_strlit("options");
    assert("id"@.len() == 2 && "text"@.len() == 4 && "options"@.len() == 7);
    wire::lemma_texts_read_back(q.options);
}

/// The questions of a document that is a list of questions.
pub open spec fn as_questions(v: json::JsonView) -> Option<Seq<QuestionView>> {
    match v {
        json::JsonView::Array(items) => if forall|i: int|
            0 <= i < items.len() ==> #[trigger] as_question(items[i]) is Some {
            Some(items.map_values(|item: json::JsonView| as_question(item)->0))
        } else {
            None
        },
        _ => None,
    }
}

/// The member as a list of questions, empty where it is missing.
pub open spec fn questions_at(v: json::JsonView, key: Seq<char>) -> Option<Seq<QuestionView>> {
    match json::member(v, key) {
        Some(list) => as_questions(list),
        None => Some(Seq::empty()),
    }
}

/// What is wrong with a document that is to be a list of questions.
pub open spec fn questions_fault(v: json::JsonView) -> Option<Seq<char>> {
    match v {
        json::JsonView::Array(items) => fault::first_of(
            items.map_values(|item: json::JsonView| question_fault(item)),
        ),
        _ => Some(fault::invalid_type(v, "a sequence"@)),
    }
}

/// [`questions_fault`], computed.
fn no_questions(v: &Json) -> (r: Option<String>)
    ensures
        wire::opt_text(r) == questions_fault(v@),
{
    match v {
        Json::Array(items) => {
            let ghost faults = json::items_view(items@).map_values(
                |item: json::JsonView| question_fault(item),
            );
            proof {
                json::lemma_items(items@);
                fault::lemma_first_of(faults);
            }
            for i in 0..items.len()
                invariant
                    v@ == json::JsonView::Array(json::items_view(items@)),
                    faults == json::items_view(items@).map_values(
                        |item: json::JsonView| question_fault(item),
                    ),
                    faults.len() == items@.len(),
                    forall|j: int|
                        0 <= j < items@.len() ==> #[trigger] faults[j] == question_fault(
                            items@[j]@,
                        ),
                    forall|j: int| 0 <= j < i ==> #[trigger] faults[j] is None,
                    fault::first_of(faults) is None <==> forall|j: int|
                        0 <= j < faults.len() ==> #[trigger] faults[j] is None,
                    forall|j: int|
                        0 <= j < faults.len() && #[trigger] faults[j] is Some && (forall|k: int|
                            0 <= k < j ==> #[trigger] faults[k] is None) ==> fault::first_of(faults)
                            == faults[j],
            {
                let words = Question::refusal(&items[i]);
                assert(faults[i as int] == wire::opt_text(words));
                if words.is_some() {
                    return words;
                }
            }
            None
        },
        _ => Some(fault::no_list(v)),
    }
}

/// A document is refused exactly where it holds no list of questions.
pub proof fn lemma_questions(v: json::JsonView)
    requires
        json::orderly(v),
    ensures
        questions_fault(v) is None <==> as_questions(v) is Some,
{
    if let json::JsonView::Array(items) = v {
        let faults = items.map_values(|item: json::JsonView| question_fault(item));
        fault::lemma_first_of(faults);
        assert forall|i: int|
            #![trigger faults[i]]
            #![trigger as_question(items[i])]
            0 <= i < items.len() implies (faults[i] is None <==> as_question(items[i]) is Some) by {
            lemma_question(items[i]);
        }
    }
}

/// The member as a list of questions, which may be missing.
pub open spec fn questions_field(v: json::JsonView, key: Seq<char>) -> FieldView {
    FieldView {
        key,
        required: false,
        fault: match json::member(v, key) {
            Some(m) => questions_fault(m),
            None => None,
        },
    }
}

/// [`questions_field`], computed.
pub fn look_for_questions(v: &Json, key: &'static str) -> (r: Field)
    ensures
        r@ == questions_field(v@, key@),
{
    let fault = match v.get(key) {
        Some(m) => no_questions(m),
        None => None,
    };
    Field { key, required: false, fault }
}

/// A member is a sound list of questions exactly where it reads as one.
pub proof fn lemma_questions_field(v: json::JsonView, key: Seq<char>)
    requires
        json::orderly(v),
    ensures
        fault::sound(v, questions_field(v, key)) <==> questions_at(v, key) is Some,
{
    if let Some(m) = json::member(v, key) {
        assert(v->Object_0.dom().contains(key));
        lemma_questions(m);
    }
}

/// A list of questions as a document.
pub open spec fn questions_json(v: Seq<QuestionView>) -> json::JsonView {
    json::JsonView::Array(v.map_values(|q: QuestionView| question_json(q)))
}

/// A list of questions written as a document reads back as it was.
pub proof fn lemma_questions_read_back(v: Seq<QuestionView>)
    ensures
        as_questions(questions_json(v)) == Some(v),
{
    let items = questions_json(v)->Array_0;
    assert forall|i: int| 0 <= i < items.len() implies #[trigger] as_question(items[i]) == Some(
        v[i],
    ) by {
        questions_read_back(v[i]);
    }
    assert(items.map_values(|item: json::JsonView| as_question(item)->0) =~= v);
}

/// [`questions_json`], computed.
pub fn questions_to_json(v: &Vec<Question>) -> (r: Json)
    ensures
        r@ == questions_json(question_views(v@)),
{
    let mut items: Vec<Json> = Vec::new();
    for i in 0..v.len()
        invariant
            items@.len() == i,
            forall|j: int| 0 <= j < i ==> #[trigger] items@[j]@ == question_json(v@[j]@),
    {
        items.push(v[i].to_json());
    }
    proof {
        json::lemma_items(items@);
    }
    assert(json::items_view(items@) =~= question_views(v@).map_values(
        |q: QuestionView| question_json(q),
    ));
    Json::Array(items)
}

/// [`questions_at`], computed.
pub fn read_questions(v: &Json, key: &str) -> (r: Option<Vec<Question>>)
    ensures
        match r {
            Some(list) => questions_at(v@, key@) == Some(question_views(list@)),
            None => questions_at(v@, key@) is None,
        },
{
    match v.get(key) {
        None => {
            let list: Vec<Question> = Vec::new();
            assert(question_views(list@) =~= Seq::empty());
            Some(list)
        },
        Some(Json::Array(items)) => {
            let mut list: Vec<Question> = Vec::new();
            let ghost views = json::items_view(items@);
            proof {
                json::lemma_items(items@);
            }
            for i in 0..items.len()
                invariant
                    views == json::items_view(items@),
                    forall|j: int| 0 <= j < items@.len() ==> #[trigger] views[j] == items@[j]@,
                    views.len() == items@.len(),
                    questions_at(v@, key@) == as_questions(json::JsonView::Array(views)),
                    list@.len() == i,
                    forall|j: int|
                        0 <= j < i ==> #[trigger] as_question(views[j]) == Some(list@[j]@),
            {
                match Question::read(&items[i]) {
                    Some(q) => list.push(q),
                    None => {
                        assert(as_question(views[i as int]) is None);
                        return None;
                    },
                }
            }
            assert(views.map_values(|item: json::JsonView| as_question(item)->0)
                =~= question_views(list@));
            Some(list)
        },
        Some(_) => None,
    }
}

/// A copy of a list of questions.
pub fn copied_questions(v: &Vec<Question>) -> (r: Vec<Question>)
    ensures
        question_views(r@) == question_views(v@),
{
    let mut r: Vec<Question> = Vec::new();
    for i in 0..v.len()
        invariant
            r@.len() == i,
            forall|j: int| 0 <= j < i ==> #[trigger] r@[j]@ == v@[j]@,
    {
        r.push(v[i].copy());
    }
    assert(question_views(r@) =~= question_views(v@));
    r
}

/// The slice every kernel's report carries, whatever its dialect adds.
#[derive(Debug, Clone, PartialEq, Eq)]
pub struct ReportCore {
    pub status: ReportStatus,
    pub summary: String,
    pub questions: Vec<Question>,
}

/// What the shared slice of a report says.
#[verifier::ext_equal]
pub ghost struct ReportCoreView {
    pub status: ReportStatus,
    pub summary: Seq<char>,
    pub questions: Seq<QuestionView>,
}

impl View for ReportCore {
    type V = ReportCoreView;

    open spec fn view(&self) -> ReportCoreView {
        ReportCoreView {
            status: self.status,
            summary: self.summary@,
            questions: question_views(self.questions@),
        }
    }
}

/// The shared slice of the report a document holds; the rest of the report
/// is the dialect's and is ignored.
pub open spec fn as_core(v: json::JsonView) -> Option<ReportCoreView> {
    match (
        status_at(v, "status"@),
        wire::text_at(v, "summary"@),
        questions_at(v, "questions"@),
    ) {
        (Some(status), Some(summary), Some(questions)) => Some(
            ReportCoreView { status, summary, questions },
        ),
        _ => None,
    }
}

/// What is known of the members of a report's shared slice.
pub open spec fn core_fields(v: json::JsonView) -> Seq<FieldView> {
    seq![
        status_field(v, "status"@),
        fault::text_field(v, "summary"@),
        questions_field(v, "questions"@),
    ]
}

/// What is wrong with a document that is to carry a report's shared slice.
pub open spec fn core_fault(v: json::JsonView) -> Option<Seq<char>> {
    fault::record_fault(v, "struct ReportCore"@, core_fields(v), false)
}

/// A document is refused exactly where it carries no shared slice.
pub proof fn lemma_core(v: json::JsonView)
    requires
        json::orderly(v),
    ensures
        core_fault(v) is None <==> as_core(v) is Some,
{
    let fields = core_fields(v);
    fault::lemma_record(v, "struct ReportCore"@, fields, false);
    lemma_status_field(v, "status"@);
    lemma_questions_field(v, "questions"@);
    assert(fault::all_sound(v, fields) <==> fault::sound(v, fields[0]) && fault::sound(
        v,
        fields[1],
    ) && fault::sound(v, fields[2]));
}

impl ReportCore {
    /// [`as_core`], computed.
    fn read(v: &Json) -> (r: Option<ReportCore>)
        ensures
            match r {
                Some(core) => as_core(v@) == Some(core@),
                None => as_core(v@) is None,
            },
    {
        let status = read_status(v, "status")?;
        let summary = wire::read_text(v, "summary")?;
        let questions = read_questions(v, "questions")?;
        Some(ReportCore { status, summary, questions })
    }

    /// Reads the shared slice of a report.
    pub fn from_json(v: &Json) -> (r: Result<ReportCore, String>)
        ensures
            match r {
                Ok(core) => as_core(v@) == Some(core@),
                Err(words) => as_core(v@) is None && core_fault(v@) == Some(words@),
            },
    {
        let fields = vec![
            look_for_status(v, "status"),
            fault::look_for_text(v, "summary"),
            look_for_questions(v, "questions"),
        ];
        proof {
            assert(fault::field_views(fields@) =~= core_fields(v@));
            json::every_document_is_orderly(*v);
            lemma_core(v@);
        }
        match fault::look_over(v, "struct ReportCore", &fields, false) {
            Some(words) => Err(words),
            None => Ok(ReportCore::read(v).unwrap()),
        }
    }
}

/// Where a report's status sends the run: the single mapping from the shared
/// status vocabulary to kernel control flow, so no kernel respells it.
#[derive(Debug, Clone, Copy, PartialEq, Eq, Structural)]
pub enum Disposition {
    /// `continue`: the work advances within the run.
    Advance,
    /// `done`: a completion claim, to be verified and judged before it ends
    /// anything.
    Claimed,
    /// `blocked` / `needs_input`: the run pauses for this reason.
    Pause(PauseReason),
}

/// Where each status sends the run.
pub open spec fn disposed(status: ReportStatus) -> Disposition {
    match status {
        ReportStatus::Continue => Disposition::Advance,
        ReportStatus::Done => Disposition::Claimed,
        ReportStatus::Blocked => Disposition::Pause(PauseReason::Blocked),
        ReportStatus::NeedsInput => Disposition::Pause(PauseReason::AwaitingHuman),
    }
}

/// [`disposed`], computed.
pub fn disposition(status: ReportStatus) -> (r: Disposition)
    ensures
        r == disposed(status),
{
    match status {
        ReportStatus::Continue => Disposition::Advance,
        ReportStatus::Done => Disposition::Claimed,
        ReportStatus::Blocked => Disposition::Pause(PauseReason::Blocked),
        ReportStatus::NeedsInput => Disposition::Pause(PauseReason::AwaitingHuman),
    }
}

} // verus!
