//! Wire-facing request and response shapes, and the verified
//! conversions from the stored entities into them.

use vstd::prelude::*;
use crate::auth::oid_to_hex_checked;
use crate::ids::{hex_value, is_oid_str, pow16, token_to_hex};
use crate::model::{Category, Profile, Question, Quiz, Role, User, UserAnswer};
use crate::platform::{format_rfc3339, rfc3339_of};
use crate::scoring::{Difficulty, QuestionType};
use crate::util::{copy_opt_string, copy_strings};

verus! {

/// A user as returned to clients: ids in hexadecimal, the session
/// tokens of the quiz history in hexadecimal, no credential hash.
pub struct UserResponse {
    pub id: Option<String>,
    pub phone_number: String,
    pub username: String,
    pub role: Role,
    pub profile: Profile,
    pub xp: u64,
    pub quiz_history: Vec<String>,
}

/// A category as returned to clients.
pub struct CategoryResponse {
    pub id: Option<String>,
    pub name: String,
    pub tags: Vec<String>,
    pub parent_id: Option<String>,
    pub image_url: Option<String>,
}

/// A category joined with its cached top user.
pub struct CategoryWithTopUserResponse {
    pub category: CategoryResponse,
    pub top_user: Option<UserResponse>,
}

/// The payload confirming a created category.
pub struct CreateCategoryResponse {
    pub message: String,
    pub category: CategoryResponse,
}

/// A question as returned to clients.
pub struct QuestionResponse {
    pub id: Option<String>,
    pub category_id: String,
    pub text: String,
    pub question_type: QuestionType,
    pub options: Vec<String>,
    pub correct_answer: String,
    pub explanation: String,
    pub difficulty: Difficulty,
    pub timer_secs: u64,
    pub tags: Vec<String>,
}

/// The payload confirming a created question.
pub struct CreateQuestionResponse {
    pub message: String,
    pub question: QuestionResponse,
}

/// One submitted answer as returned to clients.
pub struct UserAnswerResponse {
    pub question_id: String,
    pub answer: String,
    pub time_taken_secs: u64,
    pub correct: bool,
}

/// A quiz attempt as returned to clients: ids in hexadecimal,
/// timestamps rendered as RFC 3339 strings.
pub struct QuizResponse {
    pub id: Option<String>,
    pub uuid: String,
    pub user_id: String,
    pub category_id: String,
    pub difficulty: Difficulty,
    pub questions: Vec<String>,
    pub answers: Vec<UserAnswerResponse>,
    pub start_time: String,
    pub end_time: Option<String>,
    pub score: u64,
    pub paused: bool,
}

/// The payload of a login attempt.
pub struct LoginResponse {
    pub message: String,
    pub token: Option<String>,
    pub user: Option<UserResponse>,
}

/// Whether `h` is the canonical hexadecimal rendering of the id `id`.
pub open spec fn renders_oid(h: Seq<char>, id: u128) -> bool {
    is_oid_str(h) && (id < pow16(24) ==> hex_value(h) == id)
}

/// Whether `h` is the canonical hexadecimal rendering of the token `t`.
pub open spec fn renders_token(h: Seq<char>, t: u128) -> bool {
    h.len() == 32 && hex_value(h) == t
}

/// Copies a profile; the copy renders as the original.
pub fn profile_copy(p: &Profile) -> (r: Profile)
    ensures
        r.avatar.deep_view() == p.avatar.deep_view(),
        r.bio.deep_view() == p.bio.deep_view(),
        r.preferred_language.deep_view() == p.preferred_language.deep_view(),
        r.country.deep_view() == p.country.deep_view(),
{
    Profile {
        avatar: copy_opt_string(&p.avatar),
        bio: copy_opt_string(&p.bio),
        preferred_language: copy_opt_string(&p.preferred_language),
        country: copy_opt_string(&p.country),
    }
}

/// Renders a user for clients: hexadecimal id and history tokens, the
/// profile and counters carried over, the credential hash left out.
pub fn user_response(u: &User) -> (r: UserResponse)
    ensures
        r.id matches Some(h) && renders_oid(h@, u.id),
        r.phone_number@ == u.phone_number@,
        r.username@ == u.username@,
        r.role == u.role,
        r.xp == u.xp,
        r.quiz_history@.len() == u.quiz_history@.len(),
        forall|i: int|
            0 <= i < u.quiz_history@.len() ==> renders_token(
                #[trigger] r.quiz_history.deep_view()[i],
                u.quiz_history@[i],
            ),
{
    let mut history: Vec<String> = Vec::new();
    let mut i: usize = 0;
    while i < u.quiz_history.len()
        invariant
            0 <= i <= u.quiz_history@.len(),
            history@.len() == i,
            forall|j: int|
                0 <= j < i ==> renders_token(
                    #[trigger] history.deep_view()[j],
                    u.quiz_history@[j],
                ),
        decreases u.quiz_history@.len() - i,
    {
        let ghost prev = history.deep_view();
        let h = token_to_hex(u.quiz_history[i]);
        let ghost hv = h@;
        history.push(h);
        proof {
            assert(history.deep_view() =~= prev.push(hv));
        }
        i = i + 1;
    }
    UserResponse {
        id: Some(oid_to_hex_checked(u.id)),
        phone_number: u.phone_number.clone(),
        username: u.username.clone(),
        role: u.role,
        profile: profile_copy(&u.profile),
        xp: u.xp,
        quiz_history: history,
    }
}

/// Renders a category for clients: hexadecimal ids, the cached top user
/// left for the joined responses.
pub fn category_response(c: &Category) -> (r: CategoryResponse)
    ensures
        r.id matches Some(h) && renders_oid(h@, c.id),
        r.name@ == c.name@,
        r.tags.deep_view() == c.tags.deep_view(),
        match (c.parent_id, r.parent_id) {
            (Some(p), Some(h)) => renders_oid(h@, p),
            (None, None) => true,
            _ => false,
        },
        r.image_url.deep_view() == c.image_url.deep_view(),
{
    CategoryResponse {
        id: Some(oid_to_hex_checked(c.id)),
        name: c.name.clone(),
        tags: copy_strings(&c.tags),
        parent_id: match c.parent_id {
            Some(p) => Some(oid_to_hex_checked(p)),
            None => None,
        },
        image_url: copy_opt_string(&c.image_url),
    }
}

/// Renders a question for clients.
pub fn question_response(q: &Question) -> (r: QuestionResponse)
    ensures
        r.id matches Some(h) && renders_oid(h@, q.id),
        renders_oid(r.category_id@, q.category_id),
        r.text@ == q.question@,
        r.question_type == q.question_type,
        r.options.deep_view() == q.options.deep_view(),
        r.correct_answer@ == q.correct_answer@,
        r.explanation@ == q.explanation@,
        r.difficulty == q.difficulty,
        r.timer_secs == q.timer_secs,
        r.tags.deep_view() == q.tags.deep_view(),
{
    QuestionResponse {
        id: Some(oid_to_hex_checked(q.id)),
        category_id: oid_to_hex_checked(q.category_id),
        text: q.question.clone(),
        question_type: q.question_type,
        options: copy_strings(&q.options),
        correct_answer: q.correct_answer.clone(),
        explanation: q.explanation.clone(),
        difficulty: q.difficulty,
        timer_secs: q.timer_secs,
        tags: copy_strings(&q.tags),
    }
}

/// Renders one submitted answer for clients.
pub fn user_answer_response(a: &UserAnswer) -> (r: UserAnswerResponse)
    ensures
        renders_oid(r.question_id@, a.question_id),
        r.answer@ == a.answer@,
        r.time_taken_secs == a.time_taken_secs,
        r.correct == a.correct,
{
    UserAnswerResponse {
        question_id: oid_to_hex_checked(a.question_id),
        answer: a.answer.clone(),
        time_taken_secs: a.time_taken_secs,
        correct: a.correct,
    }
}

/// Renders a quiz attempt for clients: hexadecimal ids, the session
/// token in hexadecimal, timestamps as RFC 3339 strings.
pub fn quiz_response(q: &Quiz) -> (r: QuizResponse)
    ensures
        r.id matches Some(h) && renders_oid(h@, q.id),
        renders_token(r.uuid@, q.uuid),
        renders_oid(r.user_id@, q.user_id),
        renders_oid(r.category_id@, q.category_id),
        r.difficulty == q.difficulty,
        r.questions@.len() == q.questions@.len(),
        forall|i: int|
            0 <= i < q.questions@.len() ==> renders_oid(
                #[trigger] r.questions.deep_view()[i],
                q.questions@[i],
            ),
        r.answers@.len() == q.answers@.len(),
        forall|i: int|
            0 <= i < q.answers@.len() ==> {
                let a = #[trigger] r.answers@[i];
                &&& renders_oid(a.question_id@, q.answers@[i].question_id)
                &&& a.answer@ == q.answers@[i].answer@
                &&& a.time_taken_secs == q.answers@[i].time_taken_secs
                &&& a.correct == q.answers@[i].correct
            },
        r.start_time@ == rfc3339_of(q.start_time),
        match (q.end_time, r.end_time) {
            (Some(t), Some(h)) => h@ == rfc3339_of(t),
            (None, None) => true,
            _ => false,
        },
        r.score == q.score,
        r.paused == q.paused,
{
    let mut questions: Vec<String> = Vec::new();
    let mut i: usize = 0;
    while i < q.questions.len()
        invariant
            0 <= i <= q.questions@.len(),
            questions@.len() == i,
            forall|j: int|
                0 <= j < i ==> renders_oid(
                    #[trigger] questions.deep_view()[j],
                    q.questions@[j],
                ),
        decreases q.questions@.len() - i,
    {
        let ghost prev = questions.deep_view();
        let h = oid_to_hex_checked(q.questions[i]);
        let ghost hv = h@;
        questions.push(h);
        proof {
            assert(questions.deep_view() =~= prev.push(hv));
        }
        i = i + 1;
    }
    let mut answers: Vec<UserAnswerResponse> = Vec::new();
    let mut k: usize = 0;
    while k < q.answers.len()
        invariant
            0 <= k <= q.answers@.len(),
            answers@.len() == k,
            forall|j: int|
                0 <= j < k ==> {
                    let a = #[trigger] answers@[j];
                    &&& renders_oid(a.question_id@, q.answers@[j].question_id)
                    &&& a.answer@ == q.answers@[j].answer@
                    &&& a.time_taken_secs == q.answers@[j].time_taken_secs
                    &&& a.correct == q.answers@[j].correct
                },
        decreases q.answers@.len() - k,
    {
        answers.push(user_answer_response(&q.answers[k]));
        k = k + 1;
    }
    QuizResponse {
        id: Some(oid_to_hex_checked(q.id)),
        uuid: token_to_hex(q.uuid),
        user_id: oid_to_hex_checked(q.user_id),
        category_id: oid_to_hex_checked(q.category_id),
        difficulty: q.difficulty,
        questions,
        answers,
        start_time: format_rfc3339(q.start_time),
        end_time: match q.end_time {
            Some(t) => Some(format_rfc3339(t)),
            None => None,
        },
        score: q.score,
        paused: q.paused,
    }
}

} // verus!
