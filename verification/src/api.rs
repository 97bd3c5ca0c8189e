//! The request-facing layer: request shapes as clients post them, and
//! the handlers that parse ids, drive the engines and render responses.
//! The surrounding transport (routing, headers, multipart) stays outside;
//! it hands these functions plain values.

use vstd::prelude::*;
use crate::auth::Claims;
use crate::dto::{category_response, quiz_response, user_response, CreateCategoryResponse,
    CreateQuestionResponse, LoginResponse, QuizResponse, UserResponse, question_response};
use crate::errors::{AuthError, QuizError};
use crate::ids::{hex_value, is_oid_str, parse_oid, Oid};
use crate::model::{Category, Profile, Question, Role};
use crate::scoring::{Difficulty, QuestionType};
use crate::store::{has_quiz, Store};
use crate::util::string_eq;

verus! {

/// A request to start a quiz.
pub struct StartQuizRequest {
    pub category_id: String,
    pub difficulty: Difficulty,
    pub num_questions: i32,
}

/// A request to submit one answer.
pub struct SubmitAnswerRequest {
    pub question_id: String,
    pub answer: String,
    pub time_taken: i64,
}

/// A request to pause or resume a quiz.
pub struct PauseQuizRequest {
    pub paused: bool,
}

/// A request to replace a user's profile.
pub struct UpdateProfileRequest {
    pub profile: Profile,
}

/// A login request.
pub struct LoginRequest {
    pub phone_number: String,
    pub password: String,
}

/// A request to send a verification code to a phone number.
pub struct StartVerificationRequest {
    pub phone_number: String,
}

/// A registration request.
pub struct RegisterRequest {
    pub phone_number: i32,
    pub username: String,
    pub password: String,
    pub role: Option<String>,
}

/// A registration confirmation carrying the one-time code.
pub struct ConfirmRegisterRequest {
    pub phone_number: String,
    pub code: String,
    pub username: String,
    pub password: String,
    pub role: Option<String>,
}

/// A request to create a category.
pub struct CreateCategoryRequest {
    pub name: String,
    pub tags: Vec<String>,
    pub parent_id: Option<String>,
}

/// A request to create a question.
pub struct CreateQuestionRequest {
    pub category_id: String,
    pub text: String,
    pub question_type: QuestionType,
    pub options: Vec<String>,
    pub correct_answer: String,
    pub explanation: String,
    pub difficulty: Difficulty,
    pub timer_secs: i64,
    pub tags: Vec<String>,
}

/// Whether `c` is one of the blank characters a tag is trimmed of.
pub open spec fn is_space(c: char) -> bool {
    c == ' ' || c == '\t' || c == '\n' || c == '\r'
}

/// A piece with no leading or trailing blank.
pub open spec fn is_trimmed(t: Seq<char>) -> bool {
    t.len() > 0 ==> !is_space(t[0]) && !is_space(t[t.len() - 1])
}

/// Number of commas in `s`.
pub open spec fn count_commas(s: Seq<char>) -> int
    decreases s.len(),
{
    if s.len() == 0 {
        0
    } else {
        count_commas(s.drop_last()) + if s.last() == ',' {
            1int
        } else {
            0int
        }
    }
}

/// The piece of `s` between `from` and `to`, with leading and trailing
/// blanks removed.
fn trimmed_piece(s: &str, from: usize, to: usize) -> (r: String)
    requires
        from <= to <= s@.len(),
    ensures
        is_trimmed(r@),
        exists|a: int, b: int|
            from <= a <= b <= to && r@ == s@.subrange(a, b) && (forall|j: int|
                from <= j < a ==> is_space(#[trigger] s@[j])) && (forall|j: int|
                b <= j < to ==> is_space(#[trigger] s@[j])),
{
    let mut lo = from;
    let mut hi = to;
    while lo < hi
        invariant
            from <= lo <= hi <= to <= s@.len(),
            forall|j: int| from <= j < lo ==> is_space(#[trigger] s@[j]),
            forall|j: int| hi <= j < to ==> is_space(#[trigger] s@[j]),
        ensures
            from <= lo <= hi <= to,
            forall|j: int| from <= j < lo ==> is_space(#[trigger] s@[j]),
            forall|j: int| hi <= j < to ==> is_space(#[trigger] s@[j]),
            lo < hi ==> !is_space(s@[lo as int]) && !is_space(s@[hi - 1]),
        decreases hi - lo,
    {
        let c = s.get_char(lo);
        if c == ' ' || c == '\t' || c == '\n' || c == '\r' {
            lo = lo + 1;
            continue ;
        }
        let d = s.get_char(hi - 1);
        if d == ' ' || d == '\t' || d == '\n' || d == '\r' {
            hi = hi - 1;
            continue ;
        }
        break ;
    }
    let piece = s.substring_char(lo, hi);
    piece.to_owned()
}

/// Splits a comma-separated tag list into its trimmed pieces: one piece
/// per comma-separated segment, in order.
pub fn parse_tag_list(s: &str) -> (r: Vec<String>)
    ensures
        r@.len() == count_commas(s@) + 1,
        forall|k: int| 0 <= k < r@.len() ==> is_trimmed(#[trigger] r.deep_view()[k]),
{
    let mut r: Vec<String> = Vec::new();
    let mut start: usize = 0;
    let mut i: usize = 0;
    let n = s.unicode_len();
    proof {
        assert(s@.take(0) =~= Seq::<char>::empty());
    }
    while i < n
        invariant
            0 <= start <= i <= n == s@.len(),
            r@.len() == count_commas(s@.take(i as int)),
            forall|k: int| 0 <= k < r@.len() ==> is_trimmed(#[trigger] r.deep_view()[k]),
        decreases n - i,
    {
        proof {
            assert(s@.take(i + 1).drop_last() =~= s@.take(i as int));
            assert(s@.take(i + 1).last() == s@[i as int]);
        }
        let c = s.get_char(i);
        if c == ',' {
            let ghost prev = r.deep_view();
            let piece = trimmed_piece(s, start, i);
            let ghost pv = piece@;
            r.push(piece);
            proof {
                assert(r.deep_view() =~= prev.push(pv));
            }
            start = i + 1;
        }
        i = i + 1;
    }
    proof {
        assert(s@.take(s@.len() as int) =~= s@);
    }
    let ghost prev = r.deep_view();
    let piece = trimmed_piece(s, start, n);
    let ghost pv = piece@;
    r.push(piece);
    proof {
        assert(r.deep_view() =~= prev.push(pv));
    }
    r
}

/// Starts a quiz for the authenticated user: parses the ids out of the
/// token claims and the request, samples the questions and returns the
/// created attempt. The current time and fresh entropy come from the
/// platform.
pub fn start_quiz(store: &mut Store, claims: &Claims, req: StartQuizRequest) -> (r: Result<
    QuizResponse,
    QuizError,
>)
    requires
        old(store).wf(),
        old(store).next_id < u64::MAX,
    ensures
        final(store).wf(),
        match r {
            Err(QuizError::InvalidReference) => (!is_oid_str(claims.sub@) || !is_oid_str(
                req.category_id@,
            )) && *final(store) == *old(store),
            Err(QuizError::InsufficientContent) => is_oid_str(claims.sub@) && is_oid_str(
                req.category_id@,
            ) && (req.num_questions < 0 || crate::session::count_eligible(
                old(store).questions@,
                hex_value(req.category_id@) as Oid,
                req.difficulty,
            ) < req.num_questions) && *final(store) == *old(store),
            Ok(resp) => {
                &&& is_oid_str(claims.sub@)
                &&& is_oid_str(req.category_id@)
                &&& req.num_questions >= 0
                &&& final(store).quizzes@.len() == old(store).quizzes@.len() + 1
                &&& final(store).quizzes@.drop_last() == old(store).quizzes@
                &&& {
                    let q = final(store).quizzes@.last();
                    &&& q.user_id == hex_value(claims.sub@)
                    &&& q.category_id == hex_value(req.category_id@)
                    &&& q.difficulty == req.difficulty
                    &&& q.questions@.len() == req.num_questions
                    &&& q.answers@.len() == 0
                    &&& q.score == 0
                    &&& !q.paused
                    &&& q.end_time is None
                    &&& resp.score == 0
                    &&& !resp.paused
                    &&& resp.questions@.len() == req.num_questions
                }
            },
            _ => false,
        },
{
    let user_id = match parse_oid(claims.sub.as_str()) {
        Ok(id) => id,
        Err(e) => {
            return Err(e);
        },
    };
    let category_id = match parse_oid(req.category_id.as_str()) {
        Ok(id) => id,
        Err(e) => {
            return Err(e);
        },
    };
    if req.num_questions < 0 {
        return Err(QuizError::InsufficientContent);
    }
    let n: u32 = req.num_questions as u32;
    let token = crate::platform::fresh_token();
    let pick: u64 = #[verifier::truncate] (token as u64);
    let now = crate::platform::now_timestamp();
    let quiz_id = match store.start_quiz(
        user_id,
        category_id,
        req.difficulty,
        n,
        pick,
        now,
        token,
    ) {
        Ok(id) => id,
        Err(e) => {
            return Err(e);
        },
    };
    proof {
        assert(final(store).quizzes@.last().id == quiz_id);
        assert(has_quiz(final(store).quizzes@, quiz_id));
    }
    match store.get_quiz(quiz_id) {
        Ok(quiz) => Ok(quiz_response(quiz)),
        Err(_) => {
            proof {
                assert(false);
            }
            Err(QuizError::QuizNotFound)
        },
    }
}

/// Submits one answer to a quiz: parses the ids, grades the answer and
/// returns the updated attempt. A negative reported time counts as
/// zero seconds.
pub fn submit_answer(store: &mut Store, quiz_id: &String, req: SubmitAnswerRequest) -> (r: Result<
    QuizResponse,
    QuizError,
>)
    requires
        old(store).wf(),
    ensures
        final(store).wf(),
        match r {
            Err(QuizError::InvalidReference) => (!is_oid_str(quiz_id@) || !is_oid_str(
                req.question_id@,
            )) && *final(store) == *old(store),
            Err(e) => e != QuizError::InvalidReference && is_oid_str(quiz_id@) && is_oid_str(
                req.question_id@,
            ) && final(store).quizzes@ == old(store).quizzes@,
            Ok(resp) => {
                let qid = hex_value(quiz_id@) as Oid;
                let q = old(store).quiz_of(qid);
                let q2 = final(store).quiz_of(qid);
                &&& is_oid_str(quiz_id@)
                &&& is_oid_str(req.question_id@)
                &&& has_quiz(old(store).quizzes@, qid)
                &&& q2.answers@.len() == q.answers@.len() + 1
                &&& q2.score >= q.score
                &&& resp.score == q2.score
                &&& resp.answers@.len() == q2.answers@.len()
            },
        },
{
    let qid = match parse_oid(quiz_id.as_str()) {
        Ok(id) => id,
        Err(e) => {
            return Err(e);
        },
    };
    let question_id = match parse_oid(req.question_id.as_str()) {
        Ok(id) => id,
        Err(e) => {
            return Err(e);
        },
    };
    let time_taken: u64 = if req.time_taken < 0 {
        0
    } else {
        req.time_taken as u64
    };
    match store.submit_answer(qid, question_id, req.answer, time_taken) {
        Ok(_points) => {},
        Err(e) => {
            return Err(e);
        },
    }
    proof {
        let w = crate::store::quiz_at(old(store).quizzes@, qid);
        assert(has_quiz(old(store).quizzes@, qid));
        assert(0 <= w < old(store).quizzes@.len() && old(store).quizzes@[w].id == qid);
        assert(final(store).quizzes@[w].id == qid);
        assert(has_quiz(final(store).quizzes@, qid));
    }
    match store.get_quiz(qid) {
        Ok(quiz) => Ok(quiz_response(quiz)),
        Err(_) => {
            proof {
                assert(false);
            }
            Err(QuizError::QuizNotFound)
        },
    }
}

/// Pauses or resumes a quiz and returns the updated attempt.
pub fn pause_quiz(store: &mut Store, quiz_id: &String, req: PauseQuizRequest) -> (r: Result<
    QuizResponse,
    QuizError,
>)
    requires
        old(store).wf(),
    ensures
        final(store).wf(),
        match r {
            Err(QuizError::InvalidReference) => !is_oid_str(quiz_id@) && *final(store) == *old(store),
            Err(e) => e != QuizError::InvalidReference && is_oid_str(quiz_id@) && final(store).quizzes@ == old(store).quizzes@,
            Ok(resp) => {
                let qid = hex_value(quiz_id@) as Oid;
                &&& is_oid_str(quiz_id@)
                &&& has_quiz(old(store).quizzes@, qid)
                &&& final(store).quiz_of(qid).paused == req.paused
                &&& resp.paused == req.paused
            },
        },
{
    let qid = match parse_oid(quiz_id.as_str()) {
        Ok(id) => id,
        Err(e) => {
            return Err(e);
        },
    };
    match store.pause_quiz(qid, req.paused) {
        Ok(()) => {},
        Err(e) => {
            return Err(e);
        },
    }
    proof {
        let w = crate::store::quiz_at(old(store).quizzes@, qid);
        assert(has_quiz(old(store).quizzes@, qid));
        assert(0 <= w < old(store).quizzes@.len() && old(store).quizzes@[w].id == qid);
        assert(final(store).quizzes@[w].id == qid);
        assert(has_quiz(final(store).quizzes@, qid));
    }
    match store.get_quiz(qid) {
        Ok(quiz) => Ok(quiz_response(quiz)),
        Err(_) => {
            proof {
                assert(false);
            }
            Err(QuizError::QuizNotFound)
        },
    }
}

/// Finishes a quiz: parses the id, seals the attempt, runs the side
/// effects (history, XP, top user, leaderboard) and returns the final
/// score.
pub fn finish_quiz(store: &mut Store, quiz_id: &String) -> (r: Result<u64, QuizError>)
    requires
        old(store).wf(),
    ensures
        final(store).wf(),
        match r {
            Err(QuizError::InvalidReference) => !is_oid_str(quiz_id@) && *final(store) == *old(store),
            Err(e) => e != QuizError::InvalidReference && is_oid_str(quiz_id@),
            Ok(score) => {
                let qid = hex_value(quiz_id@) as Oid;
                &&& is_oid_str(quiz_id@)
                &&& has_quiz(old(store).quizzes@, qid)
                &&& score == old(store).quiz_of(qid).score
                &&& final(store).quiz_of(qid).end_time is Some
                &&& !final(store).quiz_of(qid).paused
            },
        },
{
    let qid = match parse_oid(quiz_id.as_str()) {
        Ok(id) => id,
        Err(e) => {
            return Err(e);
        },
    };
    let now = crate::platform::now_timestamp();
    match store.finish_quiz(qid, now) {
        Ok(score) => {
            proof {
                let w = crate::store::quiz_at(old(store).quizzes@, qid);
                assert(has_quiz(old(store).quizzes@, qid));
                assert(0 <= w < old(store).quizzes@.len() && old(store).quizzes@[w].id == qid);
                assert(final(store).quizzes@[w].id == qid);
                assert(has_quiz(final(store).quizzes@, qid));
            }
            Ok(score)
        },
        Err(e) => Err(e),
    }
}

/// The leaderboard of a category, ordered by ascending rank.
pub fn get_leaderboard(store: &Store, category_id: &String) -> (r: Result<
    Vec<crate::model::LeaderboardEntry>,
    QuizError,
>)
    requires
        store.wf(),
    ensures
        match r {
            Err(e) => e == QuizError::InvalidReference && !is_oid_str(category_id@),
            Ok(entries) => {
                let cat = hex_value(category_id@) as Oid;
                &&& is_oid_str(category_id@)
                &&& entries@.len() == crate::leaderboard::count_in_category(
                    store.leaderboard.entries@,
                    cat,
                )
                &&& (forall|p: int|
                    0 <= p < entries@.len() ==> (#[trigger] entries@[p]).category_id == cat
                        && entries@[p].rank == p + 1)
            },
        },
{
    let cat = match parse_oid(category_id.as_str()) {
        Ok(id) => id,
        Err(e) => {
            return Err(e);
        },
    };
    Ok(store.leaderboard.get_leaderboard(cat))
}

/// Logs a user in and renders the outcome: on success a token and the
/// user's public record, on failure the error's message.
pub fn login(store: &Store, req: LoginRequest, jwt_secret: &str) -> (r: Result<
    LoginResponse,
    AuthError,
>)
    requires
        store.wf(),
    ensures
        match r {
            Err(AuthError::UserNotFound) => !crate::store::has_phone(
                store.users@,
                req.phone_number@,
            ),
            Err(AuthError::InvalidPassword) => crate::store::has_phone(
                store.users@,
                req.phone_number@,
            ) && !crate::auth::password_matches(
                store.users@[crate::auth::phone_at(store.users@, req.phone_number@)].password_hash@,
                req.password@,
            ),
            Err(AuthError::Upstream) => crate::store::has_phone(store.users@, req.phone_number@)
                && crate::auth::password_matches(
                store.users@[crate::auth::phone_at(store.users@, req.phone_number@)].password_hash@,
                req.password@,
            ),
            Ok(resp) => {
                let u = store.users@[crate::auth::phone_at(store.users@, req.phone_number@)];
                &&& crate::store::has_phone(store.users@, req.phone_number@)
                &&& crate::auth::password_matches(u.password_hash@, req.password@)
                &&& resp.message@ == "Login successful"@
                &&& resp.token is Some
                &&& resp.user matches Some(ur) && ur.username@ == u.username@ && ur.phone_number@
                    == u.phone_number@ && ur.xp == u.xp && ur.role == u.role
            },
            _ => false,
        },
{
    match store.login(req.phone_number, req.password, jwt_secret) {
        Ok((user, token)) => Ok(
            LoginResponse {
                message: String::from_str("Login successful"),
                token: Some(token),
                user: Some(user_response(user)),
            },
        ),
        Err(e) => Err(e),
    }
}

/// The role named by a registration request: "admin" selects the admin
/// role, anything else the default user role.
pub fn requested_role(role: &Option<String>) -> (r: Role)
    ensures
        r == (match role {
            Some(s) => if s@ == "admin"@ {
                Role::Admin
            } else {
                Role::User
            },
            None => Role::User,
        }),
{
    let admin = String::from_str("admin");
    match role {
        Some(s) => if string_eq(s, &admin) {
            Role::Admin
        } else {
            Role::User
        },
        None => Role::User,
    }
}

/// Confirms a registration: maps the requested role, then registers the
/// user under the outcome of the provider's code check.
pub fn confirm_register(store: &mut Store, req: ConfirmRegisterRequest, otp_ok: bool) -> (r: Result<
    String,
    AuthError,
>)
    requires
        old(store).wf(),
        old(store).next_id < u64::MAX,
    ensures
        final(store).wf(),
        match r {
            Err(AuthError::InvalidOtp) => !otp_ok && *final(store) == *old(store),
            Err(_) => otp_ok && *final(store) == *old(store),
            Ok(hex) => {
                let u = final(store).users@.last();
                &&& otp_ok
                &&& final(store).users@.len() == old(store).users@.len() + 1
                &&& final(store).users@.drop_last() == old(store).users@
                &&& u.phone_number@ == req.phone_number@
                &&& u.username@ == req.username@
                &&& u.role == (match req.role {
                    Some(s) => if s@ == "admin"@ {
                        Role::Admin
                    } else {
                        Role::User
                    },
                    None => Role::User,
                })
                &&& is_oid_str(hex@)
                &&& hex_value(hex@) == u.id
            },
        },
{
    let role = requested_role(&req.role);
    store.verify_and_register(otp_ok, req.phone_number, req.username, req.password, role)
}

/// Creates a category from the posted fields: the tags arrive as one
/// comma-separated string, the parent as a hexadecimal id.
pub fn create_category(
    store: &mut Store,
    name: String,
    tags: Option<String>,
    parent_id: Option<String>,
    image_url: Option<String>,
) -> (r: Result<CreateCategoryResponse, QuizError>)
    requires
        old(store).wf(),
        old(store).next_id < u64::MAX,
    ensures
        final(store).wf(),
        match r {
            Err(e) => e == QuizError::InvalidReference && *final(store) == *old(store),
            Ok(resp) => {
                &&& final(store).categories@.len() == old(store).categories@.len() + 1
                &&& final(store).categories@.drop_last() == old(store).categories@
                &&& final(store).categories@.last().name@ == name@
                &&& final(store).categories@.last().top_user_id is None
                &&& resp.message@ == "Category created successfully"@
                &&& resp.category.name@ == name@
            },
        },
{
    let parent: Option<Oid> = match &parent_id {
        Some(s) => {
            if s.unicode_len() == 0 {
                None
            } else {
                match parse_oid(s.as_str()) {
                    Ok(p) => Some(p),
                    Err(e) => {
                        return Err(e);
                    },
                }
            }
        },
        None => None,
    };
    let tag_list: Vec<String> = match &tags {
        Some(t) => {
            if t.unicode_len() == 0 {
                Vec::new()
            } else {
                parse_tag_list(t.as_str())
            }
        },
        None => Vec::new(),
    };
    let category = Category {
        id: 0,
        name,
        tags: tag_list,
        parent_id: parent,
        image_url,
        top_user_id: None,
    };
    let ghost name_view = category.name@;
    let id = store.create_category(category);
    proof {
        assert(final(store).categories@.drop_last() =~= old(store).categories@);
    }
    let created = match store.get_category(id) {
        Ok(c) => c,
        Err(_) => {
            proof {
                let w = crate::store::category_at(final(store).categories@, id);
                assert(final(store).categories@[final(store).categories@.len() - 1].id == id);
                assert(crate::store::has_category(final(store).categories@, id));
                assert(false);
            }
            return Err(QuizError::CategoryNotFound);
        },
    };
    proof {
        let w = crate::store::category_at(final(store).categories@, id);
        assert(0 <= w < final(store).categories@.len() && final(store).categories@[w].id == id);
        assert(w == final(store).categories@.len() - 1);
    }
    let resp_category = category_response(created);
    Ok(
        CreateCategoryResponse {
            message: String::from_str("Category created successfully"),
            category: resp_category,
        },
    )
}

/// Creates a question from the posted fields: the owning category
/// arrives as a hexadecimal id; a negative timer counts as zero
/// seconds.
pub fn create_question(store: &mut Store, req: CreateQuestionRequest) -> (r: Result<
    CreateQuestionResponse,
    QuizError,
>)
    requires
        old(store).wf(),
        old(store).next_id < u64::MAX,
    ensures
        final(store).wf(),
        match r {
            Err(e) => e == QuizError::InvalidReference && !is_oid_str(req.category_id@) && *final(store) == *old(store),
            Ok(resp) => {
                &&& is_oid_str(req.category_id@)
                &&& final(store).questions@.len() == old(store).questions@.len() + 1
                &&& final(store).questions@.drop_last() == old(store).questions@
                &&& final(store).questions@.last().category_id == hex_value(req.category_id@)
                &&& final(store).questions@.last().question@ == req.text@
                &&& final(store).questions@.last().correct_answer@ == req.correct_answer@
                &&& final(store).questions@.last().difficulty == req.difficulty
                &&& resp.message@ == "Question created successfully"@
            },
        },
{
    let category_id = match parse_oid(req.category_id.as_str()) {
        Ok(id) => id,
        Err(e) => {
            return Err(e);
        },
    };
    let timer_secs: u64 = if req.timer_secs < 0 {
        0
    } else {
        req.timer_secs as u64
    };
    let question = Question {
        id: 0,
        category_id,
        question: req.text,
        question_type: req.question_type,
        options: req.options,
        correct_answer: req.correct_answer,
        explanation: req.explanation,
        difficulty: req.difficulty,
        timer_secs,
        tags: req.tags,
    };
    let id = store.create_question(question);
    proof {
        assert(final(store).questions@.drop_last() =~= old(store).questions@);
    }
    let created = match store.get_question(id) {
        Ok(q) => q,
        Err(_) => {
            proof {
                assert(final(store).questions@[final(store).questions@.len() - 1].id == id);
                assert(crate::store::has_question(final(store).questions@, id));
                assert(false);
            }
            return Err(QuizError::QuestionNotFound);
        },
    };
    proof {
        let w = crate::store::question_at(final(store).questions@, id);
        assert(0 <= w < final(store).questions@.len() && final(store).questions@[w].id == id);
        assert(w == final(store).questions@.len() - 1);
    }
    let resp_question = question_response(created);
    Ok(
        CreateQuestionResponse {
            message: String::from_str("Question created successfully"),
            question: resp_question,
        },
    )
}

/// Replaces a user's profile, the user named by hexadecimal id.
pub fn update_profile(store: &mut Store, user_id: &String, req: UpdateProfileRequest) -> (r:
    Result<(), QuizError>)
    requires
        old(store).wf(),
    ensures
        final(store).wf(),
        match r {
            Err(QuizError::InvalidReference) => !is_oid_str(user_id@) && *final(store) == *old(
                store,
            ),
            Err(QuizError::UserNotFound) => is_oid_str(user_id@) && !crate::store::has_user(
                old(store).users@,
                hex_value(user_id@) as Oid,
            ) && final(store).users@ == old(store).users@,
            Ok(()) => is_oid_str(user_id@) && crate::store::has_user(
                old(store).users@,
                hex_value(user_id@) as Oid,
            ),
            _ => false,
        },
        final(store).categories@ == old(store).categories@,
        final(store).questions@ == old(store).questions@,
        final(store).quizzes@ == old(store).quizzes@,
        final(store).leaderboard == old(store).leaderboard,
        final(store).next_id == old(store).next_id,
{
    let uid = match parse_oid(user_id.as_str()) {
        Ok(id) => id,
        Err(e) => {
            return Err(e);
        },
    };
    store.update_profile(uid, req.profile)
}

/// The cached top user of a category, rendered for clients; a category
/// with no cached top user reports the missing user.
pub fn top_user_for_category(store: &Store, category_id: &String) -> (r: Result<
    UserResponse,
    QuizError,
>)
    requires
        store.wf(),
    ensures
        match r {
            Err(QuizError::InvalidReference) => !is_oid_str(category_id@),
            Err(QuizError::CategoryNotFound) => is_oid_str(category_id@)
                && !crate::store::has_category(
                store.categories@,
                hex_value(category_id@) as Oid,
            ),
            Err(QuizError::UserNotFound) => is_oid_str(category_id@)
                && crate::store::has_category(store.categories@, hex_value(category_id@) as Oid),
            Ok(resp) => is_oid_str(category_id@) && crate::store::has_category(
                store.categories@,
                hex_value(category_id@) as Oid,
            ) && {
                let c = store.categories@[crate::store::category_at(
                    store.categories@,
                    hex_value(category_id@) as Oid,
                )];
                &&& c.top_user_id is Some
                &&& (resp.id matches Some(h) && crate::dto::renders_oid(h@, c.top_user_id->0))
            },
            _ => false,
        },
{
    let cat = match parse_oid(category_id.as_str()) {
        Ok(id) => id,
        Err(e) => {
            return Err(e);
        },
    };
    match store.top_user_for_category(cat) {
        Ok(Some(user)) => Ok(user_response(user)),
        Ok(None) => Err(QuizError::UserNotFound),
        Err(e) => Err(e),
    }
}

/// Every category joined with its cached top user, rendered for
/// clients.
pub fn get_categories_with_top_users(store: &Store) -> (r: Vec<
    crate::dto::CategoryWithTopUserResponse,
>)
    requires
        store.wf(),
    ensures
        r@.len() == store.categories@.len(),
        forall|i: int|
            0 <= i < r@.len() ==> (#[trigger] r@[i]).category.name@ == store.categories@[i].name@
                && (r@[i].category.id matches Some(h) && crate::dto::renders_oid(
                h@,
                store.categories@[i].id,
            )) && (r@[i].top_user is Some ==> store.categories@[i].top_user_id is Some),
{
    let joined = store.get_categories_with_top_users();
    let mut r: Vec<crate::dto::CategoryWithTopUserResponse> = Vec::new();
    let mut i: usize = 0;
    while i < joined.len()
        invariant
            store.wf(),
            joined@.len() == store.categories@.len(),
            forall|j: int|
                0 <= j < joined@.len() ==> *(#[trigger] joined@[j]).0 == store.categories@[j] && (
                joined@[j].1 is Some ==> store.categories@[j].top_user_id is Some),
            0 <= i <= joined@.len(),
            r@.len() == i,
            forall|j: int|
                0 <= j < i ==> (#[trigger] r@[j]).category.name@ == store.categories@[j].name@ && (
                r@[j].category.id matches Some(h) && crate::dto::renders_oid(
                    h@,
                    store.categories@[j].id,
                )) && (r@[j].top_user is Some ==> store.categories@[j].top_user_id is Some),
        decreases joined@.len() - i,
    {
        let (category, top) = joined[i];
        let top_user = match top {
            Some(user) => Some(user_response(user)),
            None => None,
        };
        r.push(
            crate::dto::CategoryWithTopUserResponse {
                category: category_response(category),
                top_user,
            },
        );
        i = i + 1;
    }
    r
}

/// The user's public record, fetched by hexadecimal id.
pub fn get_user(store: &Store, user_id: &String) -> (r: Result<UserResponse, QuizError>)
    requires
        store.wf(),
    ensures
        match r {
            Err(QuizError::InvalidReference) => !is_oid_str(user_id@),
            Err(QuizError::UserNotFound) => is_oid_str(user_id@) && !crate::store::has_user(
                store.users@,
                hex_value(user_id@) as Oid,
            ),
            Ok(resp) => is_oid_str(user_id@) && crate::store::has_user(
                store.users@,
                hex_value(user_id@) as Oid,
            ),
            _ => false,
        },
{
    let uid = match parse_oid(user_id.as_str()) {
        Ok(id) => id,
        Err(e) => {
            return Err(e);
        },
    };
    match store.get_user(uid) {
        Ok(user) => Ok(user_response(user)),
        Err(e) => Err(e),
    }
}


} // verus!
