use quiz_core::api::{
    create_category, create_question, finish_quiz, get_leaderboard, login, parse_tag_list,
    pause_quiz, requested_role, start_quiz, submit_answer, CreateQuestionRequest, LoginRequest,
    PauseQuizRequest, StartQuizRequest, SubmitAnswerRequest, UpdateProfileRequest,
};
use quiz_core::auth::{bearer_token, Claims};
use quiz_core::errors::{AuthError, QuizError};
use quiz_core::model::{Profile, Role};
use quiz_core::platform::{format_rfc3339, fresh_token, now_timestamp};
use quiz_core::scoring::{Difficulty, QuestionType};
use quiz_core::store::Store;

fn setup_content(store: &mut Store) -> (String, String) {
    let created = create_category(
        store,
        "Geography".to_string(),
        Some("tag1, tag2".to_string()),
        None,
        Some("uploads/test.jpg".to_string()),
    )
    .expect("category creation should succeed");
    assert_eq!(created.message, "Category created successfully");
    let category_hex = created.category.id.clone().unwrap();
    for k in 0..5 {
        let q = create_question(
            store,
            CreateQuestionRequest {
                category_id: category_hex.clone(),
                text: format!("Question {}?", k),
                question_type: QuestionType::MultipleChoice,
                options: vec!["Paris".to_string(), "London".to_string()],
                correct_answer: "Paris".to_string(),
                explanation: "Paris is the capital of France.".to_string(),
                difficulty: Difficulty::Beginner,
                timer_secs: 30,
                tags: vec!["geography".to_string()],
            },
        )
        .expect("question creation should succeed");
        assert_eq!(q.message, "Question created successfully");
    }
    let user_hex = store
        .verify_and_register(
            true,
            "+15550001111".to_string(),
            "quizuser".to_string(),
            "password123".to_string(),
            Role::User,
        )
        .unwrap();
    (category_hex, user_hex)
}

#[test]
fn quiz_flow_through_request_layer() {
    let mut store = Store::new();
    let (category_hex, user_hex) = setup_content(&mut store);
    let claims = Claims { sub: user_hex, role: "User".to_string(), exp: 0 };

    let quiz = start_quiz(
        &mut store,
        &claims,
        StartQuizRequest {
            category_id: category_hex.clone(),
            difficulty: Difficulty::Beginner,
            num_questions: 5,
        },
    )
    .expect("start should succeed");
    assert_eq!(quiz.questions.len(), 5);
    assert_eq!(quiz.score, 0);
    assert!(!quiz.paused);
    assert!(quiz.end_time.is_none());
    let quiz_hex = quiz.id.clone().unwrap();

    // pause, fail to submit, resume
    let paused = pause_quiz(&mut store, &quiz_hex, PauseQuizRequest { paused: true }).unwrap();
    assert!(paused.paused);
    assert_eq!(
        submit_answer(
            &mut store,
            &quiz_hex,
            SubmitAnswerRequest {
                question_id: quiz.questions[0].clone(),
                answer: "Paris".to_string(),
                time_taken: 10,
            },
        )
        .err(),
        Some(QuizError::InvalidState)
    );
    pause_quiz(&mut store, &quiz_hex, PauseQuizRequest { paused: false }).unwrap();

    let mut latest_score = 0;
    for qhex in &quiz.questions {
        let updated = submit_answer(
            &mut store,
            &quiz_hex,
            SubmitAnswerRequest {
                question_id: qhex.clone(),
                answer: "Paris".to_string(),
                time_taken: 10,
            },
        )
        .expect("submit should succeed");
        latest_score = updated.score;
    }
    assert_eq!(latest_score, 75);

    let score = finish_quiz(&mut store, &quiz_hex).expect("finish should succeed");
    assert_eq!(score, 75);

    let board = get_leaderboard(&store, &category_hex).unwrap();
    assert_eq!(board.len(), 1);
    assert_eq!(board[0].rank, 1);
    assert_eq!(board[0].score, 75);
}

#[test]
fn request_layer_rejects_malformed_ids() {
    let mut store = Store::new();
    let claims = Claims { sub: "not-an-id".to_string(), role: "User".to_string(), exp: 0 };
    assert_eq!(
        start_quiz(
            &mut store,
            &claims,
            StartQuizRequest {
                category_id: "000000000000000000000001".to_string(),
                difficulty: Difficulty::Beginner,
                num_questions: 1,
            },
        )
        .err(),
        Some(QuizError::InvalidReference)
    );
    assert_eq!(
        finish_quiz(&mut store, &"xyz".to_string()).err(),
        Some(QuizError::InvalidReference)
    );
    assert_eq!(
        get_leaderboard(&store, &"".to_string()).err(),
        Some(QuizError::InvalidReference)
    );
}

#[test]
fn negative_question_count_is_insufficient_content() {
    let mut store = Store::new();
    let (category_hex, user_hex) = setup_content(&mut store);
    let claims = Claims { sub: user_hex, role: "User".to_string(), exp: 0 };
    assert_eq!(
        start_quiz(
            &mut store,
            &claims,
            StartQuizRequest {
                category_id: category_hex,
                difficulty: Difficulty::Beginner,
                num_questions: -3,
            },
        )
        .err(),
        Some(QuizError::InsufficientContent)
    );
    assert_eq!(store.quizzes.len(), 0);
}

#[test]
fn login_handler_builds_response() {
    let mut store = Store::new();
    store
        .verify_and_register(
            true,
            "+15551112222".to_string(),
            "testuser".to_string(),
            "password123".to_string(),
            Role::User,
        )
        .unwrap();
    let resp = login(
        &store,
        LoginRequest {
            phone_number: "+15551112222".to_string(),
            password: "password123".to_string(),
        },
        "test-signing-secret",
    )
    .expect("login should succeed");
    assert_eq!(resp.message, "Login successful");
    assert!(resp.token.is_some());
    let user = resp.user.unwrap();
    assert_eq!(user.username, "testuser");
    assert_eq!(user.phone_number, "+15551112222");
    assert_eq!(user.xp, 0);
}

#[test]
fn tag_lists_split_on_commas_and_trim() {
    assert_eq!(parse_tag_list("tag1, tag2"), vec!["tag1", "tag2"]);
    assert_eq!(parse_tag_list("a"), vec!["a"]);
    assert_eq!(parse_tag_list(" a ,b,, c "), vec!["a", "b", "", "c"]);
    assert_eq!(parse_tag_list("\tx\n"), vec!["x"]);
}

#[test]
fn requested_role_maps_admin() {
    assert_eq!(requested_role(&Some("admin".to_string())), Role::Admin);
    assert_eq!(requested_role(&Some("user".to_string())), Role::User);
    assert_eq!(requested_role(&Some("Admin".to_string())), Role::User);
    assert_eq!(requested_role(&None), Role::User);
}

#[test]
fn platform_values_are_sane() {
    // the epoch renders in the fixed RFC 3339 shape
    assert_eq!(format_rfc3339(0), "1970-01-01T00:00:00+00:00");
    assert_eq!(format_rfc3339(1_700_000_000), "2023-11-14T22:13:20+00:00");
    // the clock is past 2020
    assert!(now_timestamp() > 1_577_836_800);
    // two token draws differ
    assert_ne!(fresh_token(), fresh_token());
}

#[test]
fn quiz_response_renders_ids_and_times() {
    let mut store = Store::new();
    let (category_hex, user_hex) = setup_content(&mut store);
    let user_id = quiz_core::ids::parse_oid(&user_hex).unwrap();
    let category_id = quiz_core::ids::parse_oid(&category_hex).unwrap();
    let quiz_id = store
        .start_quiz(user_id, category_id, Difficulty::Beginner, 2, 0, 1_700_000_000, 0xabcd)
        .unwrap();
    store.finish_quiz(quiz_id, 1_700_000_050).unwrap();
    let resp = quiz_core::dto::quiz_response(store.get_quiz(quiz_id).unwrap());
    assert_eq!(resp.user_id, user_hex);
    assert_eq!(resp.category_id, category_hex);
    assert_eq!(resp.uuid, "0000000000000000000000000000abcd");
    assert_eq!(resp.start_time, "2023-11-14T22:13:20+00:00");
    assert_eq!(resp.end_time.as_deref(), Some("2023-11-14T22:14:10+00:00"));
    assert_eq!(resp.questions.len(), 2);
    assert!(!resp.paused);
}

#[test]
fn confirm_register_maps_roles_and_otp() {
    let mut store = Store::new();
    let req = quiz_core::api::ConfirmRegisterRequest {
        phone_number: "+15559998888".to_string(),
        code: "123456".to_string(),
        username: "adminuser".to_string(),
        password: "password123".to_string(),
        role: Some("admin".to_string()),
    };
    let hex = quiz_core::api::confirm_register(&mut store, req, true).unwrap();
    let id = quiz_core::ids::parse_oid(&hex).unwrap();
    assert_eq!(store.get_user(id).unwrap().role, Role::Admin);

    let req2 = quiz_core::api::ConfirmRegisterRequest {
        phone_number: "+15550000001".to_string(),
        code: "123456".to_string(),
        username: "plainuser".to_string(),
        password: "password123".to_string(),
        role: None,
    };
    assert!(matches!(
        quiz_core::api::confirm_register(&mut store, req2, false),
        Err(quiz_core::errors::AuthError::InvalidOtp)
    ));
}

#[test]
fn bearer_tokens_are_stripped_from_the_header() {
    assert_eq!(bearer_token("Bearer abc.def.ghi").as_deref(), Some("abc.def.ghi"));
    assert_eq!(bearer_token("Bearer ").as_deref(), Some(""));
    assert_eq!(bearer_token("bearer abc").as_deref(), None);
    assert_eq!(bearer_token("Basic abc").as_deref(), None);
    assert_eq!(bearer_token("").as_deref(), None);
}

#[test]
fn error_messages_match_their_variants() {
    assert_eq!(QuizError::QuizNotFound.message(), "Quiz not found");
    assert_eq!(QuizError::InsufficientContent.message(), "Not enough questions available");
    assert_eq!(AuthError::InvalidOtp.message(), "Invalid OTP");
    assert_eq!(AuthError::PhoneNumberInUse.message(), "Phone Number already in use");
    assert_eq!(AuthError::InvalidPassword.message(), "Invalid password");
}

#[test]
fn top_user_join_through_request_layer() {
    let mut store = Store::new();
    let (category_hex, user_hex) = setup_content(&mut store);
    let user_id = quiz_core::ids::parse_oid(&user_hex).unwrap();
    let category_id = quiz_core::ids::parse_oid(&category_hex).unwrap();

    // before any finished quiz the category reports no top user
    assert_eq!(
        quiz_core::api::top_user_for_category(&store, &category_hex).err(),
        Some(QuizError::UserNotFound)
    );

    let quiz = store
        .start_quiz(user_id, category_id, Difficulty::Beginner, 1, 0, 1000, 3)
        .unwrap();
    let qid = store.get_quiz(quiz).unwrap().questions[0];
    store.submit_answer(quiz, qid, "Paris".to_string(), 5).unwrap();
    store.finish_quiz(quiz, 2000).unwrap();

    let top = quiz_core::api::top_user_for_category(&store, &category_hex).unwrap();
    assert_eq!(top.id.as_deref(), Some(user_hex.as_str()));
    assert_eq!(top.username, "quizuser");
    assert_eq!(top.xp, 15);

    let joined = quiz_core::api::get_categories_with_top_users(&store);
    assert_eq!(joined.len(), 1);
    assert_eq!(joined[0].category.id.as_deref(), Some(category_hex.as_str()));
    let top_user = joined[0].top_user.as_ref().unwrap();
    assert_eq!(top_user.username, "quizuser");

    assert_eq!(
        quiz_core::api::top_user_for_category(&store, &"zz".to_string()).err(),
        Some(QuizError::InvalidReference)
    );
    assert_eq!(
        quiz_core::api::top_user_for_category(&store, &"00000000000000000000ffff".to_string())
            .err(),
        Some(QuizError::CategoryNotFound)
    );
}

#[test]
fn update_profile_through_request_layer() {
    let mut store = Store::new();
    let (_, user_hex) = setup_content(&mut store);
    let req = UpdateProfileRequest {
        profile: Profile {
            avatar: Some("a.png".to_string()),
            bio: None,
            preferred_language: None,
            country: Some("FR".to_string()),
        },
    };
    quiz_core::api::update_profile(&mut store, &user_hex, req).unwrap();
    let user = quiz_core::api::get_user(&store, &user_hex).unwrap();
    assert_eq!(user.profile.avatar.as_deref(), Some("a.png"));
    assert_eq!(user.profile.country.as_deref(), Some("FR"));
}
