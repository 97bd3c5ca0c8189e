use quiz_core::errors::QuizError;
use quiz_core::model::{Category, Profile, Question, Role};
use quiz_core::scoring::{Difficulty, QuestionType};
use quiz_core::store::Store;

fn make_category(store: &mut Store, name: &str) -> u128 {
    store.create_category(Category {
        id: 0,
        name: name.to_string(),
        tags: Vec::new(),
        parent_id: None,
        image_url: None,
        top_user_id: None,
    })
}

fn make_question(store: &mut Store, category_id: u128, text: &str, answer: &str, timer: u64) -> u128 {
    store.create_question(Question {
        id: 0,
        category_id,
        question: text.to_string(),
        question_type: QuestionType::MultipleChoice,
        options: vec![answer.to_string(), "London".to_string(), "Berlin".to_string()],
        correct_answer: answer.to_string(),
        explanation: "because".to_string(),
        difficulty: Difficulty::Beginner,
        timer_secs: timer,
        tags: Vec::new(),
    })
}

fn register(store: &mut Store, phone: &str, name: &str) -> u128 {
    let hex = store
        .verify_and_register(
            true,
            phone.to_string(),
            name.to_string(),
            "password123".to_string(),
            Role::User,
        )
        .expect("registration should succeed");
    quiz_core::ids::parse_oid(&hex).expect("registered id should parse")
}

/// Category "Geography" with 5 Beginner questions; a 5-question quiz
/// answered all correctly in 10 s against a 30 s timer is worth 15
/// points per answer, 75 in total.
#[test]
fn full_marks_scenario() {
    let mut store = Store::new();
    let cat = make_category(&mut store, "Geography");
    let mut qids = Vec::new();
    for k in 0..5 {
        qids.push(make_question(
            &mut store,
            cat,
            &format!("Question {}?", k),
            "Paris",
            30,
        ));
    }
    let user_a = register(&mut store, "+15551112222", "topgun");

    let quiz_id = store
        .start_quiz(user_a, cat, Difficulty::Beginner, 5, 7, 1000, 42)
        .expect("start_quiz should succeed");
    let sampled: Vec<u128> = store.get_quiz(quiz_id).unwrap().questions.clone();
    assert_eq!(sampled.len(), 5);
    for qid in &sampled {
        assert!(qids.contains(qid));
        let points = store
            .submit_answer(quiz_id, *qid, "Paris".to_string(), 10)
            .expect("submit should succeed");
        assert_eq!(points, 15);
    }
    let score = store.finish_quiz(quiz_id, 2000).expect("finish should succeed");
    assert_eq!(score, 75);
    let user = store.get_user(user_a).unwrap();
    assert_eq!(user.xp, 75);
    assert_eq!(user.quiz_history, vec![42u128]);
}

/// All-incorrect answers leave the total at 0, and no XP is awarded.
#[test]
fn all_incorrect_scores_zero_and_no_xp() {
    let mut store = Store::new();
    let cat = make_category(&mut store, "Geography");
    for k in 0..5 {
        make_question(&mut store, cat, &format!("Question {}?", k), "Paris", 30);
    }
    let user_b = register(&mut store, "+15553334444", "secondbest");

    let quiz_id = store
        .start_quiz(user_b, cat, Difficulty::Beginner, 5, 0, 1000, 43)
        .expect("start_quiz should succeed");
    let sampled: Vec<u128> = store.get_quiz(quiz_id).unwrap().questions.clone();
    for qid in &sampled {
        let points = store
            .submit_answer(quiz_id, *qid, "Lisbon".to_string(), 10)
            .expect("submit should succeed");
        assert_eq!(points, 0);
    }
    let score = store.finish_quiz(quiz_id, 2000).expect("finish should succeed");
    assert_eq!(score, 0);
    let user = store.get_user(user_b).unwrap();
    assert_eq!(user.xp, 0);
    // the history records the attempt even with no points
    assert_eq!(user.quiz_history.len(), 1);
}

/// After A scores 75 and B scores 0 in the same category, the
/// leaderboard lists A at rank 1 and B at rank 2.
#[test]
fn leaderboard_ranks_after_two_finishes() {
    let mut store = Store::new();
    let cat = make_category(&mut store, "Geography");
    for k in 0..5 {
        make_question(&mut store, cat, &format!("Question {}?", k), "Paris", 30);
    }
    let user_a = register(&mut store, "+15551112222", "topgun");
    let user_b = register(&mut store, "+15553334444", "secondbest");

    let quiz_a = store
        .start_quiz(user_a, cat, Difficulty::Beginner, 5, 1, 1000, 1)
        .unwrap();
    for qid in store.get_quiz(quiz_a).unwrap().questions.clone() {
        store.submit_answer(quiz_a, qid, "Paris".to_string(), 10).unwrap();
    }
    assert_eq!(store.finish_quiz(quiz_a, 2000).unwrap(), 75);

    let quiz_b = store
        .start_quiz(user_b, cat, Difficulty::Beginner, 5, 2, 1100, 2)
        .unwrap();
    for qid in store.get_quiz(quiz_b).unwrap().questions.clone() {
        store.submit_answer(quiz_b, qid, "Rome".to_string(), 10).unwrap();
    }
    assert_eq!(store.finish_quiz(quiz_b, 2100).unwrap(), 0);

    let board = store.leaderboard.get_leaderboard(cat);
    assert_eq!(board.len(), 2);
    assert_eq!(board[0].user_id, user_a);
    assert_eq!(board[0].score, 75);
    assert_eq!(board[0].rank, 1);
    assert_eq!(board[1].user_id, user_b);
    assert_eq!(board[1].score, 0);
    assert_eq!(board[1].rank, 2);

    // and the top-user cache points at A
    let top = store.top_user_for_category(cat).unwrap();
    assert_eq!(top.map(|u| u.id), Some(user_a));
}

/// Submitting to a paused quiz fails with the invalid-state error;
/// resuming lets the submission through.
#[test]
fn paused_quiz_rejects_submission_until_resumed() {
    let mut store = Store::new();
    let cat = make_category(&mut store, "Geography");
    for k in 0..5 {
        make_question(&mut store, cat, &format!("Question {}?", k), "Paris", 30);
    }
    let user = register(&mut store, "+15550001111", "quizuser");
    let quiz_id = store
        .start_quiz(user, cat, Difficulty::Beginner, 5, 0, 1000, 9)
        .unwrap();
    let qid = store.get_quiz(quiz_id).unwrap().questions[0];

    store.pause_quiz(quiz_id, true).unwrap();
    assert_eq!(
        store.submit_answer(quiz_id, qid, "Paris".to_string(), 10),
        Err(QuizError::InvalidState)
    );
    store.pause_quiz(quiz_id, false).unwrap();
    assert_eq!(
        store.submit_answer(quiz_id, qid, "Paris".to_string(), 10),
        Ok(15)
    );
}

/// Requesting more questions than the category holds fails with the
/// insufficient-content error and creates no quiz.
#[test]
fn insufficient_questions_creates_no_quiz() {
    let mut store = Store::new();
    let cat = make_category(&mut store, "Geography");
    make_question(&mut store, cat, "Only question?", "Paris", 30);
    make_question(&mut store, cat, "Other question?", "Paris", 30);
    let user = register(&mut store, "+15550001111", "quizuser");

    let r = store.start_quiz(user, cat, Difficulty::Beginner, 5, 0, 1000, 9);
    assert_eq!(r, Err(QuizError::InsufficientContent));
    assert_eq!(store.quizzes.len(), 0);

    // difficulty also filters eligibility
    let r2 = store.start_quiz(user, cat, Difficulty::Expert, 1, 0, 1000, 10);
    assert_eq!(r2, Err(QuizError::InsufficientContent));
    assert_eq!(store.quizzes.len(), 0);
}

/// Finishing sets the end timestamp and clears the paused flag, even
/// when the quiz was paused.
#[test]
fn finish_clears_paused_and_sets_end_time() {
    let mut store = Store::new();
    let cat = make_category(&mut store, "Geography");
    for k in 0..3 {
        make_question(&mut store, cat, &format!("Question {}?", k), "Paris", 30);
    }
    let user = register(&mut store, "+15550001111", "quizuser");
    let quiz_id = store
        .start_quiz(user, cat, Difficulty::Beginner, 3, 0, 1000, 9)
        .unwrap();
    store.pause_quiz(quiz_id, true).unwrap();
    assert!(store.get_quiz(quiz_id).unwrap().paused);

    store.finish_quiz(quiz_id, 5000).unwrap();
    let quiz = store.get_quiz(quiz_id).unwrap();
    assert_eq!(quiz.end_time, Some(5000));
    assert!(!quiz.paused);
    let qid = quiz.questions[0];
    // a finished quiz can no longer be paused or answered
    assert_eq!(store.pause_quiz(quiz_id, true), Err(QuizError::InvalidState));
    assert_eq!(
        store.submit_answer(quiz_id, qid, "Paris".to_string(), 10),
        Err(QuizError::InvalidState)
    );
}

/// Each question may be answered once; a second submission is rejected
/// and neither the answer list nor the score changes.
#[test]
fn duplicate_answer_rejected() {
    let mut store = Store::new();
    let cat = make_category(&mut store, "Geography");
    for k in 0..3 {
        make_question(&mut store, cat, &format!("Question {}?", k), "Paris", 30);
    }
    let user = register(&mut store, "+15550001111", "quizuser");
    let quiz_id = store
        .start_quiz(user, cat, Difficulty::Beginner, 3, 0, 1000, 9)
        .unwrap();
    let qid = store.get_quiz(quiz_id).unwrap().questions[0];
    assert_eq!(store.submit_answer(quiz_id, qid, "Paris".to_string(), 10), Ok(15));
    assert_eq!(
        store.submit_answer(quiz_id, qid, "Paris".to_string(), 10),
        Err(QuizError::InvalidState)
    );
    let quiz = store.get_quiz(quiz_id).unwrap();
    assert_eq!(quiz.answers.len(), 1);
    assert_eq!(quiz.score, 15);
}

/// Missing references surface as the matching not-found errors.
#[test]
fn not_found_errors() {
    let mut store = Store::new();
    let cat = make_category(&mut store, "Geography");
    make_question(&mut store, cat, "Question?", "Paris", 30);
    let user = register(&mut store, "+15550001111", "quizuser");

    assert_eq!(
        store.submit_answer(999, 1, "Paris".to_string(), 10),
        Err(QuizError::QuizNotFound)
    );
    assert_eq!(store.pause_quiz(999, true), Err(QuizError::QuizNotFound));
    assert_eq!(store.finish_quiz(999, 1000), Err(QuizError::QuizNotFound));
    assert!(store.get_category(999).is_err());
    assert!(store.get_question(999).is_err());
    assert!(store.get_user(999).is_err());

    let quiz_id = store
        .start_quiz(user, cat, Difficulty::Beginner, 1, 0, 1000, 9)
        .unwrap();
    // a question that exists but is not part of the quiz
    let foreign = make_question(&mut store, cat, "Other?", "Paris", 30);
    assert_eq!(
        store.submit_answer(quiz_id, foreign, "Paris".to_string(), 10),
        Err(QuizError::QuestionNotFound)
    );
    // a question id that exists nowhere
    assert_eq!(
        store.submit_answer(quiz_id, 424242, "Paris".to_string(), 10),
        Err(QuizError::QuestionNotFound)
    );
}

/// A user's cumulative leaderboard score grows across finished quizzes,
/// and ranks stay contiguous from 1 for any number of users.
#[test]
fn cumulative_scores_and_contiguous_ranks() {
    let mut store = Store::new();
    let cat = make_category(&mut store, "Geography");
    for k in 0..2 {
        make_question(&mut store, cat, &format!("Question {}?", k), "Paris", 30);
    }
    let users: Vec<u128> = (0..3)
        .map(|k| {
            register(
                &mut store,
                &format!("+1555000{:04}", k),
                &format!("user{}", k),
            )
        })
        .collect();

    // user 0 finishes two quizzes of 30 points each, users 1 and 2 one
    for (k, u) in users.iter().enumerate() {
        let rounds = if k == 0 { 2 } else { 1 };
        for round in 0..rounds {
            let quiz = store
                .start_quiz(*u, cat, Difficulty::Beginner, 2, 0, 1000, (10 * k + round) as u128)
                .unwrap();
            for qid in store.get_quiz(quiz).unwrap().questions.clone() {
                let answer = if k == 2 { "Rome" } else { "Paris" };
                store.submit_answer(quiz, qid, answer.to_string(), 10).unwrap();
            }
            store.finish_quiz(quiz, 2000).unwrap();
        }
    }

    let board = store.leaderboard.get_leaderboard(cat);
    assert_eq!(board.len(), 3);
    let ranks: Vec<u64> = board.iter().map(|e| e.rank).collect();
    assert_eq!(ranks, vec![1, 2, 3]);
    assert_eq!(board[0].user_id, users[0]);
    assert_eq!(board[0].score, 60);
    assert_eq!(board[1].user_id, users[1]);
    assert_eq!(board[1].score, 30);
    assert_eq!(board[2].user_id, users[2]);
    assert_eq!(board[2].score, 0);
}

/// The cached top user follows the highest total of finished quizzes.
#[test]
fn categories_with_top_users_join() {
    let mut store = Store::new();
    let cat = make_category(&mut store, "Geography");
    let empty_cat = make_category(&mut store, "History");
    make_question(&mut store, cat, "Question?", "Paris", 30);
    let user = register(&mut store, "+15559998888", "topgun");

    let quiz = store
        .start_quiz(user, cat, Difficulty::Beginner, 1, 0, 1000, 5)
        .unwrap();
    let qid = store.get_quiz(quiz).unwrap().questions[0];
    store.submit_answer(quiz, qid, "Paris".to_string(), 10).unwrap();
    store.finish_quiz(quiz, 2000).unwrap();

    let joined = store.get_categories_with_top_users();
    assert_eq!(joined.len(), 2);
    let geo = joined.iter().find(|(c, _)| c.id == cat).unwrap();
    assert_eq!(geo.1.map(|u| u.id), Some(user));
    let hist = joined.iter().find(|(c, _)| c.id == empty_cat).unwrap();
    assert!(hist.1.is_none());
    // a category that never saw a finished quiz reports no top user
    assert_eq!(store.top_user_for_category(empty_cat).unwrap().map(|u| u.id), None);
}

/// Listing questions filters by category when one is given.
#[test]
fn list_questions_filters_by_category() {
    let mut store = Store::new();
    let cat_a = make_category(&mut store, "Geography");
    let cat_b = make_category(&mut store, "History");
    let q1 = make_question(&mut store, cat_a, "A1?", "Paris", 30);
    let q2 = make_question(&mut store, cat_b, "B1?", "1066", 30);
    let q3 = make_question(&mut store, cat_a, "A2?", "Rome", 30);

    let all: Vec<u128> = store.list_questions(None).iter().map(|q| q.id).collect();
    assert_eq!(all, vec![q1, q2, q3]);
    let only_a: Vec<u128> = store.list_questions(Some(cat_a)).iter().map(|q| q.id).collect();
    assert_eq!(only_a, vec![q1, q3]);
    let only_b: Vec<u128> = store.list_questions(Some(cat_b)).iter().map(|q| q.id).collect();
    assert_eq!(only_b, vec![q2]);

    // deletion removes exactly the named question
    store.delete_question(q1).unwrap();
    let left: Vec<u128> = store.list_questions(Some(cat_a)).iter().map(|q| q.id).collect();
    assert_eq!(left, vec![q3]);
    assert_eq!(store.delete_question(q1), Err(QuizError::QuestionNotFound));

    // category deletion
    store.delete_category(cat_b).unwrap();
    assert!(store.get_category(cat_b).is_err());
    assert_eq!(store.list_categories().len(), 1);
}

/// Profile updates replace the profile and nothing else.
#[test]
fn profile_update_and_missing_user() {
    let mut store = Store::new();
    let user = register(&mut store, "+15550001111", "quizuser");
    let profile = Profile {
        avatar: None,
        bio: Some("hello".to_string()),
        preferred_language: Some("en".to_string()),
        country: None,
    };
    store.update_profile(user, profile).unwrap();
    let u = store.get_user(user).unwrap();
    assert_eq!(u.profile.bio.as_deref(), Some("hello"));
    assert_eq!(u.username, "quizuser");
    assert!(store
        .update_profile(
            999,
            Profile { avatar: None, bio: None, preferred_language: None, country: None }
        )
        .is_err());
}
