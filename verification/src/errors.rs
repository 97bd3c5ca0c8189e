//! Error taxonomy of the core operations and of the auth flows, with the
//! client-facing message each error surfaces as.

use vstd::prelude::*;

verus! {

/// Failure of a quiz, content or leaderboard operation.
#[derive(Clone, Copy, Debug, PartialEq, Eq, Structural)]
pub enum QuizError {
    /// The referenced quiz does not exist.
    QuizNotFound,
    /// The referenced question does not exist or is not part of the quiz.
    QuestionNotFound,
    /// The referenced category does not exist.
    CategoryNotFound,
    /// The referenced user does not exist.
    UserNotFound,
    /// A malformed id was supplied.
    InvalidReference,
    /// The quiz's state does not admit the operation (paused, finished,
    /// or the question was already answered).
    InvalidState,
    /// Fewer eligible questions exist than were requested.
    InsufficientContent,
}

/// Failure of a registration or login flow.
#[derive(Clone, Copy, Debug, PartialEq, Eq, Structural)]
pub enum AuthError {
    /// The one-time code did not verify.
    InvalidOtp,
    /// The phone number is already registered.
    PhoneNumberInUse,
    /// The username is already registered.
    UsernameInUse,
    /// No user with the given phone number exists.
    UserNotFound,
    /// The password did not match the stored credential.
    InvalidPassword,
    /// A collaborator (password hasher, token issuer) failed.
    Upstream,
}

impl QuizError {
    /// The client-facing message for this error.
    pub open spec fn spec_message(self) -> Seq<char> {
        match self {
            QuizError::QuizNotFound => "Quiz not found"@,
            QuizError::QuestionNotFound => "Question not found"@,
            QuizError::CategoryNotFound => "Category not found"@,
            QuizError::UserNotFound => "User not found"@,
            QuizError::InvalidReference => "Invalid ID"@,
            QuizError::InvalidState => "Operation not allowed in the quiz's current state"@,
            QuizError::InsufficientContent => "Not enough questions available"@,
        }
    }

    /// The client-facing message for this error.
    pub fn message(&self) -> (msg: String)
        ensures
            msg@ == self.spec_message(),
    {
        match self {
            QuizError::QuizNotFound => String::from_str("Quiz not found"),
            QuizError::QuestionNotFound => String::from_str("Question not found"),
            QuizError::CategoryNotFound => String::from_str("Category not found"),
            QuizError::UserNotFound => String::from_str("User not found"),
            QuizError::InvalidReference => String::from_str("Invalid ID"),
            QuizError::InvalidState => String::from_str(
                "Operation not allowed in the quiz's current state",
            ),
            QuizError::InsufficientContent => String::from_str("Not enough questions available"),
        }
    }
}

impl AuthError {
    /// The client-facing message for this error.
    pub open spec fn spec_message(self) -> Seq<char> {
        match self {
            AuthError::InvalidOtp => "Invalid OTP"@,
            AuthError::PhoneNumberInUse => "Phone Number already in use"@,
            AuthError::UsernameInUse => "Username already in use"@,
            AuthError::UserNotFound => "User not found"@,
            AuthError::InvalidPassword => "Invalid password"@,
            AuthError::Upstream => "Upstream failure"@,
        }
    }

    /// The client-facing message for this error.
    pub fn message(&self) -> (msg: String)
        ensures
            msg@ == self.spec_message(),
    {
        match self {
            AuthError::InvalidOtp => String::from_str("Invalid OTP"),
            AuthError::PhoneNumberInUse => String::from_str("Phone Number already in use"),
            AuthError::UsernameInUse => String::from_str("Username already in use"),
            AuthError::UserNotFound => String::from_str("User not found"),
            AuthError::InvalidPassword => String::from_str("Invalid password"),
            AuthError::Upstream => String::from_str("Upstream failure"),
        }
    }
}

} // verus!
