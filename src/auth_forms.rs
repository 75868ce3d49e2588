use vstd::prelude::*;

use crate::form::{Form, Submit};

verus! {

/// Why a user form was rejected.
#[derive(Debug, Clone, Copy, PartialEq, Eq)]
pub enum UserError {
    EmptyUsername,
    EmptyPassword,
    PasswordConfirmationMismatch,
    WeakPassword,
}

impl UserError {
    /// The message shown to the user.
    pub fn message(&self) -> (r: &'static str)
        ensures
            r@ == match self {
                UserError::EmptyUsername => "username is required"@,
                UserError::EmptyPassword => "password is required"@,
                UserError::PasswordConfirmationMismatch => "password confirmation doesn't match"@,
                UserError::WeakPassword => "password is too weak"@,
            },
    {
        match self {
            UserError::EmptyUsername => "username is required",
            UserError::EmptyPassword => "password is required",
            UserError::PasswordConfirmationMismatch => "password confirmation doesn't match",
            UserError::WeakPassword => "password is too weak",
        }
    }
}

/// A request to the authentication service.
#[derive(Debug, Clone, PartialEq, Eq)]
pub enum AuthRequest {
    Login(String, String),
    Logout,
}

/// Moves the text out of `s`, leaving it empty.
pub(crate) fn take_text(s: &mut String) -> (r: String)
    ensures
        r == *old(s),
        final(s)@.len() == 0,
{
    let mut out = String::new();
    core::mem::swap(&mut out, s);
    out
}

/// The login form: a username and a password, both required.
#[derive(Debug, Default)]
pub struct UserLoginForm {
    username: String,
    password: String,
    last_error: Option<UserError>,
}

/// The first rule that a login form breaks, if any.
pub open spec fn login_check(username: Seq<char>, password: Seq<char>) -> Option<UserError> {
    if username.len() == 0 {
        Some(UserError::EmptyUsername)
    } else if password.len() == 0 {
        Some(UserError::EmptyPassword)
    } else {
        None
    }
}

impl UserLoginForm {
    pub closed spec fn username_text(&self) -> String {
        self.username
    }

    pub closed spec fn password_text(&self) -> String {
        self.password
    }

    pub fn set_username(&mut self, input: String)
        ensures
            final(self).username_text() == input,
            final(self).password_text() == old(self).password_text(),
            final(self).stored_error() == old(self).stored_error(),
    {
        self.username = input;
    }

    pub fn set_password(&mut self, input: String)
        ensures
            final(self).password_text() == input,
            final(self).username_text() == old(self).username_text(),
            final(self).stored_error() == old(self).stored_error(),
    {
        self.password = input;
    }

    pub fn check(&self) -> (r: Result<(), UserError>)
        ensures
            r == match login_check(self.username_text()@, self.password_text()@) {
                Some(e) => Err(e),
                None => Ok(()),
            },
    {
        if self.username.as_str().is_empty() {
            return Err(UserError::EmptyUsername);
        }
        if self.password.as_str().is_empty() {
            return Err(UserError::EmptyPassword);
        }
        Ok(())
    }

    /// Acts on the form: on cancel, resets it; on submit, a valid form is
    /// blanked and, when the authentication service is reachable, turned
    /// into a login request, while an invalid one keeps its entries and
    /// stores the rejection.
    pub fn handle_submit(&mut self, submit: Submit, connected: bool) -> (r: Option<AuthRequest>)
        ensures
            match submit {
                Submit::No => r is None && *final(self) == *old(self),
                Submit::Cancel => r is None && final(self).is_blank() && final(self).stored_error() is None,
                Submit::Yes => match old(self).outcome() {
                    Ok((username, password)) => {
                        &&& r == if connected { Some(AuthRequest::Login(username, password)) } else { None }
                        &&& final(self).is_blank()
                        &&& final(self).stored_error() is None
                    },
                    Err(e) => {
                        &&& r is None
                        &&& final(self).stored_error() == Some(e)
                        &&& final(self).entries() == old(self).entries()
                    },
                },
            },
    {
        match submit {
            Submit::No => None,
            Submit::Cancel => {
                self.reset();
                None
            },
            Submit::Yes => {
                match self.submit() {
                    Some((username, password)) => if connected {
                        Some(AuthRequest::Login(username, password))
                    } else {
                        None
                    },
                    None => None,
                }
            },
        }
    }
}

impl Form for UserLoginForm {
    type Output = (String, String);
    type Error = UserError;
    type Entries = (String, String);

    open spec fn entries(&self) -> (String, String) {
        (self.username_text(), self.password_text())
    }

    open spec fn is_blank(&self) -> bool {
        self.username_text()@.len() == 0 && self.password_text()@.len() == 0
    }

    open spec fn outcome(&self) -> Result<(String, String), UserError> {
        match login_check(self.username_text()@, self.password_text()@) {
            Some(e) => Err(e),
            None => Ok((self.username_text(), self.password_text())),
        }
    }

    closed spec fn stored_error(&self) -> Option<UserError> {
        self.last_error
    }

    fn blank() -> (r: Self) {
        UserLoginForm { username: String::new(), password: String::new(), last_error: None }
    }

    fn last_error(&self) -> (r: &Option<UserError>) {
        &self.last_error
    }

    fn set_last_error(&mut self, error: Option<UserError>) {
        self.last_error = error;
    }

    fn validate(&mut self) -> (r: Result<(String, String), UserError>) {
        match self.check() {
            Err(e) => Err(e),
            Ok(()) => {
                let username = take_text(&mut self.username);
                let password = take_text(&mut self.password);
                Ok((username, password))
            },
        }
    }
}

/// Relies on zxcvbn::zxcvbn and Entropy::score: a strength score from 0 to
/// 4, and 0 for an empty password. The score also depends on the current
/// year (dates in a password are judged against it), so it is not a
/// function of the two texts.
#[verifier::external_body]
fn password_strength(password: &str, username: &str) -> (r: u8)
    ensures
        r <= 4,
        password@.len() == 0 ==> r == 0,
{
    u8::from(zxcvbn::zxcvbn(password, &[username]).score())
}

/// The strongest score; anything below is rejected at signup.
pub const STRONG_PASSWORD: u8 = 4;

/// The first rule that signup fields break, given the strength score of
/// the password.
pub open spec fn signup_rule(username: Seq<char>, password: Seq<char>, confirmation: Seq<char>, score: u8) -> Option<UserError> {
    if username.len() == 0 {
        Some(UserError::EmptyUsername)
    } else if password.len() == 0 {
        Some(UserError::EmptyPassword)
    } else if score < STRONG_PASSWORD {
        Some(UserError::WeakPassword)
    } else if password != confirmation {
        Some(UserError::PasswordConfirmationMismatch)
    } else {
        None
    }
}

/// Judges signup fields once the password has been scored.
pub fn signup_verdict(username: &String, password: &String, confirmation: &String, score: u8) -> (r: Result<(), UserError>)
    ensures
        r == match signup_rule(username@, password@, confirmation@, score) {
            Some(e) => Err(e),
            None => Ok(()),
        },
{
    if username.as_str().is_empty() {
        return Err(UserError::EmptyUsername);
    }
    if password.as_str().is_empty() {
        return Err(UserError::EmptyPassword);
    }
    if score < STRONG_PASSWORD {
        return Err(UserError::WeakPassword);
    }
    if *password != *confirmation {
        return Err(UserError::PasswordConfirmationMismatch);
    }
    Ok(())
}

/// The account creation form: username, a strong password and its
/// confirmation. The password is scored again whenever the username or the
/// password changes, and the form is judged by the score it holds.
#[derive(Debug, Default)]
pub struct UserSignupForm {
    username: String,
    password: String,
    password_confirmation: String,
    score: u8,
    last_error: Option<UserError>,
}

impl UserSignupForm {
    pub closed spec fn username_text(&self) -> String {
        self.username
    }

    pub closed spec fn password_text(&self) -> String {
        self.password
    }

    pub closed spec fn confirmation_text(&self) -> String {
        self.password_confirmation
    }

    pub closed spec fn score_view(&self) -> u8 {
        self.score
    }

    fn rescore(&mut self)
        ensures
            final(self).score <= 4,
            final(self).password@.len() == 0 ==> final(self).score == 0,
            final(self).username == old(self).username,
            final(self).password == old(self).password,
            final(self).password_confirmation == old(self).password_confirmation,
            final(self).last_error == old(self).last_error,
    {
        self.score = password_strength(self.password.as_str(), self.username.as_str());
    }

    pub fn set_username(&mut self, input: String)
        ensures
            final(self).username_text() == input,
            final(self).password_text() == old(self).password_text(),
            final(self).confirmation_text() == old(self).confirmation_text(),
            final(self).score_view() <= 4,
            final(self).password_text()@.len() == 0 ==> final(self).score_view() == 0,
            final(self).stored_error() == old(self).stored_error(),
    {
        self.username = input;
        self.rescore();
    }

    pub fn set_password(&mut self, input: String)
        ensures
            final(self).password_text() == input,
            final(self).username_text() == old(self).username_text(),
            final(self).confirmation_text() == old(self).confirmation_text(),
            final(self).score_view() <= 4,
            input@.len() == 0 ==> final(self).score_view() == 0,
            final(self).stored_error() == old(self).stored_error(),
    {
        self.password = input;
        self.rescore();
    }

    pub fn set_password_confirmation(&mut self, input: String)
        ensures
            final(self).confirmation_text() == input,
            final(self).username_text() == old(self).username_text(),
            final(self).password_text() == old(self).password_text(),
            final(self).score_view() == old(self).score_view(),
            final(self).stored_error() == old(self).stored_error(),
    {
        self.password_confirmation = input;
    }

    /// The strength score of the password as last scored.
    pub fn score(&self) -> (r: u8)
        ensures
            r == self.score_view(),
    {
        self.score
    }

    /// The first rule the fields break, judged by the score the form holds.
    pub fn check(&self) -> (r: Result<(), UserError>)
        ensures
            r == match signup_rule(self.username_text()@, self.password_text()@, self.confirmation_text()@, self.score_view()) {
                Some(e) => Err(e),
                None => Ok(()),
            },
    {
        signup_verdict(&self.username, &self.password, &self.password_confirmation, self.score)
    }
}

impl Form for UserSignupForm {
    type Output = (String, String);
    type Error = UserError;
    type Entries = (String, String, String, u8);

    open spec fn entries(&self) -> (String, String, String, u8) {
        (self.username_text(), self.password_text(), self.confirmation_text(), self.score_view())
    }

    open spec fn is_blank(&self) -> bool {
        &&& self.username_text()@.len() == 0
        &&& self.password_text()@.len() == 0
        &&& self.confirmation_text()@.len() == 0
    }

    open spec fn outcome(&self) -> Result<(String, String), UserError> {
        match signup_rule(self.username_text()@, self.password_text()@, self.confirmation_text()@, self.score_view()) {
            Some(e) => Err(e),
            None => Ok((self.username_text(), self.password_text())),
        }
    }

    closed spec fn stored_error(&self) -> Option<UserError> {
        self.last_error
    }

    fn blank() -> (r: Self) {
        UserSignupForm {
            username: String::new(),
            password: String::new(),
            password_confirmation: String::new(),
            score: 0,
            last_error: None,
        }
    }

    fn last_error(&self) -> (r: &Option<UserError>) {
        &self.last_error
    }

    fn set_last_error(&mut self, error: Option<UserError>) {
        self.last_error = error;
    }

    fn validate(&mut self) -> (r: Result<(String, String), UserError>) {
        match self.check() {
            Err(e) => Err(e),
            Ok(()) => {
                self.password_confirmation = String::new();
                let username = take_text(&mut self.username);
                let password = take_text(&mut self.password);
                Ok((username, password))
            },
        }
    }
}

} // verus!
