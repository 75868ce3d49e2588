use vstd::prelude::*;
use vstd::string::StrSliceExecFns;

use core::cmp::Ordering;

use crate::auth_forms::{take_text, UserError, UserSignupForm};
use crate::form::Form;
use crate::list::{ListFilter, ListItem, ListSorter};
use crate::render::score_order;
use crate::users::{Timestamp, User};

verus! {

/// The form that renames a user.
#[derive(Debug, Default)]
pub struct UpdateUserForm {
    username: String,
    last_error: Option<UserError>,
}

impl UpdateUserForm {
    pub closed spec fn username_text(&self) -> String {
        self.username
    }

    pub fn set_username(&mut self, input: String)
        ensures
            final(self).username_text() == input,
            final(self).stored_error() == old(self).stored_error(),
    {
        self.username = input;
    }

    pub fn username(&self) -> (r: &str)
        ensures
            r@ == self.username_text()@,
    {
        self.username.as_str()
    }
}

impl Form for UpdateUserForm {
    type Output = String;
    type Error = UserError;
    type Entries = String;

    open spec fn entries(&self) -> String {
        self.username_text()
    }

    open spec fn is_blank(&self) -> bool {
        self.username_text()@.len() == 0
    }

    open spec fn outcome(&self) -> Result<String, UserError> {
        if self.username_text()@.len() == 0 {
            Err(UserError::EmptyUsername)
        } else {
            Ok(self.username_text())
        }
    }

    closed spec fn stored_error(&self) -> Option<UserError> {
        self.last_error
    }

    fn blank() -> (r: Self) {
        UpdateUserForm { username: String::new(), last_error: None }
    }

    fn last_error(&self) -> (r: &Option<UserError>) {
        &self.last_error
    }

    fn set_last_error(&mut self, error: Option<UserError>) {
        self.last_error = error;
    }

    fn validate(&mut self) -> (r: Result<String, UserError>) {
        if self.username.as_str().is_empty() {
            return Err(UserError::EmptyUsername);
        }
        Ok(take_text(&mut self.username))
    }
}

/// The first rule that a creation form breaks, if any.
pub open spec fn create_check(username: Seq<char>, password: Seq<char>, confirmation: Seq<char>) -> Option<UserError> {
    if username.len() == 0 {
        Some(UserError::EmptyUsername)
    } else if password.len() == 0 {
        Some(UserError::EmptyPassword)
    } else if password != confirmation {
        Some(UserError::PasswordConfirmationMismatch)
    } else {
        None
    }
}

/// A user creation form without a strength requirement.
#[derive(Debug, Default)]
pub struct CreateUserForm {
    username: String,
    password: String,
    password_confirmation: String,
    last_error: Option<UserError>,
}

impl CreateUserForm {
    pub closed spec fn username_text(&self) -> String {
        self.username
    }

    pub closed spec fn password_text(&self) -> String {
        self.password
    }

    pub closed spec fn confirmation_text(&self) -> String {
        self.password_confirmation
    }

    pub fn set_fields(&mut self, username: String, password: String, password_confirmation: String)
        ensures
            final(self).username_text() == username,
            final(self).password_text() == password,
            final(self).confirmation_text() == password_confirmation,
            final(self).stored_error() == old(self).stored_error(),
    {
        self.username = username;
        self.password = password;
        self.password_confirmation = password_confirmation;
    }
}

impl Form for CreateUserForm {
    type Output = (String, String);
    type Error = UserError;
    type Entries = (String, String, String);

    open spec fn entries(&self) -> (String, String, String) {
        (self.username_text(), self.password_text(), self.confirmation_text())
    }

    open spec fn is_blank(&self) -> bool {
        &&& self.username_text()@.len() == 0
        &&& self.password_text()@.len() == 0
        &&& self.confirmation_text()@.len() == 0
    }

    open spec fn outcome(&self) -> Result<(String, String), UserError> {
        match create_check(self.username_text()@, self.password_text()@, self.confirmation_text()@) {
            Some(e) => Err(e),
            None => Ok((self.username_text(), self.password_text())),
        }
    }

    closed spec fn stored_error(&self) -> Option<UserError> {
        self.last_error
    }

    fn blank() -> (r: Self) {
        CreateUserForm {
            username: String::new(),
            password: String::new(),
            password_confirmation: String::new(),
            last_error: None,
        }
    }

    fn last_error(&self) -> (r: &Option<UserError>) {
        &self.last_error
    }

    fn set_last_error(&mut self, error: Option<UserError>) {
        self.last_error = error;
    }

    fn validate(&mut self) -> (r: Result<(String, String), UserError>) {
        if self.username.as_str().is_empty() {
            return Err(UserError::EmptyUsername);
        }
        if self.password.as_str().is_empty() {
            return Err(UserError::EmptyPassword);
        }
        if self.password != self.password_confirmation {
            return Err(UserError::PasswordConfirmationMismatch);
        }
        self.password_confirmation = String::new();
        let username = take_text(&mut self.username);
        let password = take_text(&mut self.password);
        Ok((username, password))
    }
}

/// A name for the Jaro similarity of two texts, as the bit pattern of the
/// double that rapidfuzz computes.
pub uninterp spec fn jaro_of(a: Seq<char>, b: Seq<char>) -> u64;

/// The bit pattern of the double 1.0; the bits of every double in [0, 1]
/// are at most this.
pub const SCORE_ONE: u64 = 0x3FF0_0000_0000_0000;

/// The bit pattern of the double 0.5, the least similarity a match must
/// exceed.
pub const SCORE_HALF: u64 = 0x3FE0_0000_0000_0000;

/// Relies on rapidfuzz::distance::jaro::similarity over the characters of
/// both texts: a double in [0, 1] that depends on the texts alone.
#[verifier::external_body]
fn jaro_similarity(a: &str, b: &str) -> (r: u64)
    ensures
        r == jaro_of(a@, b@),
        r <= SCORE_ONE,
{
    rapidfuzz::distance::jaro::similarity(a.chars(), b.chars()).to_bits()
}

/// Keeps the users whose name is similar to the searched text.
#[derive(Debug, Default)]
pub struct UserFilter {
    by_username: String,
}

/// The verdict on a user for a search text: every user, with score 0, when
/// the text is empty; otherwise those whose similarity exceeds one half,
/// scored by it.
pub open spec fn search_verdict(search: Seq<char>, username: Seq<char>) -> (bool, u64) {
    if search.len() == 0 {
        (true, 0)
    } else {
        let score = jaro_of(search, username);
        (score > SCORE_HALF, score)
    }
}

impl UserFilter {
    pub closed spec fn search_view(&self) -> Seq<char> {
        self.by_username@
    }

    pub fn set_search(&mut self, input: String)
        ensures
            final(self).search_view() == input@,
    {
        self.by_username = input;
    }

    /// The verdict for a similarity already computed: what `filter` does
    /// once the outside call has answered.
    pub fn verdict_for(&self, similarity: u64) -> (r: (bool, u64))
        ensures
            r == if self.search_view().len() == 0 {
                (true, 0u64)
            } else {
                (similarity > SCORE_HALF, similarity)
            },
    {
        if self.by_username.as_str().is_empty() {
            (true, 0)
        } else {
            (similarity > SCORE_HALF, similarity)
        }
    }
}

impl ListFilter<User> for UserFilter {
    open spec fn verdict(&self, item: &User) -> (bool, u64) {
        search_verdict(self.search_view(), item.username@)
    }

    fn filter(&self, item: &User) -> (r: (bool, u64)) {
        if self.by_username.as_str().is_empty() {
            (true, 0)
        } else {
            let score = jaro_similarity(self.by_username.as_str(), item.username.as_str());
            self.verdict_for(score)
        }
    }
}

/// The field users are sorted by.
#[derive(Debug, Clone, Copy, PartialEq, Eq, Default)]
pub enum UserSortBy {
    #[default]
    Id,
    Username,
    CreatedAt,
}

impl UserSortBy {
    pub fn next(&self) -> (r: Self)
        ensures
            r == match self {
                UserSortBy::Id => UserSortBy::Username,
                UserSortBy::Username => UserSortBy::CreatedAt,
                UserSortBy::CreatedAt => UserSortBy::Id,
            },
    {
        match self {
            UserSortBy::Id => UserSortBy::Username,
            UserSortBy::Username => UserSortBy::CreatedAt,
            UserSortBy::CreatedAt => UserSortBy::Id,
        }
    }

    pub fn label(&self) -> (r: &'static str)
        ensures
            r@ == match self {
                UserSortBy::Id => "ID"@,
                UserSortBy::Username => "Username"@,
                UserSortBy::CreatedAt => "Signup date"@,
            },
    {
        match self {
            UserSortBy::Id => "ID",
            UserSortBy::Username => "Username",
            UserSortBy::CreatedAt => "Signup date",
        }
    }
}

/// The direction of the sort.
#[derive(Debug, Clone, Copy, PartialEq, Eq, Default)]
pub enum UserSortOption {
    #[default]
    Ascending,
    Descending,
}

impl UserSortOption {
    pub fn next(&self) -> (r: Self)
        ensures
            r == match self {
                UserSortOption::Ascending => UserSortOption::Descending,
                UserSortOption::Descending => UserSortOption::Ascending,
            },
    {
        match self {
            UserSortOption::Ascending => UserSortOption::Descending,
            UserSortOption::Descending => UserSortOption::Ascending,
        }
    }

    pub fn label(&self) -> (r: &'static str)
        ensures
            r@ == match self {
                UserSortOption::Ascending => "Ascending"@,
                UserSortOption::Descending => "Descending"@,
            },
    {
        match self {
            UserSortOption::Ascending => "Ascending",
            UserSortOption::Descending => "Descending",
        }
    }
}

/// The order of two integers.
pub open spec fn int_order(a: int, b: int) -> Ordering {
    if a < b {
        Ordering::Less
    } else if a > b {
        Ordering::Greater
    } else {
        Ordering::Equal
    }
}

/// The lexicographic order of two texts by character code, which is the
/// order of their UTF-8 bytes.
pub open spec fn text_order(a: Seq<char>, b: Seq<char>) -> Ordering
    decreases a.len(),
{
    if a.len() == 0 && b.len() == 0 {
        Ordering::Equal
    } else if a.len() == 0 {
        Ordering::Less
    } else if b.len() == 0 {
        Ordering::Greater
    } else if (a[0] as u32) < (b[0] as u32) {
        Ordering::Less
    } else if (a[0] as u32) > (b[0] as u32) {
        Ordering::Greater
    } else {
        text_order(a.drop_first(), b.drop_first())
    }
}

/// Missing dates first, then by seconds and nanoseconds.
pub open spec fn time_order(a: Option<Timestamp>, b: Option<Timestamp>) -> Ordering {
    match (a, b) {
        (None, None) => Ordering::Equal,
        (None, Some(_)) => Ordering::Less,
        (Some(_), None) => Ordering::Greater,
        (Some(x), Some(y)) => if x.seconds != y.seconds {
            int_order(x.seconds as int, y.seconds as int)
        } else {
            int_order(x.nanos as int, y.nanos as int)
        },
    }
}

pub open spec fn reversed(o: Ordering) -> Ordering {
    match o {
        Ordering::Less => Ordering::Greater,
        Ordering::Equal => Ordering::Equal,
        Ordering::Greater => Ordering::Less,
    }
}

/// `first`, or `second` where `first` ties.
pub open spec fn then_order(first: Ordering, second: Ordering) -> Ordering {
    if first == Ordering::Equal {
        second
    } else {
        first
    }
}

/// A name for what str::to_lowercase returns.
pub uninterp spec fn lower_of(s: Seq<char>) -> Seq<char>;

/// Relies on str::to_lowercase: the result depends on the text alone, and
/// the empty text stays empty.
#[verifier::external_body]
fn lowercase(s: &str) -> (r: String)
    ensures
        r@ == lower_of(s@),
        s@.len() == 0 ==> r@.len() == 0,
{
    s.to_lowercase()
}

fn compare_i64(a: i64, b: i64) -> (r: Ordering)
    ensures
        r == int_order(a as int, b as int),
{
    if a < b {
        Ordering::Less
    } else if a > b {
        Ordering::Greater
    } else {
        Ordering::Equal
    }
}

fn compare_u32(a: u32, b: u32) -> (r: Ordering)
    ensures
        r == int_order(a as int, b as int),
{
    if a < b {
        Ordering::Less
    } else if a > b {
        Ordering::Greater
    } else {
        Ordering::Equal
    }
}

/// Compares two texts character by character.
pub fn compare_text(a: &str, b: &str) -> (r: Ordering)
    ensures
        r == text_order(a@, b@),
{
    let la = a.unicode_len();
    let lb = b.unicode_len();
    let mut i: usize = 0;
    proof {
        assert(a@.skip(0) =~= a@);
        assert(b@.skip(0) =~= b@);
    }
    loop
        invariant
            i <= la,
            i <= lb,
            la == a@.len(),
            lb == b@.len(),
            text_order(a@, b@) == text_order(a@.skip(i as int), b@.skip(i as int)),
        decreases la - i,
    {
        if i == la && i == lb {
            return Ordering::Equal;
        }
        if i == la {
            return Ordering::Less;
        }
        if i == lb {
            return Ordering::Greater;
        }
        let ca = a.get_char(i);
        let cb = b.get_char(i);
        proof {
            assert(a@.skip(i as int)[0] == ca);
            assert(b@.skip(i as int)[0] == cb);
            assert(a@.skip(i as int).drop_first() =~= a@.skip(i + 1));
            assert(b@.skip(i as int).drop_first() =~= b@.skip(i + 1));
        }
        if (ca as u32) < (cb as u32) {
            return Ordering::Less;
        }
        if (ca as u32) > (cb as u32) {
            return Ordering::Greater;
        }
        i += 1;
    }
}

fn compare_times(a: Option<Timestamp>, b: Option<Timestamp>) -> (r: Ordering)
    ensures
        r == time_order(a, b),
{
    match (a, b) {
        (None, None) => Ordering::Equal,
        (None, Some(_)) => Ordering::Less,
        (Some(_), None) => Ordering::Greater,
        (Some(x), Some(y)) => if x.seconds != y.seconds {
            compare_i64(x.seconds, y.seconds)
        } else {
            compare_u32(x.nanos, y.nanos)
        },
    }
}

/// Sorts users by a chosen field and direction, higher match scores first.
#[derive(Debug, Default)]
pub struct UserSorter {
    pub enabled: bool,
    pub sort_by: UserSortBy,
    pub option: UserSortOption,
}

/// The order of two users by a field alone.
pub open spec fn field_order(sort_by: UserSortBy, a: User, b: User) -> Ordering {
    match sort_by {
        UserSortBy::Id => int_order(a.id as int, b.id as int),
        UserSortBy::Username => text_order(lower_of(a.username@), lower_of(b.username@)),
        UserSortBy::CreatedAt => time_order(a.created_at, b.created_at),
    }
}

impl ListSorter<User> for UserSorter {
    open spec fn is_enabled(&self) -> bool {
        self.enabled
    }

    /// Disabled: by descending score. Enabled: by descending score, ties
    /// by the field in the chosen direction.
    open spec fn order(&self, a: &User, b: &User, score_a: u64, score_b: u64) -> Ordering {
        if !self.enabled {
            score_order(score_a, score_b)
        } else {
            let by_field = field_order(self.sort_by, *a, *b);
            let directed = if self.option == UserSortOption::Descending {
                reversed(by_field)
            } else {
                by_field
            };
            then_order(score_order(score_a, score_b), directed)
        }
    }

    fn enabled(&self) -> (r: bool) {
        self.enabled
    }

    fn sort(&self, a: &User, b: &User, score_a: u64, score_b: u64) -> (r: Ordering) {
        let by_score = if score_a > score_b {
            Ordering::Less
        } else if score_a < score_b {
            Ordering::Greater
        } else {
            Ordering::Equal
        };
        if !self.enabled {
            return by_score;
        }
        let by_field = match self.sort_by {
            UserSortBy::Id => compare_i64(a.id, b.id),
            UserSortBy::Username => {
                let la = lowercase(a.username.as_str());
                let lb = lowercase(b.username.as_str());
                compare_text(la.as_str(), lb.as_str())
            },
            UserSortBy::CreatedAt => compare_times(a.created_at, b.created_at),
        };
        let directed = match self.option {
            UserSortOption::Descending => match by_field {
                Ordering::Less => Ordering::Greater,
                Ordering::Equal => Ordering::Equal,
                Ordering::Greater => Ordering::Less,
            },
            UserSortOption::Ascending => by_field,
        };
        match by_score {
            Ordering::Equal => directed,
            _ => by_score,
        }
    }
}

impl ListItem for User {
    type CreateForm = UserSignupForm;
    type UpdateForm = UpdateUserForm;
    type Filter = UserFilter;
    type Sorter = UserSorter;

    open spec fn key(&self) -> i64 {
        self.id
    }

    open spec fn fills(&self, form: UpdateUserForm) -> bool {
        form.username_text() == self.username && form.stored_error() is None
    }

    /// An empty search.
    open spec fn fresh_filter(f: UserFilter) -> bool {
        f.search_view().len() == 0
    }

    /// Disabled, by identifier, ascending.
    open spec fn fresh_sorter(s: UserSorter) -> bool {
        !s.enabled && s.sort_by == UserSortBy::Id && s.option == UserSortOption::Ascending
    }

    fn id(&self) -> (r: i64) {
        self.id
    }

    fn to_update_form(&self) -> (r: UpdateUserForm) {
        UpdateUserForm { username: self.username.clone(), last_error: None }
    }

    fn new_filter() -> (r: UserFilter) {
        UserFilter { by_username: String::new() }
    }

    fn new_sorter() -> (r: UserSorter) {
        UserSorter { enabled: false, sort_by: UserSortBy::Id, option: UserSortOption::Ascending }
    }
}

/// A user list starts with a filter that keeps everyone with score 0 and
/// a disabled sorter, so its records are rendered in collection order.
pub proof fn lemma_fresh_user_tools_inactive(f: UserFilter, s: UserSorter)
    requires
        User::fresh_filter(f),
        User::fresh_sorter(s),
    ensures
        forall|x: User| #[trigger] f.verdict(&x) == (true, 0u64),
        !s.is_enabled(),
{
}

} // verus!

