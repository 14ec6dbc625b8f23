use vstd::prelude::*;
use vstd::utf8::encode_utf8;

use crate::task::{copy_opt_text, opt_text};

verus! {

/// The number of bytes that the UTF-8 writing of `s` takes, as `str::len`
/// gives it.
pub open spec fn byte_len(s: Seq<char>) -> usize {
    encode_utf8(s).len() as usize
}

/// A user of the task service. The password is only held while a form is
/// being filled in; the token proves a login.
#[derive(Clone, Debug)]
pub struct User {
    pub id: Option<u64>,
    pub username: String,
    pub password: Option<String>,
    pub token: Option<String>,
}

/// A user with the strings taken by their characters.
pub struct UserView {
    pub id: Option<u64>,
    pub username: Seq<char>,
    pub password: Option<Seq<char>>,
    pub token: Option<Seq<char>>,
}

impl View for User {
    type V = UserView;

    open spec fn view(&self) -> UserView {
        UserView {
            id: self.id,
            username: self.username@,
            password: opt_text(self.password),
            token: opt_text(self.token),
        }
    }
}

/// A user's name and password are acceptable when the name takes at least
/// three bytes and the password (empty when missing) at least four.
pub open spec fn spec_user_valid(u: UserView) -> bool {
    byte_len(u.username) >= 3 && byte_len(
        match u.password {
            Some(p) => p,
            None => Seq::empty(),
        },
    ) >= 4
}

impl User {
    /// A user with an empty name and nothing else.
    pub fn new() -> (u: User)
        ensures
            u@ == (UserView { id: None, username: Seq::empty(), password: None, token: None }),
    {
        User { id: None, username: String::new(), password: None, token: None }
    }

    pub fn set_username(&mut self, value: String)
        ensures
            final(self)@ == (UserView { username: value@, ..old(self)@ }),
    {
        self.username = value;
    }

    pub fn set_password(&mut self, value: String)
        ensures
            final(self)@ == (UserView { password: Some(value@), ..old(self)@ }),
    {
        self.password = Some(value);
    }

    /// Whether the name and password are long enough to be sent.
    pub fn is_valid(&self) -> (b: bool)
        ensures
            b == spec_user_valid(self@),
            b == (byte_len(self@.username) >= 3 && byte_len(
                match self@.password {
                    Some(p) => p,
                    None => Seq::empty(),
                },
            ) >= 4),
    {
        let password_len = match &self.password {
            Some(p) => p.as_str().len(),
            None => 0,
        };
        self.username.as_str().len() >= 3 && password_len >= 4
    }

    /// The text that shows the user: the name.
    pub fn text(&self) -> (s: String)
        ensures
            s@ == self@.username,
    {
        self.username.clone()
    }

    /// The same user, field for field.
    pub fn copy(&self) -> (u: User)
        ensures
            u@ == self@,
    {
        User {
            id: self.id,
            username: self.username.clone(),
            password: copy_opt_text(&self.password),
            token: copy_opt_text(&self.token),
        }
    }
}

/// A user can be sent exactly when the name takes at least three bytes and
/// the password at least four: no longer name or password is refused, and a
/// missing password counts as empty.
pub proof fn lemma_valid_by_lengths(u: UserView)
    ensures
        spec_user_valid(u) <==> (byte_len(u.username) >= 3 && match u.password {
            Some(p) => byte_len(p) >= 4,
            None => false,
        }),
{
    assert(byte_len(Seq::<char>::empty()) == 0) by {
        assert(encode_utf8(Seq::<char>::empty()) =~= Seq::<u8>::empty());
    }
}

/// Changing the password of a valid user to another one that takes at
/// least four bytes keeps the user valid, however long the new one is.
pub proof fn lemma_any_long_enough_password_is_valid(u: UserView, password: Seq<char>)
    requires
        spec_user_valid(u),
        byte_len(password) >= 4,
    ensures
        spec_user_valid(UserView { password: Some(password), ..u }),
{
}

} // verus!
