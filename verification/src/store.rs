//! The credential store: the users, with unique identifiers, addresses and
//! slugs.

use vstd::prelude::*;
use crate::error::AuthError;
use crate::role::Role;
use crate::user::{SlimUser, User, UserView};

verus! {

/// The views of a sequence of users.
pub open spec fn views(s: Seq<User>) -> Seq<UserView> {
    Seq::new(s.len(), |i: int| s[i]@)
}

/// The position of the user with identifier `id`, if there is one.
pub open spec fn id_index(users: Seq<UserView>, id: u128) -> Option<int> {
    if exists|i: int| 0 <= i < users.len() && (#[trigger] users[i]).id == id {
        Some(choose|i: int| 0 <= i < users.len() && (#[trigger] users[i]).id == id)
    } else {
        None
    }
}

/// The position of the user with address `email`, if there is one.
pub open spec fn email_index(users: Seq<UserView>, email: Seq<char>) -> Option<int> {
    if exists|i: int| 0 <= i < users.len() && (#[trigger] users[i]).email == email {
        Some(choose|i: int| 0 <= i < users.len() && (#[trigger] users[i]).email == email)
    } else {
        None
    }
}

/// The position of the user with slug `slug`, if there is one.
pub open spec fn slug_index(users: Seq<UserView>, slug: Seq<char>) -> Option<int> {
    if exists|i: int| 0 <= i < users.len() && (#[trigger] users[i]).slug == slug {
        Some(choose|i: int| 0 <= i < users.len() && (#[trigger] users[i]).slug == slug)
    } else {
        None
    }
}

/// No two users share an identifier, an address or a slug.
pub open spec fn distinct(users: Seq<UserView>) -> bool {
    forall|i: int, j: int|
        0 <= i < j < users.len() ==> {
            &&& (#[trigger] users[i]).id != (#[trigger] users[j]).id
            &&& users[i].email != users[j].email
            &&& users[i].slug != users[j].slug
        }
}

/// Whether `u` cannot be added because its identifier, address or slug is
/// in use.
pub open spec fn taken(users: Seq<UserView>, u: UserView) -> bool {
    ||| id_index(users, u.id) is Some
    ||| email_index(users, u.email) is Some
    ||| slug_index(users, u.slug) is Some
}

/// Whether the user with identifier `id` cannot take the address `email`
/// and the slug `slug` because another user has one of them.
pub open spec fn clashes_for(
    users: Seq<UserView>,
    id: u128,
    email: Seq<char>,
    slug: Seq<char>,
) -> bool {
    match id_index(users, id) {
        Some(i) => clashes(users, i, email, slug),
        None => false,
    }
}

/// Whether a user other than the one at position `i` has the address
/// `email` or the slug `slug`.
pub open spec fn clashes(users: Seq<UserView>, i: int, email: Seq<char>, slug: Seq<char>) -> bool {
    exists|j: int|
        0 <= j < users.len() && j != i && ((#[trigger] users[j]).email == email || users[j].slug
            == slug)
}

/// The administrators among `users`, in order.
pub open spec fn admins_of(users: Seq<UserView>) -> Seq<UserView>
    decreases users.len(),
{
    if users.len() == 0 {
        users
    } else if users.last().role == Role::Admin {
        admins_of(users.drop_last()).push(users.last())
    } else {
        admins_of(users.drop_last())
    }
}

/// Whether some user is an administrator.
pub open spec fn has_admin(users: Seq<UserView>) -> bool {
    exists|i: int| 0 <= i < users.len() && (#[trigger] users[i]).role == Role::Admin
}

/// Whether the user at position `i` is the only administrator.
pub open spec fn sole_admin(users: Seq<UserView>, i: int) -> bool {
    &&& users[i].role == Role::Admin
    &&& forall|j: int| 0 <= j < users.len() && j != i ==> (#[trigger] users[j]).role != Role::Admin
}

/// What `update` stores for the user at hand: the given record, with the
/// creation time of the stored one.
pub open spec fn merged(stored: UserView, given: UserView) -> UserView {
    UserView { created_at: stored.created_at, ..given }
}

/// The stored record with a new hash and salt.
pub open spec fn rekeyed(stored: UserView, hash: Seq<u8>, salt: Seq<char>) -> UserView {
    UserView { hash, salt, ..stored }
}

/// Among distinct users each is found at its own position, by every key.
pub proof fn lemma_found_at(users: Seq<UserView>, i: int)
    requires
        distinct(users),
        0 <= i < users.len(),
    ensures
        id_index(users, users[i].id) == Some(i),
        email_index(users, users[i].email) == Some(i),
        slug_index(users, users[i].slug) == Some(i),
{
    let a = id_index(users, users[i].id)->Some_0;
    assert(a == i) by {
        if a < i {
            assert(users[a].id != users[i].id);
        } else if i < a {
            assert(users[i].id != users[a].id);
        }
    }
    let b = email_index(users, users[i].email)->Some_0;
    assert(b == i) by {
        if b < i {
            assert(users[b].email != users[i].email);
        } else if i < b {
            assert(users[i].email != users[b].email);
        }
    }
    let c = slug_index(users, users[i].slug)->Some_0;
    assert(c == i) by {
        if c < i {
            assert(users[c].slug != users[i].slug);
        } else if i < c {
            assert(users[i].slug != users[c].slug);
        }
    }
}

/// Adding a user whose keys are free keeps the users distinct.
pub proof fn lemma_push_distinct(users: Seq<UserView>, u: UserView)
    requires
        distinct(users),
        !taken(users, u),
    ensures
        distinct(users.push(u)),
{
    let next = users.push(u);
    assert forall|i: int, j: int| 0 <= i < j < next.len() implies {
        &&& (#[trigger] next[i]).id != (#[trigger] next[j]).id
        &&& next[i].email != next[j].email
        &&& next[i].slug != next[j].slug
    } by {
        if j == users.len() {
            assert(users[i].id != u.id);
            assert(users[i].email != u.email);
            assert(users[i].slug != u.slug);
        } else {
            assert(next[i] == users[i] && next[j] == users[j]);
        }
    }
}

/// Replacing a user by one with the same identifier, whose address and
/// slug no other user has, keeps the users distinct.
pub proof fn lemma_update_distinct(users: Seq<UserView>, i: int, u: UserView)
    requires
        distinct(users),
        0 <= i < users.len(),
        u.id == users[i].id,
        !clashes(users, i, u.email, u.slug),
    ensures
        distinct(users.update(i, u)),
{
    let next = users.update(i, u);
    assert forall|a: int, b: int| 0 <= a < b < next.len() implies {
        &&& (#[trigger] next[a]).id != (#[trigger] next[b]).id
        &&& next[a].email != next[b].email
        &&& next[a].slug != next[b].slug
    } by {
        assert(users[a].id != users[b].id);
        assert(users[a].email != users[b].email);
        assert(users[a].slug != users[b].slug);
        if a == i {
            assert(users[b].email != u.email && users[b].slug != u.slug);
        } else if b == i {
            assert(users[a].email != u.email && users[a].slug != u.slug);
        }
    }
}

/// A user that keeps its address and slug clashes with nobody.
pub proof fn lemma_same_keys_no_clash(users: Seq<UserView>, i: int)
    requires
        distinct(users),
        0 <= i < users.len(),
    ensures
        !clashes(users, i, users[i].email, users[i].slug),
{
    assert forall|j: int| 0 <= j < users.len() && j != i implies !((#[trigger] users[j]).email
        == users[i].email || users[j].slug == users[i].slug) by {
        if j < i {
            assert(users[j].email != users[i].email);
        } else {
            assert(users[i].email != users[j].email);
        }
    }
}

/// Removing a user keeps the others distinct.
pub proof fn lemma_remove_distinct(users: Seq<UserView>, i: int)
    requires
        distinct(users),
        0 <= i < users.len(),
    ensures
        distinct(users.remove(i)),
{
    let next = users.remove(i);
    assert forall|a: int, b: int| 0 <= a < b < next.len() implies {
        &&& (#[trigger] next[a]).id != (#[trigger] next[b]).id
        &&& next[a].email != next[b].email
        &&& next[a].slug != next[b].slug
    } by {
        let a0 = if a < i {
            a
        } else {
            a + 1
        };
        let b0 = if b < i {
            b
        } else {
            b + 1
        };
        assert(next[a] == users[a0] && next[b] == users[b0]);
        assert(users[a0].id != users[b0].id);
    }
}

/// The users, held in the order in which they were added.
pub struct CredentialStore {
    users: Vec<User>,
}

impl View for CredentialStore {
    type V = Seq<UserView>;

    closed spec fn view(&self) -> Seq<UserView> {
        views(self.users@)
    }
}

impl CredentialStore {
    /// The invariant of the store: its users are distinct.
    pub open spec fn wf(&self) -> bool {
        distinct(self@)
    }

    /// A store without users.
    pub fn new() -> (s: CredentialStore)
        ensures
            s@ == Seq::<UserView>::empty(),
            s.wf(),
    {
        let s = CredentialStore { users: Vec::new() };
        assert(s@ =~= Seq::<UserView>::empty());
        s
    }

    /// The number of users.
    pub fn len(&self) -> (n: usize)
        ensures
            n == self@.len(),
    {
        self.users.len()
    }

    fn position_of_id(&self, id: u128) -> (r: Option<usize>)
        requires
            self.wf(),
        ensures
            match r {
                Some(i) => id_index(self@, id) == Some(i as int) && i < self@.len(),
                None => id_index(self@, id) is None,
            },
    {
        let mut i: usize = 0;
        while i < self.users.len()
            invariant
                i <= self.users.len(),
                self.wf(),
                forall|k: int| 0 <= k < i ==> (#[trigger] self@[k]).id != id,
            decreases self.users.len() - i,
        {
            if self.users[i].id == id {
                proof {
                    assert(self@[i as int].id == id);
                    lemma_found_at(self@, i as int);
                }
                return Some(i);
            }
            i += 1;
        }
        None
    }

    fn position_of_email(&self, email: &String) -> (r: Option<usize>)
        requires
            self.wf(),
        ensures
            match r {
                Some(i) => email_index(self@, email@) == Some(i as int) && i < self@.len(),
                None => email_index(self@, email@) is None,
            },
    {
        let mut i: usize = 0;
        while i < self.users.len()
            invariant
                i <= self.users.len(),
                self.wf(),
                forall|k: int| 0 <= k < i ==> (#[trigger] self@[k]).email != email@,
            decreases self.users.len() - i,
        {
            if self.users[i].email == *email {
                proof {
                    assert(self@[i as int].email == email@);
                    lemma_found_at(self@, i as int);
                }
                return Some(i);
            }
            i += 1;
        }
        None
    }

    fn position_of_slug(&self, slug: &String) -> (r: Option<usize>)
        requires
            self.wf(),
        ensures
            match r {
                Some(i) => slug_index(self@, slug@) == Some(i as int) && i < self@.len(),
                None => slug_index(self@, slug@) is None,
            },
    {
        let mut i: usize = 0;
        while i < self.users.len()
            invariant
                i <= self.users.len(),
                self.wf(),
                forall|k: int| 0 <= k < i ==> (#[trigger] self@[k]).slug != slug@,
            decreases self.users.len() - i,
        {
            if self.users[i].slug == *slug {
                proof {
                    assert(self@[i as int].slug == slug@);
                    lemma_found_at(self@, i as int);
                }
                return Some(i);
            }
            i += 1;
        }
        None
    }

    fn has_clash(&self, at: usize, email: &String, slug: &String) -> (b: bool)
        ensures
            b == clashes(self@, at as int, email@, slug@),
    {
        let mut j: usize = 0;
        while j < self.users.len()
            invariant
                j <= self.users.len(),
                forall|k: int|
                    0 <= k < j && k != at ==> (#[trigger] self@[k]).email != email@ && self@[k].slug
                        != slug@,
            decreases self.users.len() - j,
        {
            if j != at && (self.users[j].email == *email || self.users[j].slug == *slug) {
                assert(self@[j as int].email == email@ || self@[j as int].slug == slug@);
                return true;
            }
            j += 1;
        }
        false
    }

    /// Tells whether the identifier, the address or the slug is in use.
    pub fn is_taken(&self, id: u128, email: &String, slug: &String) -> (b: bool)
        requires
            self.wf(),
        ensures
            b == (id_index(self@, id) is Some || email_index(self@, email@) is Some || slug_index(
                self@,
                slug@,
            ) is Some),
    {
        self.position_of_id(id).is_some() || self.position_of_email(email).is_some()
            || self.position_of_slug(slug).is_some()
    }

    /// Tells whether a user other than the one with identifier `id` has the
    /// address or the slug.
    pub fn clashes_with_others(&self, id: u128, email: &String, slug: &String) -> (b: bool)
        requires
            self.wf(),
        ensures
            b == clashes_for(self@, id, email@, slug@),
    {
        match self.position_of_id(id) {
            Some(i) => self.has_clash(i, email, slug),
            None => false,
        }
    }

    /// Adds a user. Fails with `Conflict`, and changes nothing, if the
    /// identifier, the address or the slug is in use.
    pub fn insert(&mut self, user: User) -> (r: Result<(), AuthError>)
        requires
            old(self).wf(),
        ensures
            final(self).wf(),
            match r {
                Ok(_) => !taken(old(self)@, user@) && final(self)@ == old(self)@.push(user@),
                Err(e) => e == AuthError::Conflict && taken(old(self)@, user@) && final(self)@
                    == old(self)@,
            },
    {
        if self.is_taken(user.id, &user.email, &user.slug) {
            return Err(AuthError::Conflict);
        }
        let ghost before = self@;
        let ghost u = user@;
        self.users.push(user);
        proof {
            assert(self@ =~= before.push(u));
            lemma_push_distinct(before, u);
        }
        Ok(())
    }

    /// The user with identifier `id`; `NotFound` if there is none.
    pub fn find(&self, id: u128) -> (r: Result<User, AuthError>)
        requires
            self.wf(),
        ensures
            match id_index(self@, id) {
                Some(i) => r is Ok && r->Ok_0@ == self@[i],
                None => r is Err && r->Err_0 == AuthError::NotFound,
            },
    {
        match self.position_of_id(id) {
            Some(i) => Ok(self.users[i].clone()),
            None => Err(AuthError::NotFound),
        }
    }

    /// The user with address `email`; `NotFound` if there is none.
    pub fn find_from_email(&self, email: &String) -> (r: Result<User, AuthError>)
        requires
            self.wf(),
        ensures
            match email_index(self@, email@) {
                Some(i) => r is Ok && r->Ok_0@ == self@[i],
                None => r is Err && r->Err_0 == AuthError::NotFound,
            },
    {
        match self.position_of_email(email) {
            Some(i) => Ok(self.users[i].clone()),
            None => Err(AuthError::NotFound),
        }
    }

    /// The user with slug `slug`; `NotFound` if there is none.
    pub fn find_from_slug(&self, slug: &String) -> (r: Result<User, AuthError>)
        requires
            self.wf(),
        ensures
            match slug_index(self@, slug@) {
                Some(i) => r is Ok && r->Ok_0@ == self@[i],
                None => r is Err && r->Err_0 == AuthError::NotFound,
            },
    {
        match self.position_of_slug(slug) {
            Some(i) => Ok(self.users[i].clone()),
            None => Err(AuthError::NotFound),
        }
    }

    /// The identifier of the user with slug `slug`; `NotFound` if there is
    /// none.
    pub fn find_id_from_slug(&self, slug: &String) -> (r: Result<u128, AuthError>)
        requires
            self.wf(),
        ensures
            r == match slug_index(self@, slug@) {
                Some(i) => Ok::<u128, AuthError>(self@[i].id),
                None => Err::<u128, AuthError>(AuthError::NotFound),
            },
    {
        match self.position_of_slug(slug) {
            Some(i) => Ok(self.users[i].id),
            None => Err(AuthError::NotFound),
        }
    }

    /// What a session needs of the user with address `email`.
    pub fn find_slim_from_email(&self, email: &String) -> (r: Result<SlimUser, AuthError>)
        requires
            self.wf(),
        ensures
            match email_index(self@, email@) {
                Some(i) => r is Ok && r->Ok_0.shows(self@[i]),
                None => r is Err && r->Err_0 == AuthError::NotFound,
            },
    {
        match self.find_from_email(email) {
            Ok(u) => Ok(SlimUser::from(u)),
            Err(e) => Err(e),
        }
    }

    /// What a session needs of the user with slug `slug`.
    pub fn find_slim_from_slug(&self, slug: &String) -> (r: Result<SlimUser, AuthError>)
        requires
            self.wf(),
        ensures
            match slug_index(self@, slug@) {
                Some(i) => r is Ok && r->Ok_0.shows(self@[i]),
                None => r is Err && r->Err_0 == AuthError::NotFound,
            },
    {
        match self.find_from_slug(slug) {
            Ok(u) => Ok(SlimUser::from(u)),
            Err(e) => Err(e),
        }
    }

    /// What a session needs of the first user with the display name
    /// `user_name`; `NotFound` if there is none. Names are not unique.
    pub fn find_from_user_name(&self, user_name: &String) -> (r: Result<SlimUser, AuthError>)
        ensures
            match r {
                Ok(u) => exists|i: int|
                    {
                        &&& 0 <= i < self@.len()
                        &&& u.shows(#[trigger] self@[i])
                        &&& self@[i].user_name == user_name@
                        &&& forall|j: int| 0 <= j < i ==> (#[trigger] self@[j]).user_name != user_name@
                    },
                Err(e) => e == AuthError::NotFound && forall|i: int|
                    0 <= i < self@.len() ==> (#[trigger] self@[i]).user_name != user_name@,
            },
    {
        let mut i: usize = 0;
        while i < self.users.len()
            invariant
                i <= self.users.len(),
                forall|k: int| 0 <= k < i ==> (#[trigger] self@[k]).user_name != user_name@,
            decreases self.users.len() - i,
        {
            if self.users[i].user_name == *user_name {
                let u = SlimUser::from(self.users[i].clone());
                assert(u.shows(self@[i as int]));
                return Ok(u);
            }
            i += 1;
        }
        Err(AuthError::NotFound)
    }

    /// All users, in the order in which they were added.
    pub fn find_all(&self) -> (r: Vec<User>)
        ensures
            views(r@) == self@,
    {
        let mut out: Vec<User> = Vec::new();
        let mut i: usize = 0;
        while i < self.users.len()
            invariant
                i <= self.users.len(),
                out.len() == i,
                views(out@) == self@.subrange(0, i as int),
            decreases self.users.len() - i,
        {
            let ghost prev = out@;
            let u = self.users[i].clone();
            out.push(u);
            i += 1;
            proof {
                assert(self@[i - 1] == u@);
                assert forall|k: int| 0 <= k < i implies #[trigger] views(out@)[k] == self@[k] by {
                    assert(views(out@)[k] == out@[k]@);
                    if k < i - 1 {
                        assert(out@[k] == prev[k]);
                        assert(views(prev)[k] == prev[k]@);
                        assert(views(prev)[k] == self@.subrange(0, i - 1)[k]);
                    } else {
                        assert(out@[k] == u);
                    }
                }
                assert(views(out@) =~= self@.subrange(0, i as int));
            }
        }
        assert(self@ =~= self@.subrange(0, self.users.len() as int));
        out
    }

    /// The administrators, in the order in which they were added.
    pub fn find_admins(&self) -> (r: Vec<User>)
        ensures
            views(r@) == admins_of(self@),
    {
        let mut out: Vec<User> = Vec::new();
        let mut i: usize = 0;
        assert(views(out@) =~= admins_of(self@.subrange(0, 0)));
        while i < self.users.len()
            invariant
                i <= self.users.len(),
                views(out@) == admins_of(self@.subrange(0, i as int)),
            decreases self.users.len() - i,
        {
            proof {
                let next = self@.subrange(0, i + 1);
                assert(next.drop_last() =~= self@.subrange(0, i as int));
                assert(next.last() == self@[i as int]);
            }
            if self.users[i].role.is_admin() {
                out.push(self.users[i].clone());
            }
            i += 1;
            assert(views(out@) =~= admins_of(self@.subrange(0, i as int)));
        }
        assert(self@ =~= self@.subrange(0, self.users.len() as int));
        out
    }

    /// The number of administrators.
    pub fn count_admins(&self) -> (n: usize)
        ensures
            n == admins_of(self@).len(),
    {
        let mut n: usize = 0;
        let mut i: usize = 0;
        while i < self.users.len()
            invariant
                i <= self.users.len(),
                n <= i,
                n == admins_of(self@.subrange(0, i as int)).len(),
            decreases self.users.len() - i,
        {
            proof {
                let next = self@.subrange(0, i + 1);
                assert(next.drop_last() =~= self@.subrange(0, i as int));
                assert(next.last() == self@[i as int]);
            }
            if self.users[i].role.is_admin() {
                n += 1;
            }
            i += 1;
        }
        assert(self@ =~= self@.subrange(0, self.users.len() as int));
        n
    }

    /// Tells whether the user with identifier `id` is the only
    /// administrator.
    pub fn is_sole_admin(&self, id: u128) -> (b: bool)
        requires
            self.wf(),
        ensures
            b == match id_index(self@, id) {
                Some(i) => sole_admin(self@, i),
                None => false,
            },
    {
        let i = match self.position_of_id(id) {
            Some(i) => i,
            None => {
                return false;
            },
        };
        if !self.users[i].role.is_admin() {
            return false;
        }
        let mut j: usize = 0;
        while j < self.users.len()
            invariant
                j <= self.users.len(),
                i < self.users.len(),
                self@[i as int].role == Role::Admin,
                forall|k: int| 0 <= k < j && k != i ==> (#[trigger] self@[k]).role != Role::Admin,
            decreases self.users.len() - j,
        {
            if j != i && self.users[j].role.is_admin() {
                assert(self@[j as int].role == Role::Admin);
                return false;
            }
            j += 1;
        }
        true
    }

    /// Replaces the user with the identifier of `user` by `user`, in every
    /// field but the creation time, which stays as stored. Fails with
    /// `NotFound` if there is no such user, and with `Conflict` if another
    /// user has the address or the slug; a failure changes nothing. Returns
    /// what is stored afterwards.
    pub fn update(&mut self, user: User) -> (r: Result<User, AuthError>)
        requires
            old(self).wf(),
        ensures
            final(self).wf(),
            match id_index(old(self)@, user.id) {
                None => r is Err && r->Err_0 == AuthError::NotFound && final(self)@ == old(self)@,
                Some(i) => if clashes(old(self)@, i, user.email@, user.slug@) {
                    r is Err && r->Err_0 == AuthError::Conflict && final(self)@ == old(self)@
                } else {
                    &&& r is Ok
                    &&& r->Ok_0@ == merged(old(self)@[i], user@)
                    &&& final(self)@ == old(self)@.update(i, merged(old(self)@[i], user@))
                },
            },
    {
        let i = match self.position_of_id(user.id) {
            Some(i) => i,
            None => {
                return Err(AuthError::NotFound);
            },
        };
        if self.has_clash(i, &user.email, &user.slug) {
            return Err(AuthError::Conflict);
        }
        let ghost before = self@;
        let mut next = user;
        next.created_at = self.users[i].created_at;
        let out = next.clone();
        self.users.set(i, next);
        proof {
            let m = merged(before[i as int], user@);
            assert(self@ =~= before.update(i as int, m));
            lemma_update_distinct(before, i as int, m);
        }
        Ok(out)
    }

    /// Replaces the hash and the salt of the user with identifier `id`, both
    /// at once. Fails with `NotFound`, and changes nothing, if there is no
    /// such user. Returns what is stored afterwards.
    pub fn set_password(&mut self, id: u128, hash: Vec<u8>, salt: String) -> (r: Result<
        User,
        AuthError,
    >)
        requires
            old(self).wf(),
        ensures
            final(self).wf(),
            match id_index(old(self)@, id) {
                None => r is Err && r->Err_0 == AuthError::NotFound && final(self)@ == old(self)@,
                Some(i) => {
                    &&& r is Ok
                    &&& r->Ok_0@ == rekeyed(old(self)@[i], hash@, salt@)
                    &&& final(self)@ == old(self)@.update(i, rekeyed(old(self)@[i], hash@, salt@))
                },
            },
    {
        let i = match self.position_of_id(id) {
            Some(i) => i,
            None => {
                return Err(AuthError::NotFound);
            },
        };
        let ghost before = self@;
        let mut next = self.users[i].clone();
        next.hash = hash;
        next.salt = salt;
        let out = next.clone();
        self.users.set(i, next);
        proof {
            let m = rekeyed(before[i as int], hash@, salt@);
            assert(self@ =~= before.update(i as int, m));
            lemma_same_keys_no_clash(before, i as int);
            lemma_update_distinct(before, i as int, m);
        }
        Ok(out)
    }

    /// Removes the user with identifier `id`, if there is one, and returns
    /// the number of users removed.
    pub fn delete(&mut self, id: u128) -> (n: usize)
        requires
            old(self).wf(),
        ensures
            final(self).wf(),
            match id_index(old(self)@, id) {
                None => n == 0 && final(self)@ == old(self)@,
                Some(i) => n == 1 && final(self)@ == old(self)@.remove(i),
            },
    {
        match self.position_of_id(id) {
            None => 0,
            Some(i) => {
                let ghost before = self@;
                self.users.remove(i);
                proof {
                    assert(self@ =~= before.remove(i as int));
                    lemma_remove_distinct(before, i as int);
                }
                1
            },
        }
    }
}

} // verus!
