//! The user directory: the chat core's read-side of the user table. It
//! answers role lookups for the inbound gate and supplies the candidate
//! counterparts for the contact list.

use vstd::prelude::*;

use crate::message::UserId;
use crate::roles::UserRole;

verus! {

/// A user as the chat core sees one: identity, role, the optional names a
/// display name falls back through, the stored password hash, and whether
/// the account has been deactivated.
pub struct UserRecord {
    pub id: UserId,
    pub role: UserRole,
    pub username: Option<String>,
    pub full_name: Option<String>,
    pub email: Option<String>,
    pub password_hash: String,
    pub deactivated: bool,
}

/// The mathematical model of a user record.
pub struct UserRecordView {
    pub id: int,
    pub role: UserRole,
    pub username: Option<Seq<char>>,
    pub full_name: Option<Seq<char>>,
    pub email: Option<Seq<char>>,
    pub password_hash: Seq<char>,
    pub deactivated: bool,
}

impl View for UserRecord {
    type V = UserRecordView;

    open spec fn view(&self) -> UserRecordView {
        UserRecordView {
            id: self.id as int,
            role: self.role,
            username: match self.username {
                Some(s) => Some(s@),
                None => None,
            },
            full_name: match self.full_name {
                Some(s) => Some(s@),
                None => None,
            },
            email: match self.email {
                Some(s) => Some(s@),
                None => None,
            },
            password_hash: self.password_hash@,
            deactivated: self.deactivated,
        }
    }
}

impl Clone for UserRecord {
    /// A clone carries the same model.
    fn clone(&self) -> (r: Self)
        ensures
            r@ == self@,
    {
        UserRecord {
            id: self.id,
            role: self.role,
            username: match &self.username {
                Some(s) => Some(s.clone()),
                None => None,
            },
            full_name: match &self.full_name {
                Some(s) => Some(s.clone()),
                None => None,
            },
            email: match &self.email {
                Some(s) => Some(s.clone()),
                None => None,
            },
            password_hash: self.password_hash.clone(),
            deactivated: self.deactivated,
        }
    }
}

/// The record with the given id, if the directory holds one (the first in
/// directory order; with well-formedness it is the only one).
pub open spec fn spec_find_user(s: Seq<UserRecordView>, id: int) -> Option<UserRecordView>
    decreases s.len(),
{
    if s.len() == 0 {
        None
    } else if s[0].id == id {
        Some(s[0])
    } else {
        spec_find_user(s.drop_first(), id)
    }
}

/// The role of the user with the given id, if known.
pub open spec fn spec_role_of(s: Seq<UserRecordView>, id: int) -> Option<UserRole> {
    match spec_find_user(s, id) {
        Some(u) => Some(u.role),
        None => None,
    }
}


/// The record whose username is the given name, if the directory holds
/// one (the first in directory order).
pub open spec fn spec_find_by_username(s: Seq<UserRecordView>, name: Seq<char>) -> Option<
    UserRecordView,
>
    decreases s.len(),
{
    if s.len() == 0 {
        None
    } else if s[0].username == Some(name) {
        Some(s[0])
    } else {
        spec_find_by_username(s.drop_first(), name)
    }
}

/// The record whose email is the given address, if the directory holds
/// one (the first in directory order).
pub open spec fn spec_find_by_email(s: Seq<UserRecordView>, email: Seq<char>) -> Option<
    UserRecordView,
>
    decreases s.len(),
{
    if s.len() == 0 {
        None
    } else if s[0].email == Some(email) {
        Some(s[0])
    } else {
        spec_find_by_email(s.drop_first(), email)
    }
}

/// The directory of user records, in insertion order.
pub struct UserDirectory {
    users: Vec<UserRecord>,
}

impl View for UserDirectory {
    type V = Seq<UserRecordView>;

    closed spec fn view(&self) -> Seq<UserRecordView> {
        self.users@.map_values(|u: UserRecord| u@)
    }
}

impl UserDirectory {
    /// Well-formedness: one record per identity.
    pub open spec fn wf(&self) -> bool {
        forall|i: int, j: int|
            0 <= i < self@.len() && 0 <= j < self@.len() && i != j ==> (#[trigger] self@[i]).id
                != (#[trigger] self@[j]).id
    }

    /// An empty directory.
    pub fn new() -> (d: Self)
        ensures
            d.wf(),
            d@ == Seq::<UserRecordView>::empty(),
    {
        let d = UserDirectory { users: Vec::new() };
        proof {
            assert(d@ =~= Seq::<UserRecordView>::empty());
        }
        d
    }

    /// How many records the directory holds.
    pub fn count(&self) -> (n: usize)
        ensures
            n == self@.len(),
    {
        self.users.len()
    }

    /// The record at a position, in insertion order.
    pub fn user_at(&self, i: usize) -> (r: &UserRecord)
        requires
            i < self@.len(),
        ensures
            r@ == self@[i as int],
    {
        &self.users[i]
    }

    /// Add a record under a fresh identity; an id already present leaves
    /// the directory unchanged and reports failure.
    pub fn add_user(&mut self, rec: UserRecord) -> (added: bool)
        requires
            old(self).wf(),
        ensures
            final(self).wf(),
            if spec_find_user(old(self)@, rec@.id) is None {
                added && final(self)@ == old(self)@.push(rec@)
            } else {
                !added && final(self)@ == old(self)@
            },
    {
        match self.find(rec.id) {
            Some(_) => false,
            None => {
                let ghost id = rec@.id;
                self.users.push(rec);
                proof {
                    broadcast use vstd::prelude::Seq::lemma_push_map_commute;

                    assert(final(self)@ =~= old(self)@.push(final(self)@.last()));
                    assert forall|i: int, j: int|
                        0 <= i < self@.len() && 0 <= j < self@.len() && i != j implies (
                    #[trigger] self@[i]).id != (#[trigger] self@[j]).id by {
                        if j == self@.len() - 1 {
                            lemma_find_present(old(self)@, i);
                        } else if i == self@.len() - 1 {
                            lemma_find_present(old(self)@, j);
                        }
                    }
                }
                true
            }
        }
    }

    /// A copy of the record for `id`, if one exists.
    pub fn find(&self, id: UserId) -> (r: Option<UserRecord>)
        ensures
            match r {
                Some(u) => spec_find_user(self@, id as int) == Some(u@),
                None => spec_find_user(self@, id as int) is None,
            },
    {
        let mut i: usize = 0;
        proof {
            assert(self@.skip(0) =~= self@);
        }
        while i < self.users.len()
            invariant
                i <= self@.len(),
                spec_find_user(self@, id as int) == spec_find_user(
                    self@.skip(i as int),
                    id as int,
                ),
            decreases self@.len() - i,
        {
            proof {
                assert(self@.skip(i as int)[0] == self@[i as int]);
                assert(self@.skip(i as int).drop_first() =~= self@.skip(i + 1));
            }
            if self.users[i].id == id {
                return Some(self.users[i].clone());
            }
            i += 1;
        }
        proof {
            assert(self@.skip(self@.len() as int) =~= Seq::<UserRecordView>::empty());
        }
        None
    }


    /// A copy of the record holding this username, if one exists.
    pub fn find_by_username(&self, name: &str) -> (r: Option<UserRecord>)
        ensures
            match r {
                Some(u) => spec_find_by_username(self@, name@) == Some(u@),
                None => spec_find_by_username(self@, name@) is None,
            },
    {
        let mut i: usize = 0;
        proof {
            assert(self@.skip(0) =~= self@);
        }
        while i < self.users.len()
            invariant
                i <= self@.len(),
                spec_find_by_username(self@, name@) == spec_find_by_username(
                    self@.skip(i as int),
                    name@,
                ),
            decreases self@.len() - i,
        {
            proof {
                assert(self@.skip(i as int)[0] == self@[i as int]);
                assert(self@.skip(i as int).drop_first() =~= self@.skip(i + 1));
            }
            let matches_name = match &self.users[i].username {
                Some(n) => crate::wire::str_eq(n.as_str(), name),
                None => false,
            };
            if matches_name {
                return Some(self.users[i].clone());
            }
            i += 1;
        }
        proof {
            assert(self@.skip(self@.len() as int) =~= Seq::<UserRecordView>::empty());
        }
        None
    }

    /// A copy of the record holding this email, if one exists.
    pub fn find_by_email(&self, email: &str) -> (r: Option<UserRecord>)
        ensures
            match r {
                Some(u) => spec_find_by_email(self@, email@) == Some(u@),
                None => spec_find_by_email(self@, email@) is None,
            },
    {
        let mut i: usize = 0;
        proof {
            assert(self@.skip(0) =~= self@);
        }
        while i < self.users.len()
            invariant
                i <= self@.len(),
                spec_find_by_email(self@, email@) == spec_find_by_email(
                    self@.skip(i as int),
                    email@,
                ),
            decreases self@.len() - i,
        {
            proof {
                assert(self@.skip(i as int)[0] == self@[i as int]);
                assert(self@.skip(i as int).drop_first() =~= self@.skip(i + 1));
            }
            let matches_email = match &self.users[i].email {
                Some(n) => crate::wire::str_eq(n.as_str(), email),
                None => false,
            };
            if matches_email {
                return Some(self.users[i].clone());
            }
            i += 1;
        }
        proof {
            assert(self@.skip(self@.len() as int) =~= Seq::<UserRecordView>::empty());
        }
        None
    }

    /// The role of the user with this id, if the directory knows them.
    pub fn role_of(&self, id: UserId) -> (r: Option<UserRole>)
        ensures
            r == spec_role_of(self@, id as int),
    {
        match self.find(id) {
            Some(u) => Some(u.role),
            None => None,
        }
    }
}

/// If a record with some id sits at position `i`, lookup finds one.
proof fn lemma_find_present(s: Seq<UserRecordView>, i: int)
    requires
        0 <= i < s.len(),
    ensures
        spec_find_user(s, s[i].id) is Some,
    decreases s.len(),
{
    if i > 0 && s[0].id != s[i].id {
        lemma_find_present(s.drop_first(), i - 1);
        assert(s.drop_first()[i - 1] == s[i]);
    }
}

} // verus!
