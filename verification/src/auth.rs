//! Account rules: password hashing and verification (through argon2),
//! the registration validators for passwords, emails and names, token
//! claims, and the login and registration flows over the user directory.

use vstd::prelude::*;
use vstd::string::StringSliceAdditionalSpecFns;
use vstd::utf8::encode_utf8;

use argon2::password_hash::rand_core::OsRng;
use argon2::password_hash::{PasswordHash, PasswordHasher, PasswordVerifier, SaltString};
use argon2::Argon2;

use crate::directory::{
    spec_find_by_email, spec_find_by_username, spec_find_user, UserDirectory, UserRecord,
};
use crate::errors::AppError;
use crate::message::UserId;
use crate::roles::UserRole;
use crate::wire::{chars_to_string, copy_str, str_to_chars};

verus! {

/// How long an issued token lives, in hours: one staff shift.
pub const TOKEN_EXPIRY_HOURS: i64 = 8;

// ---------------------------------------------------------------------
// Trusted collaborators: hashing and case folding
// ---------------------------------------------------------------------

/// Whether argon2 verification of this hash string against this password
/// succeeds; a function of the two strings alone.
pub uninterp spec fn verifies_of(password: Seq<char>, hash: Seq<char>) -> bool;

/// What str::to_lowercase returns; a function of the characters alone.
pub uninterp spec fn lower_of(s: Seq<char>) -> Seq<char>;

/// Whether char::is_alphabetic holds of the character.
pub uninterp spec fn alphabetic_of(c: char) -> bool;

/// Whether char::is_numeric holds of the character.
pub uninterp spec fn numeric_of(c: char) -> bool;

/// Relies on char::is_alphabetic: the result depends on the character
/// alone.
#[verifier::external_body]
fn char_is_alphabetic(c: char) -> (r: bool)
    ensures
        r == alphabetic_of(c),
{
    c.is_alphabetic()
}

/// Relies on char::is_numeric: the result depends on the character alone.
#[verifier::external_body]
fn char_is_numeric(c: char) -> (r: bool)
    ensures
        r == numeric_of(c),
{
    c.is_numeric()
}

/// Relies on str::to_lowercase: the result depends on the characters
/// alone, and an empty string stays empty.
#[verifier::external_body]
fn to_lowercase(s: &str) -> (r: String)
    ensures
        r@ == lower_of(s@),
        s@.len() == 0 ==> r@.len() == 0,
{
    s.to_lowercase()
}

// ---------------------------------------------------------------------
// Whitespace trimming
// ---------------------------------------------------------------------

/// The characters the trim below strips: the Unicode White_Space set, as
/// char::is_whitespace documents it.
pub open spec fn is_space_char(c: char) -> bool {
    ||| (0x09 <= c as u32 && c as u32 <= 0x0D)
    ||| c == ' '
    ||| c as u32 == 0x85
    ||| c as u32 == 0xA0
    ||| c as u32 == 0x1680
    ||| (0x2000 <= c as u32 && c as u32 <= 0x200A)
    ||| c as u32 == 0x2028
    ||| c as u32 == 0x2029
    ||| c as u32 == 0x202F
    ||| c as u32 == 0x205F
    ||| c as u32 == 0x3000
}

/// `s` without its leading whitespace.
pub open spec fn spec_trim_start(s: Seq<char>) -> Seq<char>
    decreases s.len(),
{
    if s.len() > 0 && is_space_char(s[0]) {
        spec_trim_start(s.drop_first())
    } else {
        s
    }
}

/// `s` without its trailing whitespace.
pub open spec fn spec_trim_end(s: Seq<char>) -> Seq<char>
    decreases s.len(),
{
    if s.len() > 0 && is_space_char(s.last()) {
        spec_trim_end(s.drop_last())
    } else {
        s
    }
}

/// `s` without leading and trailing whitespace.
pub open spec fn spec_trim(s: Seq<char>) -> Seq<char> {
    spec_trim_end(spec_trim_start(s))
}

/// Whether the character counts as whitespace for trimming.
fn is_space(c: char) -> (r: bool)
    ensures
        r == is_space_char(c),
{
    let u = c as u32;
    (0x09 <= u && u <= 0x0D) || c == ' ' || u == 0x85 || u == 0xA0 || u == 0x1680 || (0x2000 <= u
        && u <= 0x200A) || u == 0x2028 || u == 0x2029 || u == 0x202F || u == 0x205F || u == 0x3000
}

/// The characters of `s` with leading and trailing whitespace removed.
pub fn trim_chars(s: &Vec<char>) -> (r: Vec<char>)
    ensures
        r@ == spec_trim(s@),
{
    let mut lo: usize = 0;
    proof {
        assert(s@.skip(0) =~= s@);
    }
    while lo < s.len() && is_space(s[lo])
        invariant
            lo <= s@.len(),
            spec_trim_start(s@) == spec_trim_start(s@.skip(lo as int)),
        decreases s@.len() - lo,
    {
        proof {
            assert(s@.skip(lo as int).drop_first() =~= s@.skip(lo + 1));
        }
        lo += 1;
    }
    let ghost t = s@.skip(lo as int);
    proof {
        assert(spec_trim_start(s@) == t);
    }
    let mut hi: usize = s.len();
    proof {
        assert(t.take(s@.len() - lo) =~= t);
    }
    while hi > lo && is_space(s[hi - 1])
        invariant
            lo <= hi <= s@.len(),
            t == s@.skip(lo as int),
            spec_trim_end(t) == spec_trim_end(t.take(hi - lo)),
        decreases hi,
    {
        proof {
            assert(t.take(hi - lo).last() == s@[hi - 1]);
            assert(t.take(hi - lo).drop_last() =~= t.take(hi - 1 - lo as int));
        }
        hi -= 1;
    }
    proof {
        if hi > lo {
            assert(t.take(hi - lo).last() == s@[hi - 1]);
        }
        assert(spec_trim_end(t.take(hi - lo)) == t.take(hi - lo));
    }
    let mut out: Vec<char> = Vec::new();
    let mut i: usize = lo;
    while i < hi
        invariant
            lo <= i <= hi <= s@.len(),
            t == s@.skip(lo as int),
            out@ == t.take(i - lo),
        decreases hi - i,
    {
        out.push(s[i]);
        proof {
            assert(out@ =~= t.take(i + 1 - lo as int));
        }
        i += 1;
    }
    proof {
        assert(out@ == spec_trim(s@));
    }
    out
}

// ---------------------------------------------------------------------
// Validators
// ---------------------------------------------------------------------

/// What a guest password must satisfy: at least eight bytes, at least one
/// alphabetic character, at least one numeric character.
pub open spec fn spec_password_ok(p: &str) -> bool {
    &&& p.spec_bytes().len() >= 8
    &&& exists|i: int| 0 <= i < p@.len() && alphabetic_of(#[trigger] p@[i])
    &&& exists|i: int| 0 <= i < p@.len() && numeric_of(#[trigger] p@[i])
}

/// What an email must satisfy after trimming: non-empty, exactly one `@`
/// with something before it, and a domain after it that contains a dot
/// and neither starts nor ends with one.
pub open spec fn spec_email_ok(s: Seq<char>) -> bool {
    let t = spec_trim(s);
    exists|i: int|
        {
            &&& 0 <= i < t.len()
            &&& #[trigger] t[i] == '@'
            &&& forall|j: int| 0 <= j < t.len() && j != i ==> t[j] != '@'
            &&& i > 0
            &&& i + 1 < t.len()
            &&& exists|k: int| i + 1 <= k < t.len() && #[trigger] t[k] == '.'
            &&& t[i + 1] != '.'
            &&& t[t.len() - 1] != '.'
        }
}

/// The stateless account service: hashing, validation, claims, and the
/// login and registration flows over a user directory.
pub struct AuthService;

impl AuthService {
    /// Relies on argon2's `Argon2::hash_password` under the default
    /// algorithm (Argon2id) and a freshly drawn random salt: a produced
    /// PHC string starts with `$argon2id$` and verifies against the
    /// password it was produced from. The salt is random, so no more is
    /// promised of the string itself.
    #[verifier::external_body]
    pub fn hash_password(password: &str) -> (r: Result<String, AppError>)
        ensures
            match r {
                Ok(h) => {
                    &&& verifies_of(password@, h@)
                    &&& h@.len() >= 10
                    &&& h@.subrange(0, 10) == "$argon2id$"@
                },
                Err(e) => e is InternalError,
            },
    {
        let salt = SaltString::generate(&mut OsRng);
        match Argon2::default().hash_password(password.as_bytes(), &salt) {
            Ok(h) => Ok(h.to_string()),
            Err(e) => Err(AppError::InternalError(format!("Password hashing failed: {}", e))),
        }
    }

    /// Relies on argon2's `Argon2::verify_password` after parsing the PHC
    /// string: the verdict depends on the password and the hash string
    /// alone; a string that does not parse as a password hash is an
    /// internal error.
    #[verifier::external_body]
    pub fn verify_password(password: &str, hash: &str) -> (r: Result<bool, AppError>)
        ensures
            match r {
                Ok(b) => b == verifies_of(password@, hash@),
                Err(e) => e is InternalError,
            },
    {
        match PasswordHash::new(hash) {
            Ok(parsed) => Ok(
                Argon2::default().verify_password(password.as_bytes(), &parsed).is_ok(),
            ),
            Err(e) => Err(AppError::InternalError(format!("Invalid password hash: {}", e))),
        }
    }

    /// Gate a guest password: at least eight bytes, at least one letter,
    /// at least one number; each failure is a validation error.
    pub fn validate_guest_password(password: &str) -> (r: Result<(), AppError>)
        ensures
            r is Ok <==> spec_password_ok(password),
            r is Err ==> r->Err_0 is ValidationError,
    {
        if password.as_bytes().len() < 8 {
            return Err(
                AppError::ValidationError(copy_str("Password must be at least 8 characters")),
            );
        }
        let cs = str_to_chars(password);
        let mut has_letter = false;
        let mut i: usize = 0;
        while i < cs.len()
            invariant
                i <= cs@.len(),
                cs@ == password@,
                has_letter <==> exists|q: int|
                    0 <= q < i && alphabetic_of(#[trigger] password@[q]),
            decreases cs@.len() - i,
        {
            if char_is_alphabetic(cs[i]) {
                has_letter = true;
            }
            i += 1;
        }
        if !has_letter {
            return Err(
                AppError::ValidationError(copy_str("Password must contain at least one letter")),
            );
        }
        let mut has_number = false;
        let mut j: usize = 0;
        while j < cs.len()
            invariant
                j <= cs@.len(),
                cs@ == password@,
                has_number <==> exists|q: int| 0 <= q < j && numeric_of(#[trigger] password@[q]),
            decreases cs@.len() - j,
        {
            if char_is_numeric(cs[j]) {
                has_number = true;
            }
            j += 1;
        }
        if !has_number {
            return Err(
                AppError::ValidationError(copy_str("Password must contain at least one number")),
            );
        }
        Ok(())
    }

    /// Gate an email address: after trimming it must be non-empty and of
    /// the shape local `@` domain, with a non-empty local part and a
    /// domain that contains a dot and neither starts nor ends with one.
    pub fn validate_email(email: &str) -> (r: Result<(), AppError>)
        ensures
            r is Ok <==> spec_email_ok(email@),
            r is Err ==> r->Err_0 is ValidationError,
    {
        let cs = str_to_chars(email);
        let t = trim_chars(&cs);
        if t.len() == 0 {
            proof {
                assert(!spec_email_ok(email@));
            }
            return Err(AppError::ValidationError(copy_str("Email is required")));
        }
        let mut count: usize = 0;
        let mut at_idx: usize = 0;
        let mut at_idx2: usize = 0;
        let mut i: usize = 0;
        while i < t.len()
            invariant
                i <= t@.len(),
                t@ == spec_trim(email@),
                count <= i,
                count == 0 ==> forall|j: int| 0 <= j < i ==> t@[j] != '@',
                count >= 1 ==> at_idx < i && t@[at_idx as int] == '@',
                count == 1 ==> forall|j: int|
                    0 <= j < i && j != at_idx ==> t@[j] != '@',
                count >= 2 ==> at_idx2 < i && t@[at_idx2 as int] == '@' && at_idx2 != at_idx,
            decreases t@.len() - i,
        {
            if t[i] == '@' {
                if count == 0 {
                    at_idx = i;
                } else if count == 1 {
                    at_idx2 = i;
                }
                count += 1;
            }
            i += 1;
        }
        if count != 1 {
            proof {
                if spec_email_ok(email@) {
                    let w = choose|w: int|
                        {
                            &&& 0 <= w < t@.len()
                            &&& #[trigger] t@[w] == '@'
                            &&& forall|j: int| 0 <= j < t@.len() && j != w ==> t@[j] != '@'
                            &&& w > 0
                            &&& w + 1 < t@.len()
                            &&& exists|k: int| w + 1 <= k < t@.len() && #[trigger] t@[k] == '.'
                            &&& t@[w + 1] != '.'
                            &&& t@[t@.len() - 1] != '.'
                        };
                    if count == 0 {
                        assert(t@[w] != '@');
                    } else {
                        assert(at_idx == w || t@[at_idx as int] != '@');
                        assert(at_idx2 == w || t@[at_idx2 as int] != '@');
                    }
                }
            }
            return Err(AppError::ValidationError(copy_str("Invalid email format")));
        }
        let a = at_idx;
        if a == 0 || a + 1 == t.len() {
            proof {
                lemma_email_witness_is(t@, a as int);
            }
            return Err(AppError::ValidationError(copy_str("Invalid email format")));
        }
        let mut has_dot = false;
        let mut k: usize = a + 1;
        while k < t.len()
            invariant
                a + 1 <= k <= t@.len(),
                t@ == spec_trim(email@),
                has_dot <==> exists|q: int| a + 1 <= q < k && #[trigger] t@[q] == '.',
            decreases t@.len() - k,
        {
            if t[k] == '.' {
                has_dot = true;
            }
            k += 1;
        }
        if !has_dot || t[a + 1] == '.' || t[t.len() - 1] == '.' {
            proof {
                lemma_email_witness_is(t@, a as int);
            }
            return Err(AppError::ValidationError(copy_str("Invalid email format")));
        }
        proof {
            assert(spec_email_ok(email@));
        }
        Ok(())
    }
}

/// If exactly one position of `t` holds an `@`, any witness of the email
/// shape must be that position.
proof fn lemma_email_witness_is(t: Seq<char>, a: int)
    requires
        0 <= a < t.len(),
        t[a] == '@',
        forall|j: int| 0 <= j < t.len() && j != a ==> t[j] != '@',
    ensures
        forall|w: int|
            {
                &&& 0 <= w < t.len()
                &&& #[trigger] t[w] == '@'
                &&& forall|j: int| 0 <= j < t.len() && j != w ==> t[j] != '@'
            } ==> w == a,
{
}

// ---------------------------------------------------------------------
// Token claims and response shapes
// ---------------------------------------------------------------------

/// The claims an issued token carries: the subject's identity and role,
/// the expiry instant and the issue instant (seconds).
pub struct Claims {
    pub sub: UserId,
    pub role: UserRole,
    pub exp: i64,
    pub iat: i64,
}

/// Staff user info for responses: no sensitive data.
pub struct UserInfo {
    pub id: UserId,
    pub username: Option<String>,
    pub role: UserRole,
}

/// The mathematical model of staff user info.
pub struct UserInfoView {
    pub id: int,
    pub username: Option<Seq<char>>,
    pub role: UserRole,
}

impl View for UserInfo {
    type V = UserInfoView;

    open spec fn view(&self) -> UserInfoView {
        UserInfoView {
            id: self.id as int,
            username: match self.username {
                Some(s) => Some(s@),
                None => None,
            },
            role: self.role,
        }
    }
}

impl From<UserRecord> for UserInfo {
    /// Project the response shape out of a record.
    fn from(user: UserRecord) -> (r: Self) {
        UserInfo { id: user.id, username: user.username, role: user.role }
    }
}

impl vstd::std_specs::convert::FromSpecImpl<UserRecord> for UserInfo {
    open spec fn obeys_from_spec() -> bool {
        true
    }

    open spec fn from_spec(user: UserRecord) -> Self {
        UserInfo { id: user.id, username: user.username, role: user.role }
    }
}

/// Guest user info for responses: a guest always carries an email and a
/// full name.
pub struct GuestInfo {
    pub id: UserId,
    pub email: String,
    pub full_name: String,
    pub role: UserRole,
}

/// The mathematical model of guest user info.
pub struct GuestInfoView {
    pub id: int,
    pub email: Seq<char>,
    pub full_name: Seq<char>,
    pub role: UserRole,
}

impl View for GuestInfo {
    type V = GuestInfoView;

    open spec fn view(&self) -> GuestInfoView {
        GuestInfoView {
            id: self.id as int,
            email: self.email@,
            full_name: self.full_name@,
            role: self.role,
        }
    }
}

impl GuestInfo {
    /// Project guest info out of a record: the record must hold the guest
    /// role, an email and a full name; anything else is an internal
    /// error.
    pub fn try_from_user(user: UserRecord) -> (r: Result<GuestInfo, AppError>)
        ensures
            match r {
                Ok(g) => {
                    &&& user@.role == UserRole::Guest
                    &&& user@.email is Some
                    &&& user@.full_name is Some
                    &&& g@ == (GuestInfoView {
                        id: user@.id,
                        email: user@.email->0,
                        full_name: user@.full_name->0,
                        role: UserRole::Guest,
                    })
                },
                Err(e) => {
                    &&& e is InternalError
                    &&& (user@.role != UserRole::Guest || user@.email is None
                        || user@.full_name is None)
                },
            },
    {
        if !matches!(user.role, UserRole::Guest) {
            return Err(AppError::InternalError(copy_str("User is not a guest")));
        }
        let UserRecord { id, role, email, full_name, .. } = user;
        let email = match email {
            Some(e) => e,
            None => {
                return Err(AppError::InternalError(copy_str("Guest must have email")));
            }
        };
        let full_name = match full_name {
            Some(f) => f,
            None => {
                return Err(AppError::InternalError(copy_str("Guest must have full_name")));
            }
        };
        Ok(GuestInfo { id, email, full_name, role })
    }
}

impl AuthService {
    /// The claims for a token issued now: expiry one shift ahead.
    pub fn make_claims(user_id: UserId, role: UserRole, now: i64) -> (c: Claims)
        requires
            now <= i64::MAX - TOKEN_EXPIRY_HOURS * 3600,
        ensures
            c.sub == user_id,
            c.role == role,
            c.iat == now,
            c.exp == now + TOKEN_EXPIRY_HOURS * 3600,
    {
        Claims { sub: user_id, role, exp: now + TOKEN_EXPIRY_HOURS * 3600, iat: now }
    }

    /// Whether the claims are already expired at the given instant.
    pub fn claims_expired(c: &Claims, now: i64) -> (r: bool)
        ensures
            r == (c.exp <= now),
    {
        c.exp <= now
    }

    /// Create a staff user: the password must be at least eight bytes and
    /// the username three to fifty; a taken username is a validation
    /// error; the record is stored with a hash that verifies against the
    /// password, and an id clash is a storage failure.
    pub fn create_user(
        dir: &mut UserDirectory,
        id: UserId,
        username: &str,
        password: &str,
        role: UserRole,
    ) -> (r: Result<UserInfo, AppError>)
        requires
            old(dir).wf(),
        ensures
            final(dir).wf(),
            r is Err ==> final(dir)@ == old(dir)@,
            password.spec_bytes().len() < 8 ==> r is Err && r->Err_0 is ValidationError,
            password.spec_bytes().len() >= 8 && (username.spec_bytes().len() < 3
                || username.spec_bytes().len() > 50) ==> r is Err
                && r->Err_0 is ValidationError,
            password.spec_bytes().len() >= 8 && 3 <= username.spec_bytes().len() <= 50
                && spec_find_by_username(old(dir)@, username@) is Some ==> r is Err
                && r->Err_0 is ValidationError,
            password.spec_bytes().len() >= 8 && 3 <= username.spec_bytes().len() <= 50
                && spec_find_by_username(old(dir)@, username@) is None ==> match r {
                Ok(info) => {
                    &&& spec_find_user(old(dir)@, id as int) is None
                    &&& final(dir)@.len() == old(dir)@.len() + 1
                    &&& final(dir)@ == old(dir)@.push(final(dir)@.last())
                    &&& final(dir)@.last().id == id as int
                    &&& final(dir)@.last().username == Some(username@)
                    &&& final(dir)@.last().role == role
                    &&& final(dir)@.last().email is None
                    &&& final(dir)@.last().full_name is None
                    &&& !final(dir)@.last().deactivated
                    &&& verifies_of(password@, final(dir)@.last().password_hash)
                    &&& info@ == (UserInfoView { id: id as int, username: Some(username@), role })
                },
                Err(e) => e is InternalError || (e is StorageError && spec_find_user(
                    old(dir)@,
                    id as int,
                ) is Some),
            },
    {
        if password.as_bytes().len() < 8 {
            return Err(
                AppError::ValidationError(copy_str("Password must be at least 8 characters")),
            );
        }
        let ulen = username.as_bytes().len();
        if ulen < 3 || ulen > 50 {
            return Err(
                AppError::ValidationError(
                    copy_str("Username must be between 3 and 50 characters"),
                ),
            );
        }
        match dir.find_by_username(username) {
            Some(_) => {
                return Err(AppError::ValidationError(copy_str("Username already exists")));
            }
            None => {}
        }
        let hash = match Self::hash_password(password) {
            Ok(h) => h,
            Err(e) => {
                return Err(e);
            }
        };
        let rec = UserRecord {
            id,
            role,
            username: Some(copy_str(username)),
            full_name: None,
            email: None,
            password_hash: hash,
            deactivated: false,
        };
        if !dir.add_user(rec) {
            return Err(AppError::StorageError(copy_str("A user with this id already exists")));
        }
        Ok(UserInfo { id, username: Some(copy_str(username)), role })
    }

    /// Register a guest: the email and password gates above, a trimmed
    /// non-empty full name of at most a hundred bytes, and a lowercased
    /// email nobody holds yet; the record is stored under the guest role
    /// with a hash that verifies against the password.
    pub fn register_guest(
        dir: &mut UserDirectory,
        id: UserId,
        email: &str,
        password: &str,
        full_name: &str,
    ) -> (r: Result<GuestInfo, AppError>)
        requires
            old(dir).wf(),
        ensures
            final(dir).wf(),
            r is Err ==> final(dir)@ == old(dir)@,
            !spec_email_ok(email@) ==> r is Err && r->Err_0 is ValidationError,
            spec_email_ok(email@) && !spec_password_ok(password) ==> r is Err
                && r->Err_0 is ValidationError,
            spec_email_ok(email@) && spec_password_ok(password) && (spec_trim(full_name@).len()
                == 0 || encode_utf8(spec_trim(full_name@)).len() > 100) ==> r is Err
                && r->Err_0 is ValidationError,
            spec_email_ok(email@) && spec_password_ok(password) && spec_trim(full_name@).len() > 0
                && encode_utf8(spec_trim(full_name@)).len() <= 100 ==> {
                let lowered = lower_of(spec_trim(email@));
                if spec_find_by_email(old(dir)@, lowered) is Some {
                    r is Err && r->Err_0 is Conflict
                } else {
                    match r {
                        Ok(g) => {
                            &&& spec_find_user(old(dir)@, id as int) is None
                            &&& final(dir)@ == old(dir)@.push(final(dir)@.last())
                            &&& final(dir)@.len() == old(dir)@.len() + 1
                            &&& final(dir)@.last().id == id as int
                            &&& final(dir)@.last().role == UserRole::Guest
                            &&& final(dir)@.last().username is None
                            &&& final(dir)@.last().email == Some(lowered)
                            &&& final(dir)@.last().full_name == Some(spec_trim(full_name@))
                            &&& !final(dir)@.last().deactivated
                            &&& verifies_of(password@, final(dir)@.last().password_hash)
                            &&& g@ == (GuestInfoView {
                                id: id as int,
                                email: lowered,
                                full_name: spec_trim(full_name@),
                                role: UserRole::Guest,
                            })
                        },
                        Err(e) => e is InternalError || (e is StorageError && spec_find_user(
                            old(dir)@,
                            id as int,
                        ) is Some),
                    }
                }
            },
    {
        match Self::validate_email(email) {
            Ok(()) => {}
            Err(e) => {
                return Err(e);
            }
        }
        match Self::validate_guest_password(password) {
            Ok(()) => {}
            Err(e) => {
                return Err(e);
            }
        }
        let name_cs = str_to_chars(full_name);
        let name_trimmed = trim_chars(&name_cs);
        if name_trimmed.len() == 0 {
            return Err(AppError::ValidationError(copy_str("Full name is required")));
        }
        let name_string = chars_to_string(&name_trimmed);
        if name_string.as_str().as_bytes().len() > 100 {
            return Err(
                AppError::ValidationError(copy_str("Full name must be 100 characters or less")),
            );
        }
        let email_cs = str_to_chars(email);
        let email_trimmed = trim_chars(&email_cs);
        let email_trim_string = chars_to_string(&email_trimmed);
        let email_lower = to_lowercase(email_trim_string.as_str());
        match dir.find_by_email(email_lower.as_str()) {
            Some(_) => {
                return Err(
                    AppError::Conflict(copy_str("An account with this email already exists")),
                );
            }
            None => {}
        }
        let hash = match Self::hash_password(password) {
            Ok(h) => h,
            Err(e) => {
                return Err(e);
            }
        };
        let rec = UserRecord {
            id,
            role: UserRole::Guest,
            username: None,
            full_name: Some(name_string.clone()),
            email: Some(email_lower.clone()),
            password_hash: hash,
            deactivated: false,
        };
        if !dir.add_user(rec) {
            return Err(AppError::StorageError(copy_str("A user with this id already exists")));
        }
        Ok(GuestInfo { id, email: email_lower, full_name: name_string, role: UserRole::Guest })
    }

    /// Staff login by username: an unknown username and a password the
    /// stored hash rejects both come back as the same generic
    /// unauthorized error.
    pub fn login(dir: &UserDirectory, username: &str, password: &str) -> (r: Result<
        UserInfo,
        AppError,
    >)
        ensures
            match spec_find_by_username(dir@, username@) {
                None => r is Err && r->Err_0 is Unauthorized,
                Some(u) => match r {
                    Ok(info) => {
                        &&& verifies_of(password@, u.password_hash)
                        &&& info@ == (UserInfoView {
                            id: u.id,
                            username: u.username,
                            role: u.role,
                        })
                    },
                    Err(e) => (e is Unauthorized && !verifies_of(password@, u.password_hash))
                        || e is InternalError,
                },
            },
    {
        let user = match dir.find_by_username(username) {
            Some(u) => u,
            None => {
                return Err(AppError::Unauthorized(copy_str("Invalid credentials")));
            }
        };
        let ok = match Self::verify_password(password, user.password_hash.as_str()) {
            Ok(b) => b,
            Err(e) => {
                return Err(e);
            }
        };
        if !ok {
            return Err(AppError::Unauthorized(copy_str("Invalid credentials")));
        }
        Ok(UserInfo::from(user))
    }

    /// Guest login by email: lookup under the trimmed, lowercased
    /// address; a wrong address, a wrong password and a non-guest account
    /// all come back as the same generic unauthorized error.
    pub fn login_guest(dir: &UserDirectory, email: &str, password: &str) -> (r: Result<
        GuestInfo,
        AppError,
    >)
        ensures
            match spec_find_by_email(dir@, lower_of(spec_trim(email@))) {
                None => r is Err && r->Err_0 is Unauthorized,
                Some(u) => match r {
                    Ok(g) => {
                        &&& verifies_of(password@, u.password_hash)
                        &&& u.role == UserRole::Guest
                        &&& u.email is Some
                        &&& u.full_name is Some
                        &&& g@ == (GuestInfoView {
                            id: u.id,
                            email: u.email->0,
                            full_name: u.full_name->0,
                            role: UserRole::Guest,
                        })
                    },
                    Err(e) => (e is Unauthorized && (!verifies_of(password@, u.password_hash)
                        || u.role != UserRole::Guest)) || e is InternalError,
                },
            },
    {
        let email_cs = str_to_chars(email);
        let email_trimmed = trim_chars(&email_cs);
        let email_trim_string = chars_to_string(&email_trimmed);
        let email_lower = to_lowercase(email_trim_string.as_str());
        let user = match dir.find_by_email(email_lower.as_str()) {
            Some(u) => u,
            None => {
                return Err(AppError::Unauthorized(copy_str("Invalid email or password")));
            }
        };
        let ok = match Self::verify_password(password, user.password_hash.as_str()) {
            Ok(b) => b,
            Err(e) => {
                return Err(e);
            }
        };
        if !ok {
            return Err(AppError::Unauthorized(copy_str("Invalid email or password")));
        }
        if !matches!(user.role, UserRole::Guest) {
            return Err(AppError::Unauthorized(copy_str("Invalid email or password")));
        }
        GuestInfo::try_from_user(user)
    }

    /// The record for an id, or a not-found failure.
    pub fn get_user_by_id(dir: &UserDirectory, user_id: UserId) -> (r: Result<
        UserRecord,
        AppError,
    >)
        ensures
            match spec_find_user(dir@, user_id as int) {
                None => r is Err && r->Err_0 is NotFound,
                Some(u) => r is Ok && r->Ok_0@ == u,
            },
    {
        match dir.find(user_id) {
            Some(u) => Ok(u),
            None => Err(AppError::NotFound(copy_str("User not found"))),
        }
    }

    /// The guest info for an id: unknown ids are not found, and staff
    /// accounts are forbidden here.
    pub fn get_guest_by_id(dir: &UserDirectory, user_id: UserId) -> (r: Result<
        GuestInfo,
        AppError,
    >)
        ensures
            match spec_find_user(dir@, user_id as int) {
                None => r is Err && r->Err_0 is NotFound,
                Some(u) => if u.role != UserRole::Guest {
                    r is Err && r->Err_0 is Forbidden
                } else {
                    match r {
                        Ok(g) => {
                            &&& u.email is Some
                            &&& u.full_name is Some
                            &&& g@ == (GuestInfoView {
                                id: u.id,
                                email: u.email->0,
                                full_name: u.full_name->0,
                                role: UserRole::Guest,
                            })
                        },
                        Err(e) => e is InternalError,
                    }
                },
            },
    {
        let user = match dir.find(user_id) {
            Some(u) => u,
            None => {
                return Err(AppError::NotFound(copy_str("User not found")));
            }
        };
        if !matches!(user.role, UserRole::Guest) {
            return Err(AppError::Forbidden(copy_str("Guest access only")));
        }
        GuestInfo::try_from_user(user)
    }
}

} // verus!
