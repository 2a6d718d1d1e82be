//! Sign-in rules: Indian mobile numbers only, disabled accounts, roles and
//! their stores, and which live feed a staff socket may follow.

use vstd::prelude::*;
use vstd::string::*;
use crate::text::{is_ascii_digit, is_digit};

verus! {

/// `+91` followed by a 10-digit mobile number starting 6-9.
pub open spec fn indian_mobile(s: Seq<char>) -> bool {
    &&& s.len() == 13
    &&& s[0] == '+' && s[1] == '9' && s[2] == '1'
    &&& forall|i: int| 3 <= i < 13 ==> is_ascii_digit(#[trigger] s[i])
    &&& '6' <= s[3] <= '9'
}

/// The number after `+91` decides: of the 13-character strings `+91`
/// followed by ten ASCII digits, exactly those whose first digit is 0 to 5
/// are refused, so every mobile number starting 6, 7, 8 or 9 is accepted.
/// Anything else is refused.
pub proof fn lemma_indian_mobiles(s: Seq<char>)
    ensures
        (s.len() == 13 && s[0] == '+' && s[1] == '9' && s[2] == '1' && (forall|i: int|
            3 <= i < 13 ==> '0' <= #[trigger] s[i] <= '9')) ==> (indian_mobile(s) <==> !('0' <= s[3]
            <= '5')),
        !(s.len() == 13 && s[0] == '+' && s[1] == '9' && s[2] == '1' && (forall|i: int|
            3 <= i < 13 ==> '0' <= #[trigger] s[i] <= '9')) ==> !indian_mobile(s),
{
}

/// Changing the first digit of an accepted number to any of 6, 7, 8 or 9
/// keeps it accepted.
pub proof fn lemma_indian_mobile_first_digit(s: Seq<char>, c: char)
    requires
        indian_mobile(s),
        c == '6' || c == '7' || c == '8' || c == '9',
    ensures
        indian_mobile(s.update(3, c)),
{
    let t = s.update(3, c);
    assert forall|i: int| 3 <= i < 13 implies is_ascii_digit(#[trigger] t[i]) by {
        if i != 3 {
            assert(t[i] == s[i]);
        }
    }
}

/// India-only: `+91` followed by a 10-digit mobile number starting 6-9.
pub fn is_indian_mobile(phone: &str) -> (ok: bool)
    ensures
        ok == indian_mobile(phone@),
{
    let mut n: usize = 0;
    let mut ok = true;
    for ch in it: phone.chars()
        invariant
            it.seq() == phone@,
            n == (if it.index() < 14 { it.index() } else { 14 }),
            ok == (it.index() <= 13 && (it.index() > 0 ==> phone@[0] == '+') && (it.index() > 1 ==> phone@[1] == '9') && (
            it.index() > 2 ==> phone@[2] == '1') && (forall|i: int| 3 <= i < it.index() ==> is_ascii_digit(
                #[trigger] phone@[i],
            )) && (it.index() > 3 ==> '6' <= phone@[3] <= '9')),
    {
        let good = if n == 0 {
            ch == '+'
        } else if n == 1 {
            ch == '9'
        } else if n == 2 {
            ch == '1'
        } else if n == 3 {
            '6' <= ch && ch <= '9'
        } else {
            n < 13 && is_digit(ch)
        };
        proof {
            if ok && good && n >= 3 {
                assert forall|i: int| 3 <= i < n + 1 implies is_ascii_digit(#[trigger] phone@[i]) by {
                    if i == n {
                        assert(phone@[i] == ch);
                    }
                }
            }
            if !good && n >= 4 && n < 13 {
                assert(phone@[n as int] == ch);
            }
        }
        ok = ok && good;
        if n < 14 {
            n = n + 1;
        }
    }
    ok && n == 13
}

/// A user's role. New accounts are always customers.
#[derive(Clone, Copy, PartialEq, Eq, Structural, Debug)]
pub enum Role {
    Customer,
    Picker,
    Rider,
    Admin,
}

impl Role {
    /// The role's wire name.
    pub fn as_str(&self) -> (s: &'static str)
        ensures
            s@ == role_name(*self),
    {
        match self {
            Role::Customer => "CUSTOMER",
            Role::Picker => "PICKER",
            Role::Rider => "RIDER",
            Role::Admin => "ADMIN",
        }
    }

    /// Store staff work at exactly one store; customers and admins have none.
    pub fn works_at_store(&self) -> (b: bool)
        ensures
            b == (*self == Role::Picker || *self == Role::Rider),
    {
        match self {
            Role::Picker | Role::Rider => true,
            _ => false,
        }
    }
}

pub open spec fn role_name(r: Role) -> Seq<char> {
    match r {
        Role::Customer => "CUSTOMER"@,
        Role::Picker => "PICKER"@,
        Role::Rider => "RIDER"@,
        Role::Admin => "ADMIN"@,
    }
}

/// Why a sign-in or session is refused.
#[derive(Clone, Copy, PartialEq, Eq, Structural, Debug)]
pub enum AuthError {
    /// The token carries no phone number (400, validation).
    NoPhone,
    /// The phone number is not an Indian mobile number (400, validation).
    NotIndianMobile,
    /// The account was disabled (403 `ACCOUNT_DISABLED`).
    AccountDisabled,
    /// No account behind this identity yet (403 `USER_NOT_REGISTERED`).
    UserNotRegistered,
}

/// The message shown for a refused sign-in or session.
pub open spec fn auth_message(e: AuthError) -> Seq<char> {
    match e {
        AuthError::NoPhone => "token has no phone number; sign in with phone OTP"@,
        AuthError::NotIndianMobile => "only Indian (+91) mobile numbers are supported"@,
        AuthError::AccountDisabled => "this account has been disabled"@,
        AuthError::UserNotRegistered => "call POST /v1/auth/sync after signing in"@,
    }
}

impl AuthError {
    /// The message shown for this error.
    pub fn message(&self) -> (m: &'static str)
        ensures
            m@ == auth_message(*self),
    {
        match self {
            AuthError::NoPhone => "token has no phone number; sign in with phone OTP",
            AuthError::NotIndianMobile => "only Indian (+91) mobile numbers are supported",
            AuthError::AccountDisabled => "this account has been disabled",
            AuthError::UserNotRegistered => "call POST /v1/auth/sync after signing in",
        }
    }
}

/// The phone number a sync may proceed with: it must be present and an
/// Indian mobile number.
pub fn check_sync_phone(phone: Option<&str>) -> (r: Result<(), AuthError>)
    ensures
        match phone {
            None => r == Err::<(), AuthError>(AuthError::NoPhone),
            Some(p) => if indian_mobile(p@) {
                r is Ok
            } else {
                r == Err::<(), AuthError>(AuthError::NotIndianMobile)
            },
        },
{
    match phone {
        None => Err(AuthError::NoPhone),
        Some(p) => if is_indian_mobile(p) {
            Ok(())
        } else {
            Err(AuthError::NotIndianMobile)
        },
    }
}

/// A session or user record is only honoured while the account is active.
pub fn check_active(is_active: bool) -> (r: Result<(), AuthError>)
    ensures
        is_active <==> r is Ok,
        !is_active ==> r == Err::<(), AuthError>(AuthError::AccountDisabled),
{
    if is_active {
        Ok(())
    } else {
        Err(AuthError::AccountDisabled)
    }
}

/// Why an admin's role change is refused.
#[derive(Clone, Copy, PartialEq, Eq, Structural, Debug)]
pub enum RoleChangeError {
    /// Admins cannot change their own role (409).
    OwnRole,
    /// A picker or rider needs a store (400).
    StoreRequired { role: Role },
    /// The store does not exist or is inactive (400).
    StoreInactive,
}

/// The message shown for a refused role change.
pub open spec fn role_change_message(e: RoleChangeError) -> Seq<char> {
    match e {
        RoleChangeError::OwnRole => "admins cannot change their own role"@,
        RoleChangeError::StoreRequired { role } => "a "@ + role_name(role)
            + " must be assigned to a store"@,
        RoleChangeError::StoreInactive => "store does not exist or is inactive"@,
    }
}

impl RoleChangeError {
    /// The message shown for this error.
    pub fn message(&self) -> (m: String)
        ensures
            m@ == role_change_message(*self),
    {
        match self {
            RoleChangeError::OwnRole => String::from_str("admins cannot change their own role"),
            RoleChangeError::StoreRequired { role } => {
                let mut m = String::from_str("a ");
                m.append(role.as_str());
                m.append(" must be assigned to a store");
                m
            },
            RoleChangeError::StoreInactive => String::from_str("store does not exist or is inactive"),
        }
    }
}

/// What a role change needs before it can be written.
#[derive(Clone, Copy, PartialEq, Eq, Structural, Debug)]
pub enum RolePlan {
    /// Customers and admins: no store.
    NoStore,
    /// Pickers and riders: this store, if it is active.
    ActiveStore(u128),
}

/// First half of a role change, before the store is looked up.
pub fn plan_role_change(actor: u128, user: u128, role: Role, store: Option<u128>) -> (r: Result<
    RolePlan,
    RoleChangeError,
>)
    ensures
        actor == user ==> r == Err::<RolePlan, RoleChangeError>(RoleChangeError::OwnRole),
        actor != user && (role == Role::Picker || role == Role::Rider) ==> (match store {
            Some(id) => r == Ok::<RolePlan, RoleChangeError>(RolePlan::ActiveStore(id)),
            None => r == Err::<RolePlan, RoleChangeError>(RoleChangeError::StoreRequired { role }),
        }),
        actor != user && (role == Role::Customer || role == Role::Admin) ==> r == Ok::<
            RolePlan,
            RoleChangeError,
        >(RolePlan::NoStore),
{
    if actor == user {
        return Err(RoleChangeError::OwnRole);
    }
    if role.works_at_store() {
        match store {
            Some(id) => Ok(RolePlan::ActiveStore(id)),
            None => Err(RoleChangeError::StoreRequired { role }),
        }
    } else {
        Ok(RolePlan::NoStore)
    }
}

/// Second half: the store to record, given whether the planned store is
/// active.
pub fn finish_role_change(plan: RolePlan, store_is_active: bool) -> (r: Result<
    Option<u128>,
    RoleChangeError,
>)
    ensures
        match plan {
            RolePlan::NoStore => r == Ok::<Option<u128>, RoleChangeError>(None),
            RolePlan::ActiveStore(id) => if store_is_active {
                r == Ok::<Option<u128>, RoleChangeError>(Some(id))
            } else {
                r == Err::<Option<u128>, RoleChangeError>(RoleChangeError::StoreInactive)
            },
        },
{
    match plan {
        RolePlan::NoStore => Ok(None),
        RolePlan::ActiveStore(id) => if store_is_active {
            Ok(Some(id))
        } else {
            Err(RoleChangeError::StoreInactive)
        },
    }
}

/// WebSocket close code: authentication failed.
pub const CLOSE_UNAUTHORIZED: u16 = 4001;

/// WebSocket close code: authenticated but not allowed.
pub const CLOSE_FORBIDDEN: u16 = 4003;

/// WebSocket close code: the token expired during the session.
pub const CLOSE_TOKEN_EXPIRED: u16 = 4008;

/// The error code sent before closing a socket with `code`.
pub fn code_name(code: u16) -> (name: &'static str)
    ensures
        code == CLOSE_FORBIDDEN ==> name@ == "FORBIDDEN"@,
        code == CLOSE_TOKEN_EXPIRED ==> name@ == "TOKEN_EXPIRED"@,
        code != CLOSE_FORBIDDEN && code != CLOSE_TOKEN_EXPIRED ==> name@ == "UNAUTHORIZED"@,
{
    if code == CLOSE_FORBIDDEN {
        "FORBIDDEN"
    } else if code == CLOSE_TOKEN_EXPIRED {
        "TOKEN_EXPIRED"
    } else {
        "UNAUTHORIZED"
    }
}

/// The store whose feed a staff socket follows: the session's store, and only
/// if the session holds the audience's role.
pub fn staff_feed_store(session_role: Role, session_store: Option<u128>, audience: Role) -> (r:
    Option<u128>)
    ensures
        r == (if session_role == audience {
            session_store
        } else {
            None
        }),
{
    if session_role == audience {
        session_store
    } else {
        None
    }
}

/// Seconds a socket may stay open: until the token's expiry, never negative.
pub fn seconds_left(exp: i64, now: i64) -> (s: u64)
    ensures
        s == (if exp - now > 0 {
            exp - now
        } else {
            0
        }),
{
    if exp > now {
        let d: i128 = (exp as i128) - (now as i128);
        d as u64
    } else {
        0
    }
}

} // verus!
