//! Guild configuration values and the decision of who may change them.
use vstd::prelude::*;
use vstd::string::StringExecFns;
use crate::text::chars_of;

verus! {

/// A failed storage call; `detail` is for the server log only.
pub struct StoreError {
    pub detail: String,
}

/// Why a privileged command is refused.
#[derive(Debug, Clone, Copy, PartialEq, Eq, Structural)]
pub enum Denial {
    /// An admin role is configured and the user does not hold it.
    MissingRole,
    /// No admin role is configured and the user lacks the Manage Guild permission.
    MissingManageGuild,
    /// The configuration could not be read.
    DatabaseError,
}

impl Denial {
    /// The text shown to the user.
    pub fn user_message(&self) -> (r: &'static str)
        ensures
            r@ == match self {
                Denial::MissingRole => "You do not have the required role"@,
                Denial::MissingManageGuild => "You do not have the Manage Guild permission"@,
                Denial::DatabaseError => "Database error"@,
            },
    {
        match self {
            Denial::MissingRole => "You do not have the required role",
            Denial::MissingManageGuild => "You do not have the Manage Guild permission",
            Denial::DatabaseError => "Database error",
        }
    }
}

/// `c` is a decimal digit.
pub open spec fn is_digit(c: char) -> bool {
    '0' <= c <= '9'
}

/// The number written by the decimal digits `s`.
pub open spec fn decimal_value(s: Seq<char>) -> nat
    decreases s.len(),
{
    if s.len() == 0 {
        0
    } else {
        decimal_value(s.drop_last()) * 10 + (s.last() as u32 - '0' as u32) as nat
    }
}

/// The id written in decimal by `s`, if `s` is a non-empty run of digits that fits in 64 bits.
pub open spec fn id_of(s: Seq<char>) -> Option<u64> {
    if s.len() > 0 && (forall|i: int| 0 <= i < s.len() ==> #[trigger] is_digit(s[i]))
        && decimal_value(s) <= u64::MAX {
        Some(decimal_value(s) as u64)
    } else {
        None
    }
}

/// A longer run of digits is worth at least as much as its prefix.
proof fn lemma_decimal_prefix(s: Seq<char>, i: int)
    requires
        0 <= i <= s.len(),
        forall|j: int| 0 <= j < s.len() ==> #[trigger] is_digit(s[j]),
    ensures
        decimal_value(s.take(i)) <= decimal_value(s),
    decreases s.len(),
{
    if i < s.len() {
        assert(s.drop_last().take(i) == s.take(i));
        lemma_decimal_prefix(s.drop_last(), i);
        assert(s.take(s.len() as int) == s);
    } else {
        assert(s.take(i) == s);
    }
}

/// Reads an id written in decimal.
pub fn parse_id(s: &str) -> (r: Option<u64>)
    ensures
        r == id_of(s@),
{
    let cs = chars_of(s);
    if cs.len() == 0 {
        return None;
    }
    let mut v: u64 = 0;
    let mut i: usize = 0;
    while i < cs.len()
        invariant
            i <= cs.len(),
            cs@ == s@,
            v == decimal_value(cs@.take(i as int)),
            forall|j: int| 0 <= j < i ==> #[trigger] is_digit(cs@[j]),
        decreases cs.len() - i,
    {
        let c = cs[i];
        if !('0' <= c && c <= '9') {
            assert(!is_digit(s@[i as int]));
            return None;
        }
        let d = (c as u32 - '0' as u32) as u64;
        assert(cs@.take(i + 1).drop_last() == cs@.take(i as int));
        if v > 1844674407370955161 || (v == 1844674407370955161 && d > 5) {
            assert(cs@.take(i + 1).last() == c);
            assert(decimal_value(cs@.take(i + 1)) > u64::MAX);
            if forall_digits(&cs, i + 1) {
                proof {
                    assert forall|j: int| 0 <= j < cs@.len() implies #[trigger] is_digit(cs@[j]) by {
                        if j == i {
                            assert(is_digit(c));
                        }
                    }
                    lemma_decimal_prefix(cs@, i + 1);
                }
            }
            return None;
        }
        v = v * 10 + d;
        i = i + 1;
    }
    assert(cs@.take(cs.len() as int) == cs@);
    Some(v)
}

/// Whether every character of `cs` from `from` on is a digit.
fn forall_digits(cs: &Vec<char>, from: usize) -> (r: bool)
    ensures
        r == (forall|j: int| from <= j < cs@.len() ==> #[trigger] is_digit(cs@[j])),
{
    let mut i: usize = from;
    while i < cs.len()
        invariant
            from <= i,
            forall|j: int| from <= j < i ==> #[trigger] is_digit(cs@[j]),
        decreases cs.len() - i,
    {
        if !('0' <= cs[i] && cs[i] <= '9') {
            assert(!is_digit(cs@[i as int]));
            return false;
        }
        i = i + 1;
    }
    true
}

/// Whether `id` is among `roles`.
fn holds_role(roles: &Vec<u64>, id: u64) -> (r: bool)
    ensures
        r == roles@.contains(id),
{
    let mut i: usize = 0;
    while i < roles.len()
        invariant
            i <= roles.len(),
            forall|j: int| 0 <= j < i ==> roles@[j] != id,
        decreases roles.len() - i,
    {
        if roles[i] == id {
            assert(roles@[i as int] == id);
            return true;
        }
        i = i + 1;
    }
    false
}

/// The decision on a privileged command, from the user's capabilities and the
/// guild's configured admin role.
pub open spec fn admin_decision(
    administrator: bool,
    manage_guild: bool,
    admin_role: Result<Option<Seq<char>>, ()>,
    member_roles: Seq<u64>,
) -> Result<(), Denial> {
    if administrator {
        Ok(())
    } else {
        match admin_role {
            Err(_) => Err(Denial::DatabaseError),
            Ok(Some(role)) => match id_of(role) {
                Some(id) => if member_roles.contains(id) {
                    Ok(())
                } else {
                    Err(Denial::MissingRole)
                },
                None => Err(Denial::DatabaseError),
            },
            Ok(None) => if manage_guild {
                Ok(())
            } else {
                Err(Denial::MissingManageGuild)
            },
        }
    }
}

/// A platform administrator is always allowed; without that capability, a
/// user lacking the configured admin role is denied; with no admin role
/// configured, the Manage Guild permission alone decides.
pub proof fn lemma_authorization(
    administrator: bool,
    manage_guild: bool,
    admin_role: Result<Option<Seq<char>>, ()>,
    member_roles: Seq<u64>,
)
    ensures
        administrator ==> admin_decision(administrator, manage_guild, admin_role, member_roles)
            is Ok,
        !administrator && admin_role is Ok && admin_role->Ok_0 is Some && id_of(
            admin_role->Ok_0->0,
        ) is Some && !member_roles.contains(id_of(admin_role->Ok_0->0)->0) ==> admin_decision(
            administrator,
            manage_guild,
            admin_role,
            member_roles,
        ) == Err::<(), Denial>(Denial::MissingRole),
        !administrator && admin_role == Ok::<Option<Seq<char>>, ()>(None) ==> (admin_decision(
            administrator,
            manage_guild,
            admin_role,
            member_roles,
        ) is Ok <==> manage_guild),
{
}

/// The admin role as read from storage, with the error forgotten.
pub open spec fn role_lookup_view(admin_role: Result<Option<String>, StoreError>) -> Result<
    Option<Seq<char>>,
    (),
> {
    match admin_role {
        Ok(Some(r)) => Ok(Some(r@)),
        Ok(None) => Ok(None),
        Err(_) => Err(()),
    }
}

/// Decides whether a user may run a privileged command. A platform
/// administrator always may; otherwise the configured admin role decides, and
/// without one the Manage Guild permission does. `admin_role` is the stored
/// role id (`Ok(None)` when none is configured or the guild has no row).
/// A stored role that is not an id is reported as a database error.
pub fn is_guild_admin(
    administrator: bool,
    manage_guild: bool,
    admin_role: Result<Option<String>, StoreError>,
    member_roles: &Vec<u64>,
) -> (r: Result<(), Denial>)
    ensures
        r == admin_decision(administrator, manage_guild, role_lookup_view(admin_role), member_roles@),
{
    if administrator {
        return Ok(());
    }
    match admin_role {
        Err(_) => Err(Denial::DatabaseError),
        Ok(Some(role)) => match parse_id(role.as_str()) {
            Some(id) => if holds_role(member_roles, id) {
                Ok(())
            } else {
                Err(Denial::MissingRole)
            },
            None => Err(Denial::DatabaseError),
        },
        Ok(None) => if manage_guild {
            Ok(())
        } else {
            Err(Denial::MissingManageGuild)
        },
    }
}

/// The prefix used when a guild has none configured.
pub open spec fn default_prefix() -> Seq<char> {
    "."@
}

/// The guild's command prefix from its stored value: the stored prefix when
/// there is one, `.` when the row or the value is absent, and the empty string
/// when storage failed.
pub fn get_guild_prefix(stored: Result<Option<String>, StoreError>) -> (r: String)
    ensures
        r@ == match stored {
            Ok(Some(p)) => p@,
            Ok(None) => default_prefix(),
            Err(_) => Seq::<char>::empty(),
        },
{
    match stored {
        Ok(Some(p)) => p,
        Ok(None) => String::from_str("."),
        Err(_) => String::new(),
    }
}

} // verus!
