//! The closed role enumeration and its ordering.

use vstd::prelude::*;

verus! {

/// Access level of an identity. Admin is strictly more privileged than User.
#[derive(Clone, Copy, PartialEq, Eq, Structural, Debug)]
pub enum Role {
    User,
    Admin,
}

/// Role `r` meets a requirement `required` when it is at least as privileged:
/// Admin satisfies any requirement, User satisfies only a User requirement.
pub open spec fn spec_role_geq(r: Role, required: Role) -> bool {
    match required {
        Role::User => true,
        Role::Admin => r is Admin,
    }
}

/// Byte tag under which a role travels inside token claims.
pub open spec fn spec_role_byte(r: Role) -> u8 {
    match r {
        Role::User => 0u8,
        Role::Admin => 1u8,
    }
}

/// Partial inverse of `spec_role_byte`: any other byte is no role at all.
pub open spec fn spec_role_of_byte(b: u8) -> Option<Role> {
    if b == 0 {
        Some(Role::User)
    } else if b == 1 {
        Some(Role::Admin)
    } else {
        None
    }
}

/// The directory stores roles as names; `Admin` selects the Admin role and
/// every other name falls back to the least privileged role.
pub open spec fn spec_role_of_name(name: Seq<u8>) -> Role {
    if name == spec_admin_name() {
        Role::Admin
    } else {
        Role::User
    }
}

/// The byte spelling of the one privileged role name, `Admin`.
pub open spec fn spec_admin_name() -> Seq<u8> {
    seq![65u8, 100u8, 109u8, 105u8, 110u8]
}

pub fn role_geq(r: Role, required: Role) -> (out: bool)
    ensures
        out == spec_role_geq(r, required),
{
    match required {
        Role::User => true,
        Role::Admin => matches!(r, Role::Admin),
    }
}

pub fn role_byte(r: Role) -> (out: u8)
    ensures
        out == spec_role_byte(r),
{
    match r {
        Role::User => 0u8,
        Role::Admin => 1u8,
    }
}

pub fn role_of_byte(b: u8) -> (out: Option<Role>)
    ensures
        out == spec_role_of_byte(b),
{
    if b == 0 {
        Some(Role::User)
    } else if b == 1 {
        Some(Role::Admin)
    } else {
        None
    }
}

/// Decodes a stored role name, with the silent fallback to User that the
/// directory's fixed data relies on.
pub fn role_of_name(name: &Vec<u8>) -> (out: Role)
    ensures
        out == spec_role_of_name(name@),
{
    let admin: Vec<u8> = admin_name();
    if crate::bytes::bytes_eq(name, &admin) {
        Role::Admin
    } else {
        Role::User
    }
}

/// The byte spelling of the Admin role name.
pub fn admin_name() -> (out: Vec<u8>)
    ensures
        out@ == spec_admin_name(),
{
    let mut v: Vec<u8> = Vec::new();
    v.push(65u8);
    v.push(100u8);
    v.push(109u8);
    v.push(105u8);
    v.push(110u8);
    proof {
        assert(v@ =~= spec_admin_name());
    }
    v
}

/// Admin meets every requirement and User meets none above its own: the
/// ordering the authorization filter enforces.
pub proof fn lemma_role_order()
    ensures
        spec_role_geq(Role::Admin, Role::User),
        spec_role_geq(Role::Admin, Role::Admin),
        spec_role_geq(Role::User, Role::User),
        !spec_role_geq(Role::User, Role::Admin),
{
}

} // verus!
