//! The permission gate. Before a shard serves a read or write, the caller's
//! roles within the group are resolved by an external role authority; this
//! module takes those resolutions as values and decides. The caller must be
//! the resolved member principal, and the member must hold a role — among
//! the group's roles merged with a fixed default set — that grants the
//! requested action.

use vstd::prelude::*;

use crate::error::{ApiError, ErrorDetail};
use crate::principal::PrincipalId;

verus! {

/// The actions the permission check distinguishes.
#[derive(Clone, Copy, PartialEq, Eq, Structural)]
pub enum PermissionActionType {
    Write,
    Read,
    Edit,
    Delete,
}

/// Which actions a role grants.
#[derive(Clone, Copy, PartialEq, Eq, Structural)]
pub struct PermissionActions {
    pub write: bool,
    pub read: bool,
    pub edit: bool,
    pub delete: bool,
}

/// A role a group defines: a name and the actions it grants.
pub struct Role {
    pub name: String,
    /// A protected role cannot be removed from the group.
    pub protected: bool,
    pub actions: PermissionActions,
}

pub ghost struct RoleView {
    pub name: Seq<char>,
    pub protected: bool,
    pub actions: PermissionActions,
}

impl View for Role {
    type V = RoleView;

    open spec fn view(&self) -> RoleView {
        RoleView { name: self.name@, protected: self.protected, actions: self.actions }
    }
}

/// The views of a list of roles.
pub open spec fn role_views(roles: Seq<Role>) -> Seq<RoleView> {
    roles.map_values(|r: Role| r@)
}

/// The views of a list of role names.
pub open spec fn name_views(names: Seq<String>) -> Seq<Seq<char>> {
    names.map_values(|n: String| n@)
}

/// Whether a role grants an action.
pub open spec fn grants(role: RoleView, action: PermissionActionType) -> bool {
    match action {
        PermissionActionType::Write => role.actions.write,
        PermissionActionType::Read => role.actions.read,
        PermissionActionType::Edit => role.actions.edit,
        PermissionActionType::Delete => role.actions.delete,
    }
}

/// The roles every group grants regardless of its own configuration: owner
/// and admin hold every action; moderator and member may only read.
pub open spec fn default_role_views() -> Seq<RoleView> {
    seq![
        RoleView {
            name: "owner"@,
            protected: true,
            actions: PermissionActions { write: true, read: true, edit: true, delete: true },
        },
        RoleView {
            name: "admin"@,
            protected: true,
            actions: PermissionActions { write: true, read: true, edit: true, delete: true },
        },
        RoleView {
            name: "moderator"@,
            protected: true,
            actions: PermissionActions { write: false, read: true, edit: false, delete: false },
        },
        RoleView {
            name: "member"@,
            protected: true,
            actions: PermissionActions { write: false, read: true, edit: false, delete: false },
        },
    ]
}

/// The fixed default role set, as values.
pub fn default_roles() -> (out: Vec<Role>)
    ensures
        role_views(out@) == default_role_views(),
{
    let all = PermissionActions { write: true, read: true, edit: true, delete: true };
    let read_only = PermissionActions { write: false, read: true, edit: false, delete: false };
    let mut out: Vec<Role> = Vec::new();
    out.push(Role { name: String::from_str("owner"), protected: true, actions: all });
    out.push(Role { name: String::from_str("admin"), protected: true, actions: all });
    out.push(Role { name: String::from_str("moderator"), protected: true, actions: read_only });
    out.push(Role { name: String::from_str("member"), protected: true, actions: read_only });
    proof {
        assert(role_views(out@) =~= default_role_views());
    }
    out
}

/// The member holds some role of `roles` that grants `action`.
pub open spec fn has_permission_spec(
    member_roles: Seq<Seq<char>>,
    roles: Seq<RoleView>,
    action: PermissionActionType,
) -> bool {
    exists|i: int|
        0 <= i < roles.len() && grants(#[trigger] roles[i], action) && member_roles.contains(
            roles[i].name,
        )
}

/// Decides `has_permission_spec` on the views.
pub fn has_permission(
    member_roles: &Vec<String>,
    roles: &Vec<Role>,
    action: PermissionActionType,
) -> (r: bool)
    ensures
        r == has_permission_spec(name_views(member_roles@), role_views(roles@), action),
{
    let ghost names = name_views(member_roles@);
    let ghost rs = role_views(roles@);
    let mut i: usize = 0;
    while i < roles.len()
        invariant
            i <= roles.len(),
            names == name_views(member_roles@),
            rs == role_views(roles@),
            forall|k: int|
                0 <= k < i ==> !(grants(#[trigger] rs[k], action) && names.contains(rs[k].name)),
        decreases roles.len() - i,
    {
        let role = &roles[i];
        proof {
            assert(rs[i as int] == roles@[i as int]@);
        }
        let granted = match action {
            PermissionActionType::Write => role.actions.write,
            PermissionActionType::Read => role.actions.read,
            PermissionActionType::Edit => role.actions.edit,
            PermissionActionType::Delete => role.actions.delete,
        };
        if granted {
            assert(grants(rs[i as int], action));
            let mut j: usize = 0;
            while j < member_roles.len()
                invariant
                    j <= member_roles.len(),
                    names == name_views(member_roles@),
                    rs == role_views(roles@),
                    i < roles.len(),
                    role == roles@[i as int],
                    grants(rs[i as int], action),
                    forall|k: int| 0 <= k < j ==> names[k] != rs[i as int].name,
                decreases member_roles.len() - j,
            {
                if member_roles[j] == role.name {
                    assert(names[j as int] == rs[i as int].name);
                    return true;
                }
                j = j + 1;
            }
            assert(!names.contains(rs[i as int].name));
        }
        i = i + 1;
    }
    false
}

/// The merged role set a member is checked against: the group's own roles
/// followed by the defaults.
pub open spec fn merged_roles(group_roles: Seq<RoleView>) -> Seq<RoleView> {
    group_roles + default_role_views()
}

/// The permission check grants `action` exactly when both resolutions
/// succeeded, the caller is the resolved member principal, and the member
/// holds a granting role among the group's roles merged with the defaults.
pub open spec fn gate_grants(
    caller: Seq<u8>,
    group_res: Result<Seq<RoleView>, Seq<char>>,
    member_res: Result<(Seq<u8>, Seq<Seq<char>>), Seq<char>>,
    action: PermissionActionType,
) -> bool {
    &&& member_res matches Ok(m) && m.0 == caller
    &&& group_res matches Ok(g) && has_permission_spec(
        member_res->Ok_0.1,
        merged_roles(g),
        action,
    )
}

/// The view of a member resolution.
pub open spec fn member_res_view(m: Result<(PrincipalId, Vec<String>), String>) -> Result<
    (Seq<u8>, Seq<Seq<char>>),
    Seq<char>,
> {
    match m {
        Ok((p, names)) => Ok((p@, name_views(names@))),
        Err(t) => Err(t@),
    }
}

/// The view of a group resolution.
pub open spec fn group_res_view(g: Result<Vec<Role>, String>) -> Result<Seq<RoleView>, Seq<char>> {
    match g {
        Ok(roles) => Ok(role_views(roles@)),
        Err(t) => Err(t@),
    }
}

/// Decides whether `caller` may perform `action` in the group, given the two
/// resolutions of the external role authority. Every refusal is
/// `Unauthorized`: a failed member resolution, a caller that is not the
/// resolved member (`PRINCIPAL_MISMATCH`), a failed group resolution, or a
/// member with no granting role (`NO_PERMISSION`).
pub fn check_permission(
    caller: &PrincipalId,
    group_res: Result<Vec<Role>, String>,
    member_res: Result<(PrincipalId, Vec<String>), String>,
    action: PermissionActionType,
    location: &String,
) -> (r: Result<PrincipalId, ApiError>)
    ensures
        r is Ok <==> gate_grants(
            caller@,
            group_res_view(group_res),
            member_res_view(member_res),
            action,
        ),
        r matches Ok(p) ==> p@ == caller@,
        r matches Err(e) ==> e@ is Unauthorized,
        (member_res matches Ok(m) && m.0@ != caller@) ==> (r matches Err(e)
            && e@->Unauthorized_0.tag == "PRINCIPAL_MISMATCH"@),
        (member_res is Err || (member_res matches Ok(m) && m.0@ == caller@ && !(r is Ok))) ==> (
        r matches Err(e) && e@->Unauthorized_0.tag == "NO_PERMISSION"@),
{
    match member_res {
        Err(err) => Err(
            ApiError::Unauthorized(
                ErrorDetail {
                    tag: String::from_str("NO_PERMISSION"),
                    message: err,
                    location: location.clone(),
                    method: String::from_str("check_permission"),
                },
            ),
        ),
        Ok((member_principal, member_role_names)) => {
            if !caller.is(&member_principal) {
                return Err(
                    ApiError::Unauthorized(
                        ErrorDetail {
                            tag: String::from_str("PRINCIPAL_MISMATCH"),
                            message: String::from_str("Principal mismatch"),
                            location: location.clone(),
                            method: String::from_str("check_permission"),
                        },
                    ),
                );
            }
            match group_res {
                Err(err) => Err(
                    ApiError::Unauthorized(
                        ErrorDetail {
                            tag: String::from_str("NO_PERMISSION"),
                            message: err,
                            location: location.clone(),
                            method: String::from_str("check_permission"),
                        },
                    ),
                ),
                Ok(group_roles) => {
                    let mut merged = group_roles;
                    let mut defaults = default_roles();
                    let ghost group_part = role_views(merged@);
                    merged.append(&mut defaults);
                    proof {
                        assert(role_views(merged@) =~= merged_roles(group_part));
                    }
                    if has_permission(&member_role_names, &merged, action) {
                        Ok(caller.duplicate())
                    } else {
                        Err(
                            ApiError::Unauthorized(
                                ErrorDetail {
                                    tag: String::from_str("NO_PERMISSION"),
                                    message: String::from_str("No permission"),
                                    location: location.clone(),
                                    method: String::from_str("check_permission"),
                                },
                            ),
                        )
                    }
                },
            }
        },
    }
}

} // verus!
