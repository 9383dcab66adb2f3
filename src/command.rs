//! What the role commands decide: which role an edit applies to and what it
//! changes, and what a new role would be.

use vstd::prelude::*;
use crate::color::{color_value, parse_color};
use crate::store::{RoleError, RoleStore};

verus! {

/// The acknowledgment sent after a role is bound to a user.
pub const ASSOCIATE_REPLY: &'static str = "ok!";

/// The acknowledgment sent after a role is edited.
pub const EDIT_REPLY: &'static str = "successfully updated role!";

/// A partial edit of one role: the fields that are `None` stay as they are.
pub struct RoleEdit {
    pub role: u64,
    pub name: Option<String>,
    pub colour: Option<u32>,
}

/// A role as the guild's role directory holds it.
pub struct RoleObject {
    pub id: u64,
    pub name: String,
    pub colour: u32,
}

/// The name and color of a role to be created.
pub struct NewRole {
    pub name: String,
    pub colour: u32,
}

/// The text of an optional string.
pub open spec fn opt_text(s: Option<String>) -> Option<Seq<char>> {
    match s {
        Some(t) => Some(t@),
        None => None,
    }
}

/// The role an edit by `invoker` applies to and the color it sets, or why it
/// cannot be made. The owned role is looked up first, then sought in the
/// directory, and the color is read last.
pub open spec fn edit_outcome(
    roles: Map<u64, u64>,
    invoker: u64,
    directory: Seq<u64>,
    color: Option<Seq<char>>,
) -> Result<(u64, Option<u32>), RoleError> {
    if !roles.contains_key(invoker) {
        Err(RoleError::NotRegistered)
    } else if !directory.contains(roles[invoker]) {
        Err(RoleError::RoleMissing)
    } else {
        match color {
            None => Ok((roles[invoker], None)),
            Some(c) => match color_value(c) {
                Some(v) => Ok((roles[invoker], Some(v))),
                None => Err(RoleError::InvalidColor),
            },
        }
    }
}

/// Whether `id` is in `directory`.
fn directory_has(directory: &Vec<u64>, id: u64) -> (r: bool)
    ensures
        r == directory@.contains(id),
{
    let mut i: usize = 0;
    while i < directory.len()
        invariant
            i <= directory@.len(),
            forall|j: int| 0 <= j < i ==> directory@[j] != id,
        decreases directory@.len() - i,
    {
        if directory[i] == id {
            return true;
        }
        i = i + 1;
    }
    false
}

/// Builds the edit that `invoker` asks for on the role they own: `name`, when
/// given, becomes the role's name as it stands, and `color`, when given, must
/// be a hex triplet. `directory` lists the roles that the guild holds.
pub fn edit_role(
    store: &RoleStore,
    invoker: u64,
    directory: &Vec<u64>,
    name: Option<String>,
    color: Option<String>,
) -> (r: Result<RoleEdit, RoleError>)
    ensures
        match r {
            Ok(e) => edit_outcome(store@, invoker, directory@, opt_text(color)) == Ok::<
                (u64, Option<u32>),
                RoleError,
            >((e.role, e.colour)) && e.name == name,
            Err(x) => edit_outcome(store@, invoker, directory@, opt_text(color)) == Err::<
                (u64, Option<u32>),
                RoleError,
            >(x),
        },
{
    let role = match store.lookup(invoker) {
        Ok(role) => role,
        Err(x) => return Err(x),
    };
    if !directory_has(directory, role) {
        return Err(RoleError::RoleMissing);
    }
    let colour = match &color {
        Some(c) => match parse_color(c.as_str()) {
            Some(v) => Some(v),
            None => return Err(RoleError::InvalidColor),
        },
        None => None,
    };
    Ok(RoleEdit { role, name, colour })
}

/// Checks the color of a role to be created: the name is taken as it stands.
pub fn create_role(name: String, color: &str) -> (r: Result<NewRole, RoleError>)
    ensures
        match r {
            Ok(n) => color_value(color@) == Some(n.colour) && n.name == name,
            Err(x) => color_value(color@) is None && x == RoleError::InvalidColor,
        },
{
    match parse_color(color) {
        Some(colour) => Ok(NewRole { name, colour }),
        None => Err(RoleError::InvalidColor),
    }
}

impl RoleObject {
    /// Applies `edit` to this role: each field the edit sets is replaced.
    pub fn apply_edit(&mut self, edit: &RoleEdit)
        ensures
            final(self).id == old(self).id,
            final(self).name@ == match edit.name {
                Some(n) => n@,
                None => old(self).name@,
            },
            final(self).colour == match edit.colour {
                Some(c) => c,
                None => old(self).colour,
            },
    {
        match &edit.name {
            Some(n) => {
                self.name = n.clone();
            },
            None => {},
        }
        match edit.colour {
            Some(c) => {
                self.colour = c;
            },
            None => {},
        }
    }
}

} // verus!
