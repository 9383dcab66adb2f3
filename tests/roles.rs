use role_keeper::color::{parse_color, to_hex_string};
use role_keeper::command::{
    create_role, edit_role, RoleEdit, RoleObject, ASSOCIATE_REPLY, EDIT_REPLY,
};
use role_keeper::store::{RoleError, RoleStore};

fn store_with(user: u64, role: u64) -> RoleStore {
    let mut store = RoleStore::new();
    assert_eq!(store.associate(user, role), None);
    store
}

#[test]
fn hex_round_trip_on_samples() {
    for v in [0u32, 1, 0x0F0F0F, 0x1A2B3C, 0x808080, 0xABCDEF, 0xFF0000, 0xFFFFFF] {
        assert_eq!(parse_color(&to_hex_string(v)), Some(v));
    }
}

#[test]
fn hex_string_is_upper_case_with_hash() {
    assert_eq!(to_hex_string(0x1A2B3C), "#1A2B3C");
    assert_eq!(to_hex_string(0xabcdef), "#ABCDEF");
    assert_eq!(to_hex_string(0), "#000000");
}

#[test]
fn parse_rejects_malformed_input() {
    assert_eq!(parse_color("not-a-color"), None);
    assert_eq!(parse_color(""), None);
    assert_eq!(parse_color("#ZZZZZZ"), None);
    assert_eq!(parse_color("#"), None);
    assert_eq!(parse_color("#12345"), None);
    assert_eq!(parse_color("#1234567"), None);
    assert_eq!(parse_color("##123456"), None);
    assert_eq!(parse_color("#12345é"), None);
    assert_eq!(parse_color(" #123456"), None);
    assert_eq!(parse_color("#+F+F+F"), None);
    assert_eq!(parse_color("+F+F+F"), None);
    assert_eq!(parse_color("#+FF"), None);
    assert_eq!(parse_color("-1-1-1"), None);
}

#[test]
fn parse_reads_full_and_shorthand_triplets() {
    assert_eq!(parse_color("#1A2B3C"), Some(0x1A2B3C));
    assert_eq!(parse_color("1A2B3C"), Some(0x1A2B3C));
    assert_eq!(parse_color("#1a2b3c"), Some(0x1A2B3C));
    assert_eq!(parse_color("#F00"), Some(0xFF0000));
    assert_eq!(parse_color("1a2"), Some(0x11AA22));
}

#[test]
fn lookup_after_associate() {
    let store = store_with(42, 7);
    assert_eq!(store.lookup(42), Ok(7));
}

#[test]
fn lookup_without_association_fails() {
    let store = RoleStore::new();
    let err = store.lookup(999).unwrap_err();
    assert_eq!(err, RoleError::NotRegistered);
    assert_eq!(err.message(), "no user role registered");
}

#[test]
fn second_association_replaces_the_first() {
    let mut store = store_with(5, 1);
    assert_eq!(store.associate(5, 2), Some(1));
    assert_eq!(store.lookup(5), Ok(2));
    assert_eq!(store.associate(6, 3), None);
    assert_eq!(store.lookup(5), Ok(2));
    assert_eq!(store.lookup(6), Ok(3));
}

#[test]
fn rows_load_with_first_row_winning() {
    let store = RoleStore::from_rows(&vec![(1, 10), (2, 20), (1, 11)]);
    assert_eq!(store.lookup(1), Ok(10));
    assert_eq!(store.lookup(2), Ok(20));
    assert_eq!(store.lookup(3), Err(RoleError::NotRegistered));
}

#[test]
fn edit_sets_name_only() {
    let store = store_with(42, 7);
    let edit = edit_role(&store, 42, &vec![3, 7], Some("Champion".to_string()), None).unwrap();
    assert_eq!(edit.role, 7);
    assert_eq!(edit.colour, None);
    let mut role = RoleObject { id: 7, name: "Old".to_string(), colour: 0x112233 };
    role.apply_edit(&edit);
    assert_eq!(role.id, 7);
    assert_eq!(role.name, "Champion");
    assert_eq!(role.colour, 0x112233);
    assert_eq!(EDIT_REPLY, "successfully updated role!");
}

#[test]
fn edit_sets_color_only() {
    let store = store_with(42, 7);
    let edit = edit_role(&store, 42, &vec![7], None, Some("#1A2B3C".to_string())).unwrap();
    assert_eq!(edit.role, 7);
    assert_eq!(edit.colour, Some(0x1A2B3C));
    let mut role = RoleObject { id: 7, name: "Mine".to_string(), colour: 0 };
    role.apply_edit(&edit);
    assert_eq!(role.name, "Mine");
    assert_eq!(role.colour, 0x1A2B3C);
}

#[test]
fn edit_without_association_fails() {
    let store = store_with(42, 7);
    let r = edit_role(&store, 999, &vec![7], Some("X".to_string()), Some("#FFFFFF".to_string()));
    assert_eq!(r.err(), Some(RoleError::NotRegistered));
}

#[test]
fn edit_of_missing_role_fails() {
    let store = store_with(42, 7);
    let r = edit_role(&store, 42, &vec![1, 2], Some("X".to_string()), None);
    assert_eq!(r.err(), Some(RoleError::RoleMissing));
    assert_eq!(
        RoleError::RoleMissing.message(),
        "your role no longer exists, please contact an admin"
    );
}

#[test]
fn edit_with_bad_color_fails() {
    let store = store_with(42, 7);
    let r = edit_role(&store, 42, &vec![7], Some("X".to_string()), Some("#ZZZZZZ".to_string()));
    assert_eq!(r.err(), Some(RoleError::InvalidColor));
    assert_eq!(RoleError::InvalidColor.message(), "invalid color format, please retry");
}

#[test]
fn empty_edit_is_allowed() {
    let store = store_with(42, 7);
    let edit: RoleEdit = edit_role(&store, 42, &vec![7], None, None).unwrap();
    let mut role = RoleObject { id: 7, name: "Same".to_string(), colour: 5 };
    role.apply_edit(&edit);
    assert_eq!(role.name, "Same");
    assert_eq!(role.colour, 5);
}

#[test]
fn create_checks_the_color() {
    let new_role = create_role("Blue".to_string(), "#0000FF").unwrap();
    assert_eq!(new_role.name, "Blue");
    assert_eq!(new_role.colour, 0x0000FF);
    assert_eq!(create_role("Blue".to_string(), "blue").err(), Some(RoleError::InvalidColor));
    assert_eq!(ASSOCIATE_REPLY, "ok!");
}
