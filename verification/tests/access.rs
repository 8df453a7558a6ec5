use dapla::access::{Permission, PermissionSet};

fn all() -> Vec<Permission> {
    vec![
        Permission::FileRead,
        Permission::FileWrite,
        Permission::ClientHttp,
        Permission::Http,
        Permission::Websocket,
        Permission::Tcp,
    ]
}

#[test]
fn permission_names_are_exact() {
    assert_eq!(Permission::FileRead.as_str(), "file_read");
    assert_eq!(Permission::FileWrite.as_str(), "file_write");
    assert_eq!(Permission::ClientHttp.as_str(), "client_http");
    assert_eq!(Permission::Http.as_str(), "http");
    assert_eq!(Permission::Websocket.as_str(), "websocket");
    assert_eq!(Permission::Tcp.as_str(), "tcp");
}

#[test]
fn permission_name_round_trip() {
    for permission in all() {
        assert_eq!(Permission::parse(permission.as_str()), Some(permission));
    }
}

#[test]
fn permission_parse_rejects_other_text() {
    assert_eq!(Permission::parse(""), None);
    assert_eq!(Permission::parse("HTTP"), None);
    assert_eq!(Permission::parse("http "), None);
    assert_eq!(Permission::parse("file"), None);
    assert_eq!(Permission::parse("file_reader"), None);
}

#[test]
fn permission_all_lists_each_once() {
    assert_eq!(Permission::all().to_vec(), all());
}

#[test]
fn empty_set_has_no_members() {
    let set = PermissionSet::empty();
    for permission in all() {
        assert!(!set.contains(permission));
    }
    assert_eq!(set.to_vec(), Vec::<Permission>::new());
}

#[test]
fn insert_adds_one_member_and_is_idempotent() {
    let mut set = PermissionSet::empty();
    set.insert(Permission::Http);
    assert!(set.contains(Permission::Http));
    assert!(!set.contains(Permission::Tcp));
    let once = set;
    set.insert(Permission::Http);
    assert_eq!(set, once);
    assert_eq!(set.to_vec(), vec![Permission::Http]);
}

#[test]
fn from_slice_ignores_order_and_repeats() {
    let set = PermissionSet::from_slice(&[
        Permission::Tcp,
        Permission::FileRead,
        Permission::Tcp,
        Permission::Http,
    ]);
    assert_eq!(set.to_vec(), vec![Permission::FileRead, Permission::Http, Permission::Tcp]);
    assert_eq!(set, PermissionSet::from_slice(&[Permission::Http, Permission::FileRead, Permission::Tcp]));
}

#[test]
fn to_vec_then_from_slice_gives_the_set_back() {
    let set = PermissionSet::from_slice(&[Permission::Websocket, Permission::FileWrite]);
    assert_eq!(PermissionSet::from_slice(&set.to_vec()), set);
    let full = PermissionSet::from_slice(&all());
    assert_eq!(full.to_vec(), all());
    assert_eq!(PermissionSet::from_slice(&full.to_vec()), full);
}

#[test]
fn subset_is_decided_member_by_member() {
    let small = PermissionSet::from_slice(&[Permission::Http]);
    let large = PermissionSet::from_slice(&[Permission::Http, Permission::Tcp]);
    assert!(small.is_subset_of(&large));
    assert!(!large.is_subset_of(&small));
    assert!(small.is_subset_of(&small));
    assert!(PermissionSet::empty().is_subset_of(&small));
    assert!(!small.is_subset_of(&PermissionSet::empty()));
}
