use presence::identity::{copy_text, same_text, UserInfo};
use presence::policy::{listed, VisibilityKind};
use presence::registry::{Server, Visibility};

fn named(name: &str) -> UserInfo {
    UserInfo::new(Some(name.to_string()), None)
}

fn registered(server: &Server, name: &str) -> bool {
    server.lookup(&named(name), &named(name)) != Visibility::Unknown
}

fn at(name: &str, address: &str) -> UserInfo {
    UserInfo::new(Some(name.to_string()), Some(address.to_string()))
}

#[test]
fn new_registry_is_empty() {
    let server = Server::new();
    assert!(!registered(&server, "alice"));
    assert_eq!(server.lookup(&named("bob"), &named("alice")), Visibility::Unknown);
}

#[test]
fn all_is_visible_to_every_requester() {
    let mut server = Server::new();
    server.connect(named("alice"), VisibilityKind::All);
    assert_eq!(server.lookup(&named("bob"), &named("alice")), Visibility::Visible);
    assert_eq!(server.lookup(&named("alice"), &named("alice")), Visibility::Visible);
    assert_eq!(server.lookup(&UserInfo::new(None, None), &named("alice")), Visibility::Visible);
}

#[test]
fn nobody_is_visible_to_no_requester() {
    let mut server = Server::new();
    server.connect(named("alice"), VisibilityKind::Nobody);
    assert_eq!(server.lookup(&named("bob"), &named("alice")), Visibility::NotVisible);
    assert_eq!(server.lookup(&named("alice"), &named("alice")), Visibility::NotVisible);
}

#[test]
fn friends_only_is_visible_to_the_listed() {
    let mut server = Server::new();
    let friends = vec![named("bob"), at("carol", "10.0.0.3:9000")];
    server.connect(named("alice"), VisibilityKind::FriendsOnly(friends));
    assert_eq!(server.lookup(&named("bob"), &named("alice")), Visibility::Visible);
    assert_eq!(
        server.lookup(&at("carol", "10.0.0.3:9000"), &named("alice")),
        Visibility::Visible
    );
    assert_eq!(server.lookup(&named("carol"), &named("alice")), Visibility::NotVisible);
    assert_eq!(server.lookup(&named("dave"), &named("alice")), Visibility::NotVisible);
    assert_eq!(server.lookup(&named("alice"), &named("alice")), Visibility::NotVisible);
}

#[test]
fn friends_only_with_an_empty_list_hides_from_everyone() {
    let mut server = Server::new();
    server.connect(named("alice"), VisibilityKind::FriendsOnly(Vec::new()));
    assert_eq!(server.lookup(&named("bob"), &named("alice")), Visibility::NotVisible);
}

#[test]
fn owner_on_its_own_list_sees_itself() {
    let mut server = Server::new();
    server.connect(named("alice"), VisibilityKind::FriendsOnly(vec![named("alice")]));
    assert_eq!(server.lookup(&named("alice"), &named("alice")), Visibility::Visible);
}

#[test]
fn unknown_before_connect_and_after_disconnect() {
    let mut server = Server::new();
    server.connect(named("zoe"), VisibilityKind::All);
    assert_eq!(server.lookup(&named("bob"), &named("alice")), Visibility::Unknown);
    server.connect(named("alice"), VisibilityKind::All);
    assert_eq!(server.lookup(&named("bob"), &named("alice")), Visibility::Visible);
    server.disconnect(&named("alice"));
    assert_eq!(server.lookup(&named("bob"), &named("alice")), Visibility::Unknown);
    assert_eq!(server.lookup(&named("bob"), &named("zoe")), Visibility::Visible);
}

#[test]
fn disconnect_twice_changes_nothing_the_second_time() {
    let mut server = Server::new();
    server.connect(named("alice"), VisibilityKind::All);
    server.connect(named("bob"), VisibilityKind::All);
    server.disconnect(&named("alice"));
    assert!(!registered(&server, "alice"));
    assert!(registered(&server, "bob"));
    server.disconnect(&named("alice"));
    assert!(!registered(&server, "alice"));
    assert!(registered(&server, "bob"));
    assert_eq!(server.lookup(&named("alice"), &named("bob")), Visibility::Visible);
}

#[test]
fn disconnect_of_a_stranger_changes_nothing() {
    let mut server = Server::new();
    server.disconnect(&named("alice"));
    assert!(!registered(&server, "alice"));
}

#[test]
fn last_connect_wins() {
    let mut server = Server::new();
    server.connect(named("alice"), VisibilityKind::All);
    server.connect(named("alice"), VisibilityKind::Nobody);
    assert!(registered(&server, "alice"));
    assert_eq!(server.lookup(&named("bob"), &named("alice")), Visibility::NotVisible);
    server.connect(named("alice"), VisibilityKind::FriendsOnly(vec![named("bob")]));
    assert_eq!(server.lookup(&named("bob"), &named("alice")), Visibility::Visible);
    assert_eq!(server.lookup(&named("carol"), &named("alice")), Visibility::NotVisible);
}

#[test]
fn identities_differ_when_one_field_differs() {
    let mut server = Server::new();
    server.connect(at("alice", "10.0.0.1:9000"), VisibilityKind::All);
    assert_eq!(server.lookup(&named("bob"), &named("alice")), Visibility::Unknown);
    assert_eq!(
        server.lookup(&named("bob"), &at("alice", "10.0.0.2:9000")),
        Visibility::Unknown
    );
    assert_eq!(
        server.lookup(&named("bob"), &UserInfo::new(None, Some("10.0.0.1:9000".to_string()))),
        Visibility::Unknown
    );
    assert_eq!(
        server.lookup(&named("bob"), &at("alice", "10.0.0.1:9000")),
        Visibility::Visible
    );
}

#[test]
fn anonymous_identity_is_a_key_like_any_other() {
    let mut server = Server::new();
    server.connect(UserInfo::new(None, None), VisibilityKind::All);
    assert_eq!(server.lookup(&named("bob"), &UserInfo::new(None, None)), Visibility::Visible);
    assert_eq!(
        server.lookup(&named("bob"), &UserInfo::new(Some(String::new()), None)),
        Visibility::Unknown
    );
}

#[test]
fn mutations_on_distinct_identities_commute() {
    let mut one = Server::new();
    one.connect(named("alice"), VisibilityKind::All);
    one.connect(named("bob"), VisibilityKind::Nobody);
    one.disconnect(&named("carol"));
    let mut other = Server::new();
    other.disconnect(&named("carol"));
    other.connect(named("bob"), VisibilityKind::Nobody);
    other.connect(named("alice"), VisibilityKind::All);
    for target in ["alice", "bob", "carol"] {
        for requester in ["alice", "bob", "carol"] {
            assert_eq!(
                one.lookup(&named(requester), &named(target)),
                other.lookup(&named(requester), &named(target))
            );
        }
    }
    assert!(registered(&one, "alice") && registered(&one, "bob") && !registered(&one, "carol"));
    assert!(registered(&other, "alice") && registered(&other, "bob") && !registered(&other, "carol"));
}

#[test]
fn same_as_compares_both_fields() {
    assert!(named("alice").same_as(&named("alice")));
    assert!(!named("alice").same_as(&named("alicf")));
    assert!(!named("alice").same_as(&named("alic")));
    assert!(!named("alice").same_as(&at("alice", "10.0.0.1:9000")));
    assert!(at("alice", "10.0.0.1:9000").same_as(&at("alice", "10.0.0.1:9000")));
    assert!(UserInfo::new(None, None).same_as(&UserInfo::new(None, None)));
    assert!(named("alice") == named("alice"));
    assert!(named("alice") != named("bob"));
}

#[test]
fn duplicate_is_the_same_identity() {
    let alice = at("alice", "10.0.0.1:9000");
    let copy = alice.duplicate();
    assert_eq!(copy, alice);
    assert_eq!(copy.username.as_deref(), Some("alice"));
    assert_eq!(copy.address.as_deref(), Some("10.0.0.1:9000"));
}

#[test]
fn listed_finds_members_only() {
    let friends = vec![named("bob"), named("carol")];
    assert!(listed(&friends, &named("carol")));
    assert!(!listed(&friends, &named("dave")));
    assert!(!listed(&Vec::new(), &named("bob")));
}

#[test]
fn policy_admits_as_its_kind_says() {
    assert!(VisibilityKind::All.admits(&named("bob")));
    assert!(!VisibilityKind::Nobody.admits(&named("bob")));
    assert!(VisibilityKind::FriendsOnly(vec![named("bob")]).admits(&named("bob")));
    assert!(!VisibilityKind::FriendsOnly(vec![named("bob")]).admits(&named("carol")));
}

#[test]
fn many_identities_are_kept_apart() {
    let mut server = Server::new();
    for i in 0..500 {
        let policy = if i % 2 == 0 { VisibilityKind::All } else { VisibilityKind::Nobody };
        server.connect(named(&format!("user{}", i)), policy);
    }
    for i in 0..500 {
        let expected = if i % 2 == 0 { Visibility::Visible } else { Visibility::NotVisible };
        assert_eq!(server.lookup(&named("bob"), &named(&format!("user{}", i))), expected);
    }
    for i in 0..500 {
        if i % 3 == 0 {
            server.disconnect(&named(&format!("user{}", i)));
        }
    }
    for i in 0..500 {
        let expected = if i % 3 == 0 {
            Visibility::Unknown
        } else if i % 2 == 0 {
            Visibility::Visible
        } else {
            Visibility::NotVisible
        };
        assert_eq!(server.lookup(&named("bob"), &named(&format!("user{}", i))), expected);
    }
}

#[test]
fn username_and_address_do_not_run_together() {
    let mut server = Server::new();
    server.connect(
        UserInfo::new(Some("ab".to_string()), Some("c".to_string())),
        VisibilityKind::All,
    );
    let other = UserInfo::new(Some("a".to_string()), Some("bc".to_string()));
    assert_eq!(server.lookup(&named("bob"), &other), Visibility::Unknown);
    let swapped = UserInfo::new(None, Some("abc".to_string()));
    assert_eq!(server.lookup(&named("bob"), &swapped), Visibility::Unknown);
}

#[test]
fn optional_texts_are_compared_and_copied() {
    let some = Some("alice".to_string());
    assert!(same_text(&some, &Some("alice".to_string())));
    assert!(!same_text(&some, &Some("bob".to_string())));
    assert!(!same_text(&some, &None));
    assert!(!same_text(&None, &some));
    assert!(same_text(&None, &None));
    assert_eq!(copy_text(&some), some);
    assert_eq!(copy_text(&None), None);
}

#[test]
fn new_identity_keeps_its_fields() {
    let identity = UserInfo::new(Some("alice".to_string()), Some("10.0.0.1:9000".to_string()));
    assert_eq!(identity.username, Some("alice".to_string()));
    assert_eq!(identity.address, Some("10.0.0.1:9000".to_string()));
}
