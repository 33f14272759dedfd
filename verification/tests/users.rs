use course_platform::models::Role;
use course_platform::{Contract, Error};

const ROOT: &str = "root.testnet";

fn s(text: &str) -> String {
    text.to_string()
}

fn platform() -> Contract {
    let mut contract = Contract::new(s("platform.testnet"), s(ROOT));
    contract
        .create_user(s(ROOT), s("Root"), s("root"), s("000"), s("root@x.io"), false, s("r.png"), 1)
        .unwrap();
    contract
        .create_user(s("ann.testnet"), s("Ann"), s("ann"), s("111"), s("ann@x.io"), true, s("a.png"), 2)
        .unwrap();
    contract
}

#[test]
fn a_new_user_has_the_plain_role() {
    let contract = platform();
    let ann = contract.get_user_by_id(s("ann.testnet")).unwrap();
    assert_eq!(ann.account_id, "ann.testnet");
    assert_eq!(ann.name, "Ann");
    assert_eq!(ann.username, "ann");
    assert_eq!(ann.phone, "111");
    assert_eq!(ann.email, "ann@x.io");
    assert_eq!(ann.role, Role::User);
    assert!(ann.by_google);
    assert!(ann.certifications.is_none());
    assert_eq!(ann.picture, "a.png");
    assert_eq!(ann.created_at, 2);
    assert_eq!(ann.updated_at, 2);
    assert_eq!(contract.user_count, 2);
    assert!(contract.user_exists_by_account_id(s("ann.testnet")));
    assert!(!contract.user_exists_by_account_id(s("bob.testnet")));
    assert!(contract.get_user_by_id(s("bob.testnet")).is_none());
}

#[test]
fn account_username_and_email_are_each_unique() {
    let mut contract = platform();
    assert_eq!(
        contract.create_user(s("ann.testnet"), s("A"), s("other"), s("1"), s("other@x.io"), false, s("p"), 3),
        Err(Error::AlreadyExists)
    );
    assert_eq!(
        contract.create_user(s("bob.testnet"), s("B"), s("ann"), s("1"), s("bob@x.io"), false, s("p"), 3),
        Err(Error::AlreadyExists)
    );
    assert_eq!(
        contract.create_user(s("bob.testnet"), s("B"), s("bob"), s("1"), s("ann@x.io"), false, s("p"), 3),
        Err(Error::AlreadyExists)
    );
    assert_eq!(contract.get_users().len(), 2);
    assert!(contract.user_exists(s("ann.testnet"), s("x"), s("y")));
    assert!(contract.user_exists(s("x"), s("ann"), s("y")));
    assert!(contract.user_exists(s("x"), s("y"), s("ann@x.io")));
    assert!(!contract.user_exists(s("x"), s("y"), s("z")));
    assert_eq!(
        contract.create_user(s("bob.testnet"), s("B"), s("bob"), s("1"), s("bob@x.io"), false, s("p"), 3),
        Ok(())
    );
    contract.user_count = u64::MAX;
    assert_eq!(
        contract.create_user(s("cy.testnet"), s("C"), s("cy"), s("1"), s("cy@x.io"), false, s("p"), 3),
        Err(Error::CapacityExceeded)
    );
    assert_eq!(contract.get_users().len(), 3);
}

#[test]
fn users_are_found_by_username_and_email() {
    let contract = platform();
    assert_eq!(contract.get_user_by_username(s("ann")).unwrap().account_id, "ann.testnet");
    assert_eq!(contract.get_user_by_email(s("root@x.io")).unwrap().account_id, ROOT);
    assert!(contract.get_user_by_username(s("ann@x.io")).is_none());
    assert!(contract.get_user_by_email(s("ann")).is_none());
}

#[test]
fn a_profile_is_changed_by_its_owner_or_an_admin() {
    let mut contract = platform();
    assert_eq!(
        contract.update_user(s(ROOT), s("ann.testnet"), s("n"), s("u"), s("p"), s("e"), false, s("i"), 9),
        Err(Error::Unauthorized)
    );
    assert_eq!(
        contract.update_user(s(ROOT), s("bob.testnet"), s("n"), s("u"), s("p"), s("e"), false, s("i"), 9),
        Err(Error::NotFound)
    );
    assert_eq!(
        contract.update_user(
            s("ann.testnet"),
            s("ann.testnet"),
            s("Anna"),
            s("anna"),
            s("555"),
            s("anna@x.io"),
            false,
            s("n.png"),
            9
        ),
        Ok(())
    );
    let ann = contract.get_user_by_id(s("ann.testnet")).unwrap();
    assert_eq!(ann.name, "Anna");
    assert_eq!(ann.username, "anna");
    assert_eq!(ann.phone, "555");
    assert_eq!(ann.email, "anna@x.io");
    assert!(!ann.by_google);
    assert_eq!(ann.picture, "n.png");
    assert_eq!(ann.updated_at, 9);
    assert_eq!(ann.created_at, 2);
    assert_eq!(ann.role, Role::User);

    contract.change_user_to_admin(s(ROOT)).unwrap();
    assert_eq!(contract.get_user_by_id(s(ROOT)).unwrap().role, Role::Admin);
    assert_eq!(
        contract.update_user(s(ROOT), s("ann.testnet"), s("A"), s("a"), s("1"), s("a@x.io"), true, s("p"), 10),
        Ok(())
    );
    assert_eq!(contract.get_user_by_id(s("ann.testnet")).unwrap().name, "A");
}

#[test]
fn a_user_changes_the_own_contact_details() {
    let mut contract = platform();
    assert_eq!(
        contract.update_user_info(s("bob.testnet"), s("n"), s("p"), s("i"), 9),
        Err(Error::NotFound)
    );
    assert_eq!(
        contract.update_user_info(s("ann.testnet"), s("Ann B"), s("777"), s("b.png"), 9),
        Ok(())
    );
    let ann = contract.get_user_by_id(s("ann.testnet")).unwrap();
    assert_eq!(ann.name, "Ann B");
    assert_eq!(ann.phone, "777");
    assert_eq!(ann.picture, "b.png");
    assert_eq!(ann.updated_at, 9);
    assert_eq!(ann.username, "ann");
    assert_eq!(ann.email, "ann@x.io");
    assert_eq!(contract.get_user_by_id(s(ROOT)).unwrap().updated_at, 1);
}
