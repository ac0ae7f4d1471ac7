use rustical::auth::{
    AuthenticationMiddleware, AuthenticationProvider, BasicCredentials, StaticUserStore, UserEntry,
};
use rustical::error::Error;
use rustical::privileges::{UserPrivilege, UserPrivilegeSet};
use std::sync::Arc;

fn provider() -> Arc<StaticUserStore> {
    Arc::new(StaticUserStore::new(vec![
        UserEntry { id: "alice".to_owned(), password: "secret".to_owned() },
        UserEntry { id: "bob".to_owned(), password: "".to_owned() },
    ]))
}

fn credentials(user_id: &str, password: Option<&str>) -> Option<BasicCredentials> {
    Some(BasicCredentials { user_id: user_id.to_owned(), password: password.map(str::to_owned) })
}

#[test]
fn valid_credentials_resolve_to_their_identity() {
    let middleware = AuthenticationMiddleware::new(provider());
    let inner = middleware.new_transform("service").unwrap();
    assert_eq!(*inner.service, "service");
    assert_eq!(inner.call(credentials("alice", Some("secret"))).unwrap().id, "alice");
    assert_eq!(inner.call(credentials("bob", Some(""))).unwrap().id, "bob");
}

#[test]
fn a_request_without_valid_credentials_goes_on_without_identity() {
    let middleware = AuthenticationMiddleware::new(provider());
    let inner = middleware.new_transform(()).unwrap();
    assert!(inner.call(None).is_none());
    assert!(inner.call(credentials("alice", None)).is_none());
    assert!(inner.call(credentials("alice", Some("wrong"))).is_none());
    assert!(inner.call(credentials("carol", Some("secret"))).is_none());
    assert!(inner.call(credentials("", Some(""))).is_none());
}

#[test]
fn the_provider_is_shared_with_the_inner_middleware() {
    let shared = provider();
    let middleware = AuthenticationMiddleware::new(Arc::clone(&shared));
    assert!(Arc::ptr_eq(&middleware.auth_provider, &shared));
    let inner = middleware.new_transform(0u8).unwrap();
    assert!(Arc::ptr_eq(&inner.auth_provider, &shared));
}

#[test]
fn the_static_provider_knows_its_list() {
    let store = provider();
    assert_eq!(store.validate_user_token("alice", "secret").unwrap().unwrap().id, "alice");
    assert!(store.validate_user_token("alice", "Secret").unwrap().is_none());
    assert!(store.validate_user_token("alice", "").unwrap().is_none());
    assert!(StaticUserStore::new(vec![]).validate_user_token("alice", "secret").unwrap().is_none());
}

#[test]
fn privilege_sets() {
    assert!(UserPrivilegeSet::all().has(&UserPrivilege::Read));
    assert!(UserPrivilegeSet::all().has(&UserPrivilege::Write));
    assert!(!UserPrivilegeSet::none().has(&UserPrivilege::Read));
    assert!(!UserPrivilegeSet::none().has(&UserPrivilege::Write));
    assert!(UserPrivilegeSet::read_only().has(&UserPrivilege::Read));
    assert!(!UserPrivilegeSet::read_only().has(&UserPrivilege::Write));
    assert_eq!(UserPrivilegeSet::owner_only(true), UserPrivilegeSet::all());
    assert_eq!(UserPrivilegeSet::owner_only(false), UserPrivilegeSet::none());
}

#[test]
fn each_failure_has_its_status() {
    use_status(Error::Unauthorized, 401);
    use_status(Error::NotFound, 404);
    use_status(Error::Conflict, 409);
    use_status(Error::BadRequest, 400);
    use_status(Error::XmlDeserializationError(rustical::error::XmlDeError::Eof), 400);
    use_status(Error::PropReadOnly, 409);
    use_status(Error::InternalError, 500);
    use_status(Error::NotImplemented, 501);
}

fn use_status(error: Error, status: u16) {
    assert_eq!(error.status_code(), status);
}
