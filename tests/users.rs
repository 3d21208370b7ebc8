use fib_service::users::{
    get_user, get_users, update_user, User, UserDirectory, UserError, UserState,
};
use serde_json::Value;
use std::sync::{Arc, RwLock};

fn user(id: &str, name: &str, age: u8) -> User {
    User::new(String::from(id), String::from(name), age)
}

fn record(u: &User) -> Value {
    let mut m = serde_json::Map::new();
    m.insert(String::from("id"), Value::String(u.id.clone()));
    m.insert(String::from("name"), Value::String(u.name.clone()));
    m.insert(String::from("age"), Value::from(u.age));
    Value::Object(m)
}

fn pretty_one(u: User) -> String {
    serde_json::to_string_pretty(&record(&u)).unwrap()
}

fn pretty_all(us: Vec<User>) -> String {
    serde_json::to_string_pretty(&Value::Array(us.iter().map(record).collect())).unwrap()
}

fn state_with(us: Vec<User>) -> UserState {
    let mut d = UserDirectory::new();
    for u in us {
        d.upsert(u);
    }
    Arc::new(RwLock::new(d))
}

#[test]
fn test_get_users() {
    let users = state_with(vec![user("test", "John", 31)]);
    let result = get_users(users).map(pretty_all);
    assert_eq!(
        result,
        Ok(String::from(
            r#"[
  {
    "id": "test",
    "name": "John",
    "age": 31
  }
]"#
        ))
    )
}

#[test]
fn test_get_user_ok() {
    let users = state_with(vec![user("test", "John", 31)]);
    let result = get_user(users, String::from("test")).map(pretty_one);
    assert_eq!(
        result,
        Ok(String::from(
            r#"{
  "id": "test",
  "name": "John",
  "age": 31
}"#
        ))
    )
}

#[test]
fn test_get_user_unknown() {
    let users = state_with(vec![user("test", "John", 31)]);
    let result = get_user(users, String::from("john")).map(pretty_one);
    assert_eq!(result, Err(UserError::UnknownUser))
}

#[test]
fn test_update_user_new() {
    let users = state_with(vec![]);
    update_user(Arc::clone(&users), user("test", "John", 31)).unwrap();
    let result = get_users(users).map(pretty_all);
    assert_eq!(
        result,
        Ok(String::from(
            r#"[
  {
    "id": "test",
    "name": "John",
    "age": 31
  }
]"#
        ))
    )
}

#[test]
fn test_update_user_existing() {
    let users = state_with(vec![user("test", "John", 31)]);
    update_user(Arc::clone(&users), user("test", "John", 21)).unwrap();
    let result = get_users(users).map(pretty_all);
    assert_eq!(
        result,
        Ok(String::from(
            r#"[
  {
    "id": "test",
    "name": "John",
    "age": 21
  }
]"#
        ))
    )
}

#[test]
fn upsert_then_get_returns_record() {
    let users = state_with(vec![]);
    update_user(Arc::clone(&users), user("u1", "Ann", 30)).unwrap();
    let result = get_user(users, String::from("u1")).map(pretty_one);
    assert_eq!(
        result,
        Ok(String::from("{\n  \"id\": \"u1\",\n  \"name\": \"Ann\",\n  \"age\": 30\n}"))
    );
}

#[test]
fn upsert_replaces_every_field() {
    let mut d = UserDirectory::new();
    d.upsert(user("a", "Ann", 30));
    d.upsert(user("a", "Bob", 7));
    let got = d.get("a").unwrap();
    assert_eq!((got.name.as_str(), got.age), ("Bob", 7));
}

#[test]
fn list_holds_each_id_once_at_latest() {
    let mut d = UserDirectory::new();
    d.upsert(user("a", "Ann", 1));
    d.upsert(user("b", "Bea", 2));
    d.upsert(user("a", "Amy", 3));
    d.upsert(user("", "Empty", 255));
    let mut got: Vec<(String, String, u8)> =
        d.list().into_iter().map(|u| (u.id, u.name, u.age)).collect();
    got.sort();
    assert_eq!(
        got,
        vec![
            (String::from(""), String::from("Empty"), 255),
            (String::from("a"), String::from("Amy"), 3),
            (String::from("b"), String::from("Bea"), 2),
        ]
    );
}

#[test]
fn unknown_ids_are_unknown() {
    let mut d = UserDirectory::new();
    assert_eq!(d.get("x").unwrap_err(), UserError::UnknownUser);
    d.upsert(user("x", "X", 0));
    assert_eq!(d.get("X").unwrap_err(), UserError::UnknownUser);
    assert_eq!(d.get("x ").unwrap_err(), UserError::UnknownUser);
}

#[test]
fn user_error_messages() {
    assert_eq!(UserError::LockError.message(), "unable to lock user state");
    assert_eq!(UserError::SerializationError.message(), "failed to serialize user list");
    assert_eq!(UserError::UnknownUser.message(), "user does not exist for the given ID");
}

fn snapshot(d: &UserDirectory) -> Vec<(String, String, u8)> {
    let mut v: Vec<(String, String, u8)> = d.list().into_iter().map(|u| (u.id, u.name, u.age)).collect();
    v.sort();
    v
}

#[test]
fn repeating_an_upsert_changes_nothing() {
    let mut d = UserDirectory::new();
    d.upsert(user("a", "Ann", 1));
    d.upsert(user("b", "Bea", 2));
    let once = snapshot(&d);
    d.upsert(user("b", "Bea", 2));
    assert_eq!(snapshot(&d), once);
}

#[test]
fn upserts_to_distinct_ids_commute() {
    let mut d1 = UserDirectory::new();
    let mut d2 = UserDirectory::new();
    d1.upsert(user("a", "Ann", 1));
    d2.upsert(user("a", "Ann", 1));
    d1.upsert(user("b", "Bea", 2));
    d1.upsert(user("c", "Cy", 3));
    d2.upsert(user("c", "Cy", 3));
    d2.upsert(user("b", "Bea", 2));
    assert_eq!(snapshot(&d1), snapshot(&d2));
}
