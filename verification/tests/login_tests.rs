use my_ssh::login::UserLogin;
use my_ssh::registry::{registry_insert, registry_remove};

fn password_file(user: &str, password: &str) -> String {
    let hash = bcrypt::hash(password, 4).expect("hashing");
    format!("{} {}", user, hash)
}

#[test]
fn successful_login_names_the_user() {
    let passwords = password_file("alice", "secret");
    let login = UserLogin::new("login alice secret\n".to_string(), passwords, Vec::new());
    assert_eq!(login.get_login_status(), Ok("alice".to_string()));
}

#[test]
fn wrong_password_is_rejected() {
    let passwords = password_file("alice", "secret");
    let login = UserLogin::new("login alice wrong\n".to_string(), passwords, Vec::new());
    assert_eq!(
        login.get_login_status(),
        Err("?&EIncorrect password[-]:[-]\r\n\r\n".to_string())
    );
}

#[test]
fn unknown_user_is_rejected() {
    let passwords = password_file("alice", "secret");
    let login = UserLogin::new("login bob secret\n".to_string(), passwords, Vec::new());
    assert_eq!(
        login.get_login_status(),
        Err("?&EInvalid username[-]:[-]\r\n\r\n".to_string())
    );
}

#[test]
fn duplicate_login_is_rejected() {
    let passwords = password_file("alice", "secret");
    let login = UserLogin::new(
        "login alice secret\n".to_string(),
        passwords,
        vec!["alice".to_string()],
    );
    assert_eq!(
        login.get_login_status(),
        Err("?&EUser already logged in[-]:[-]\r\n\r\n".to_string())
    );
}

#[test]
fn name_contained_in_another_user_may_still_sign_in() {
    // Only an entry equal to the name counts as already signed in.
    let passwords = password_file("ali", "secret");
    let login = UserLogin::new(
        "login ali secret\n".to_string(),
        passwords,
        vec!["alice".to_string()],
    );
    assert_eq!(login.get_login_status(), Ok("ali".to_string()));
}

#[test]
fn malformed_login_is_rejected() {
    let passwords = password_file("alice", "secret");
    let login = UserLogin::new("login alice\n".to_string(), passwords, Vec::new());
    assert_eq!(
        login.get_login_status(),
        Err("?&EInvalid format:>login [USERNAME] [PASSWORD] [-]:[-]\r\n\r\n".to_string())
    );
}

#[test]
fn other_commands_before_login_are_rejected() {
    let login = UserLogin::new("ls\n".to_string(), String::new(), Vec::new());
    assert_eq!(
        login.get_login_status(),
        Err(
            "?&EError: You are not connected. Please connect before sending a command[-]:[-]\r\n\r\n"
                .to_string(),
        )
    );
}

#[test]
fn duplicate_password_entries_last_one_wins() {
    let first = bcrypt::hash("old", 4).expect("hashing");
    let second = bcrypt::hash("new", 4).expect("hashing");
    let passwords = format!("alice {}\nalice {}", first, second);
    let stale = UserLogin::new(
        "login alice old".to_string(),
        passwords.clone(),
        Vec::new(),
    );
    assert!(stale.get_login_status().is_err());
    let fresh = UserLogin::new("login alice new".to_string(), passwords, Vec::new());
    assert_eq!(fresh.get_login_status(), Ok("alice".to_string()));
}

#[test]
fn registry_insert_and_remove_round_trip() {
    let mut users: Vec<String> = vec!["bob".to_string()];
    registry_insert(&mut users, "alice".to_string());
    assert_eq!(users, vec!["bob".to_string(), "alice".to_string()]);
    registry_remove(&mut users, "alice");
    assert_eq!(users, vec!["bob".to_string()]);
    registry_remove(&mut users, "carol");
    assert_eq!(users, vec!["bob".to_string()]);
}
