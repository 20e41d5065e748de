use session_gate::account::{AccountType, User};
use session_gate::api::{
    claim_session, insert, referenced, Database, MutationRoot, SessionMutation, UserMutation,
};
use session_gate::gate::{attach, forgets_cookie, login, Auth};
use session_gate::resolver::AuthFailure;
use session_gate::secrets::{check_password, hash_password, is_checkable};
use session_gate::store::CredentialStore;
use session_gate::token::{Credential, Transport};
use session_gate::profile::update_current_user;
use session_gate::identity::Identity;
use session_gate::profile::{prepare_update, UpdateError, UpdateUser};
use session_gate::resources::{Assessment, Note, Subject, Todo};
use session_gate::assessment::{AssessmentStatus, DuePeriod};
use session_gate::table::{check_owner, AccessError, Table};
use session_gate::gate::{decide_login, judge_login, LoginError};

fn acting(id: i32) -> Auth {
    Auth::Authenticated(
        User {
            id,
            username: format!("user{id}"),
            name: String::new(),
            email: format!("user{id}@example.org"),
            account_type: AccountType::User,
            created_at: 0,
            require_password_change: false,
        },
        id,
    )
}

fn todo(title: &str, parent: Option<i32>, subject: Option<i32>) -> Todo {
    Todo {
        id: 0,
        owner: 0,
        title: title.to_string(),
        completed: false,
        subject,
        parent,
        due: None,
        archived: false,
    }
}

fn subject(name: &str) -> Subject {
    Subject {
        id: 0,
        owner: 0,
        name: name.to_string(),
        class: "10A".to_string(),
        active: true,
        google_classroom_id: None,
    }
}

#[test]
fn references_between_rows_are_followed() {
    let mut db = Database::new();
    let alice = acting(1);
    let maths = MutationRoot.create_subject(&mut db, &alice, subject("Maths")).unwrap();
    let root = MutationRoot.create_todo(&mut db, &alice, todo("root", None, Some(maths.id))).unwrap();
    let handle = MutationRoot.todo(&db, &alice, root.id).unwrap();
    let first = handle.create_child(&mut db.todos, &alice, todo("first", None, None)).unwrap();
    let second = handle.create_child(&mut db.todos, &alice, todo("second", None, None)).unwrap();
    let deep = insert(&mut db.todos, &alice, todo("deep", Some(first.id), None)).unwrap();

    assert_eq!(root.subject(&db).unwrap().unwrap().name, "Maths");
    assert!(first.subject(&db).unwrap().is_none());
    assert!(root.parent(&db).unwrap().is_none());
    assert_eq!(deep.parent(&db).unwrap().unwrap().id, first.id);
    let children: Vec<i32> = root.children(&db).iter().map(|t| t.id).collect();
    assert_eq!(children, vec![first.id, second.id]);
    assert!(deep.children(&db).is_empty());

    let dangling = todo("dangling", Some(99), Some(77));
    assert_eq!(dangling.subject(&db).err(), Some(AccessError::Fault));
    assert_eq!(dangling.parent(&db).err(), Some(AccessError::Fault));
    assert_eq!(referenced(&db.todos, Some(99)).err(), Some(AccessError::Fault));
    assert!(referenced(&db.todos, None).unwrap().is_none());
    assert_eq!(db.todos.find(second.id).unwrap().title, "second");
    assert!(db.todos.find(99).is_none());
    assert_eq!(db.todos.children(first.id).len(), 1);
}

#[test]
fn notes_and_assessments_name_their_subject() {
    let mut db = Database::new();
    let alice = acting(1);
    let maths = MutationRoot.create_subject(&mut db, &alice, subject("Maths")).unwrap();
    let note = Note {
        id: 0,
        owner: 0,
        date: 19_000,
        title: "n".to_string(),
        subject: Some(maths.id),
        content: "{}".to_string(),
    };
    assert_eq!(note.subject(&db).unwrap().unwrap().id, maths.id);
    let loose = Note { subject: None, ..note.clone() };
    assert!(loose.subject(&db).unwrap().is_none());
    let mut row = Assessment {
        id: 0,
        owner: 1,
        subject: maths.id,
        title: "Exam".to_string(),
        exam: true,
        status: AssessmentStatus::NotIssued,
        weight: 10,
        due: 19_100,
        due_period: DuePeriod::One,
        issued: None,
        mark_out_of: None,
        mark: None,
        notification: None,
        submission: None,
        reference: None,
    };
    assert_eq!(row.subject(&db).unwrap().name, "Maths");
    row.subject = 12;
    assert_eq!(row.subject(&db).err(), Some(AccessError::Fault));
}

#[test]
fn ownership_of_a_looked_up_row() {
    assert_eq!(check_owner(None, 1), Err(AccessError::NotFound));
    assert_eq!(check_owner(Some(2), 1), Err(AccessError::Forbidden));
    assert_eq!(check_owner(Some(1), 1), Ok(()));
    let mut table: Table<Todo> = Table::new();
    let made = insert(&mut table, &acting(5), todo("x", None, None)).unwrap();
    assert_eq!(table.authorize(made.id, 5), Ok(0));
    assert_eq!(table.authorize(made.id, 6), Err(AccessError::Forbidden));
    assert_eq!(table.authorize(made.id + 1, 5), Err(AccessError::NotFound));
    assert_eq!(table.position(made.id), Some(0));
    assert_eq!(table.position(made.id + 1), None);
}

#[test]
fn login_decisions() {
    assert_eq!(decide_login(true, Some(Some(true))), Err(LoginError::AlreadyAuthenticated));
    assert_eq!(decide_login(true, None), Err(LoginError::AlreadyAuthenticated));
    assert_eq!(decide_login(false, None), Err(LoginError::InvalidCredentials));
    assert_eq!(decide_login(false, Some(Some(false))), Err(LoginError::InvalidCredentials));
    assert_eq!(decide_login(false, Some(None)), Err(LoginError::Fault));
    assert_eq!(decide_login(false, Some(Some(true))), Ok(()));
    assert_eq!(judge_login(false, "pw", None), Err(LoginError::InvalidCredentials));
    assert_eq!(judge_login(false, "pw", Some("garbage")), Err(LoginError::Fault));
    assert_eq!(judge_login(true, "pw", Some("garbage")), Err(LoginError::AlreadyAuthenticated));
    let hash = prepare_update(UpdateUser {
        username: None,
        name: None,
        email: None,
        password: Some("pw".to_string()),
    })
    .unwrap()
    .password
    .unwrap();
    assert_eq!(judge_login(false, "pw", Some(&hash)), Ok(()));
    assert_eq!(judge_login(false, "pW", Some(&hash)), Err(LoginError::InvalidCredentials));
    assert_eq!(judge_login(false, &hash, Some(&hash)), Err(LoginError::InvalidCredentials));
}

#[test]
fn prepared_updates_carry_the_hash_not_the_password() {
    let update = UpdateUser {
        username: Some("alice".to_string()),
        name: None,
        email: Some("alice@example.org".to_string()),
        password: Some("Secr3t!".to_string()),
    };
    let patch = prepare_update(update).unwrap();
    assert_eq!(patch.username.as_deref(), Some("alice"));
    assert_eq!(patch.name, None);
    assert_eq!(patch.email.as_deref(), Some("alice@example.org"));
    let hash = patch.password.unwrap();
    assert_ne!(hash, "Secr3t!");
    assert!(hash.starts_with("$argon2"));
    let again = prepare_update(UpdateUser {
        username: None,
        name: None,
        email: None,
        password: Some("Secr3t!".to_string()),
    })
    .unwrap();
    assert_ne!(again.password.unwrap(), hash);
    let plain =
        prepare_update(UpdateUser { username: None, name: None, email: None, password: None })
            .unwrap();
    assert_eq!(plain.password, None);
    let bad = prepare_update(UpdateUser {
        username: None,
        name: None,
        email: Some("nobody".to_string()),
        password: None,
    });
    assert_eq!(bad.err(), Some(UpdateError::BadRequest));
}

#[test]
fn account_handle_changes_the_profile() {
    let mut db = Database::new();
    let user = db
        .credentials
        .register(
            "alice".to_string(),
            "Alice".to_string(),
            "alice@example.org".to_string(),
            "-".to_string(),
            AccountType::User,
            0,
        )
        .unwrap();
    let handle = UserMutation(user.id);
    let changed = handle
        .change(
            &mut db.credentials,
            UpdateUser {
                username: None,
                name: Some("Alice A.".to_string()),
                email: None,
                password: Some("Secr3t!".to_string()),
            },
        )
        .unwrap();
    assert_eq!(changed.name, "Alice A.");
    let none = Identity::unknown();
    assert!(login(&mut db.credentials, &Auth::Anonymous, "alice", "Secr3t!", &none, 1).is_ok());
    let bad = handle.change(
        &mut db.credentials,
        UpdateUser { username: Some(String::new()), name: None, email: None, password: None },
    );
    assert_eq!(bad.err(), Some(UpdateError::BadRequest));
}

const TOO_MANY_LANES: &str =
    "$argon2id$v=19$m=4294967295,t=1,p=536870912$c29tZXNhbHRzb21lc2FsdA$aGFzaGhhc2hoYXNoaGFzaGhhc2hoYXNo";

#[test]
fn hashes_with_lanes_out_of_range_are_not_handed_to_the_check() {
    assert!(!is_checkable(TOO_MANY_LANES));
    assert!(!is_checkable("p=123456789"));
    assert!(!is_checkable("$x$m=1,p=4294967295$a$b"));
    assert!(!is_checkable("xp=0000000000"));
    assert!(!is_checkable("$argon2id$p=1$\u{e9}"));
    assert!(is_checkable("p=12345678"));
    assert!(is_checkable("p=12345678,t=123456789"));
    assert!(is_checkable("$argon2id$v=19$m=19456,t=2,p=16777215$c29tZXNhbHQ$aGFzaA"));
    assert!(is_checkable("p=1234x56789"));
    assert!(is_checkable("p"));
    assert!(is_checkable("p="));
    assert!(is_checkable(""));
    assert!(is_checkable("not-a-hash"));
    assert_eq!(check_password("pw", TOO_MANY_LANES), None);
    assert_eq!(check_password("pw", "not-a-hash"), None);
    assert_eq!(check_password("pw", ""), None);
    assert_eq!(judge_login(false, "pw", Some(TOO_MANY_LANES)), Err(LoginError::Fault));
    let mut store = CredentialStore::new();
    store
        .register(
            "mallory".to_string(),
            "M".to_string(),
            "mallory@example.org".to_string(),
            TOO_MANY_LANES.to_string(),
            AccountType::User,
            0,
        )
        .unwrap();
    let none = Identity::unknown();
    let r = login(&mut store, &Auth::Anonymous, "mallory", "pw", &none, 1);
    assert_eq!(r.err(), Some(LoginError::Fault));
    assert!(store.sessions.is_empty());
}

#[test]
fn a_fresh_hash_checks_against_its_password_only() {
    let hash = hash_password("Secr3t!").unwrap();
    assert!(hash.starts_with("$argon2id$"));
    assert!(is_checkable(&hash));
    assert_eq!(check_password("Secr3t!", &hash), Some(true));
    assert_eq!(check_password("secr3t!", &hash), Some(false));
    assert_eq!(check_password("", &hash), Some(false));
    let empty = hash_password("").unwrap();
    assert_eq!(check_password("", &empty), Some(true));
    assert_ne!(hash_password("Secr3t!").unwrap(), hash);
}

#[test]
fn a_new_password_comes_with_the_other_fields() {
    let mut store = CredentialStore::new();
    for name in ["alice", "bob"] {
        store
            .register(
                name.to_string(),
                name.to_string(),
                format!("{name}@example.org"),
                "-".to_string(),
                AccountType::User,
                0,
            )
            .unwrap();
    }
    store.users[0].user.require_password_change = true;
    let update = UpdateUser {
        username: Some("alicia".to_string()),
        name: Some("Alicia".to_string()),
        email: Some("alicia@example.org".to_string()),
        password: Some("Secr3t!".to_string()),
    };
    let changed = update_current_user(&mut store, 1, update).unwrap();
    assert_eq!(changed.id, 1);
    assert_eq!(changed.username, "alicia");
    assert_eq!(changed.name, "Alicia");
    assert_eq!(changed.email, "alicia@example.org");
    assert!(!changed.require_password_change);
    assert_eq!(store.users[0].user.username, "alicia");
    assert_eq!(store.users[0].user.name, "Alicia");
    assert_eq!(store.users[0].user.email, "alicia@example.org");
    assert_eq!(check_password("Secr3t!", &store.users[0].password), Some(true));
    assert_eq!(store.users[1].user.username, "bob");
    assert_eq!(store.users[1].password, "-");
    let none = Identity::unknown();
    assert!(login(&mut store, &Auth::Anonymous, "alicia", "Secr3t!", &none, 1).is_ok());
    assert_eq!(
        login(&mut store, &Auth::Anonymous, "alice", "Secr3t!", &none, 1).err(),
        Some(LoginError::InvalidCredentials)
    );
    let only_name =
        UpdateUser { username: None, name: Some("A.".to_string()), email: None, password: None };
    let changed = update_current_user(&mut store, 1, only_name).unwrap();
    assert_eq!(changed.name, "A.");
    assert_eq!(changed.username, "alicia");
    assert_eq!(check_password("Secr3t!", &store.users[0].password), Some(true));
}

#[test]
fn outcomes_become_callers() {
    let user = match acting(3) {
        Auth::Authenticated(user, _) => user,
        Auth::Anonymous => unreachable!(),
    };
    let attached = attach(Ok(user.clone()), Credential::Session(9)).unwrap();
    assert!(matches!(attached, Auth::Authenticated(u, 9) if u.id == 3));
    assert!(matches!(attach(Ok(user.clone()), Credential::Absent), Ok(Auth::Anonymous)));
    assert!(matches!(attach(Ok(user.clone()), Credential::Invalid), Ok(Auth::Anonymous)));
    for failure in
        [AuthFailure::Unauthorized, AuthFailure::InvalidCredential, AuthFailure::SessionNotFound]
    {
        assert!(matches!(attach(Err(failure), Credential::Session(9)), Ok(Auth::Anonymous)));
    }
    assert_eq!(
        attach(Err(AuthFailure::IntegrityError), Credential::Session(9)).err(),
        Some(AuthFailure::IntegrityError)
    );
    assert!(forgets_cookie(&Err(AuthFailure::SessionNotFound), Transport::Cookie));
    assert!(!forgets_cookie(&Err(AuthFailure::SessionNotFound), Transport::Bearer));
    assert!(!forgets_cookie(&Err(AuthFailure::InvalidCredential), Transport::Cookie));
    assert!(!forgets_cookie(&Err(AuthFailure::Unauthorized), Transport::Cookie));
    assert!(!forgets_cookie(&Ok(user), Transport::Cookie));
}

#[test]
fn sessions_are_claimed_by_their_user_only() {
    assert_eq!(claim_session(Some(1), 1, 7), Ok(SessionMutation(7)));
    assert_eq!(claim_session(Some(2), 1, 7), Err(AccessError::NotFound));
    assert_eq!(claim_session(None, 1, 7), Err(AccessError::NotFound));
}

#[test]
fn a_created_todo_hangs_under_no_other() {
    let mut db = Database::new();
    let alice = acting(1);
    let bob = acting(2);
    let foreign = MutationRoot.create_todo(&mut db, &bob, todo("bob's", None, None)).unwrap();
    let made =
        MutationRoot.create_todo(&mut db, &alice, todo("Buy milk", Some(foreign.id), None)).unwrap();
    assert_eq!(made.parent, None);
    assert_eq!(made.owner, 1);
    assert_eq!(made.id, 2);
    assert_eq!(made.title, "Buy milk");
    assert!(!made.completed);
    assert!(!made.archived);
    assert_eq!(made.due, None);
    assert_eq!(made.subject, None);
    assert_eq!(db.todos.rows.len(), 2);
    assert_eq!(db.todos.rows[1].parent, None);
    assert_eq!(
        MutationRoot.todo(&db, &alice, foreign.id).err(),
        Some(AccessError::Forbidden)
    );
}
