use session_gate::account::{AccountType, InvalidAccountType, User};
use session_gate::api::{
    fetch_all, fetch_one, get_document, insert, modify, remove, save, Database, MutationRoot,
    QueryRoot, SessionMutation, UserMutation,
};
use session_gate::assessment::{AssessmentStatus, DuePeriod, OutOfRange};
use session_gate::gate::Auth;
use session_gate::identity::Identity;
use session_gate::profile::{
    apply_update, check_update, update_current_user, update_status, UpdateError, UpdateUser,
};
use session_gate::resources::{
    Assessment, Document, DocumentBody, DocumentPatch, MissingTitle, Note, NotePatch,
    PartialDocument, Subject, SubjectPatch, Todo, TodoPatch,
};
use session_gate::store::{CredentialStore, ProfilePatch, StoreError};
use session_gate::table::{access_status, AccessError, Table};
use session_gate::token::{bearer_text, parse_session_id, HeaderError};

fn user(id: i32, name: &str) -> User {
    User {
        id,
        username: name.to_string(),
        name: name.to_string(),
        email: format!("{name}@example.org"),
        account_type: AccountType::User,
        created_at: 0,
        require_password_change: false,
    }
}

fn acting(id: i32, name: &str) -> Auth {
    Auth::Authenticated(user(id, name), 1)
}

fn todo(title: &str, parent: Option<i32>) -> Todo {
    Todo {
        id: -1,
        owner: -1,
        title: title.to_string(),
        completed: false,
        subject: None,
        parent,
        due: None,
        archived: false,
    }
}

#[test]
fn account_types_by_number() {
    assert_eq!(AccountType::try_from(0), Ok(AccountType::User));
    assert_eq!(AccountType::try_from(1), Ok(AccountType::Admin));
    assert_eq!(AccountType::try_from(2), Err(InvalidAccountType(2)));
    assert_eq!(AccountType::try_from(255).unwrap_err().value(), 255);
    assert_eq!(AccountType::from(0), AccountType::User);
    assert_eq!(AccountType::from(1), AccountType::Admin);
    assert_eq!(AccountType::checked_from(-1), None);
    assert_eq!(AccountType::checked_from(256), None);
    assert_eq!(AccountType::checked_from(1), Some(AccountType::Admin));
    assert_eq!(AccountType::User.to_u8(), 0);
    assert_eq!(AccountType::Admin.to_u8(), 1);
}

#[test]
fn assessment_status_by_number() {
    let all = [
        AssessmentStatus::NotIssued,
        AssessmentStatus::NotStarted,
        AssessmentStatus::InProgress,
        AssessmentStatus::Finished,
        AssessmentStatus::ResultsReceived,
    ];
    for (n, status) in all.iter().enumerate() {
        assert_eq!(AssessmentStatus::try_from(n as u8), Ok(*status));
        assert_eq!(AssessmentStatus::from(n as i16), *status);
        assert_eq!(status.to_u8(), n as u8);
    }
    assert_eq!(AssessmentStatus::try_from(5), Err(OutOfRange));
    assert_eq!(AssessmentStatus::try_from(255), Err(OutOfRange));
    assert_eq!(AssessmentStatus::checked_from(-1), None);
    assert_eq!(AssessmentStatus::checked_from(5), None);
    assert_eq!(AssessmentStatus::checked_from(4), Some(AssessmentStatus::ResultsReceived));
}

#[test]
fn due_period_by_number() {
    let all = [
        DuePeriod::BS,
        DuePeriod::RC,
        DuePeriod::One,
        DuePeriod::Two,
        DuePeriod::Three,
        DuePeriod::Four,
        DuePeriod::AS,
        DuePeriod::Midnight,
    ];
    for (n, period) in all.iter().enumerate() {
        assert_eq!(DuePeriod::try_from(n as u8), Ok(*period));
        assert_eq!(DuePeriod::from(n as i16), *period);
        assert_eq!(period.to_u8(), n as u8);
    }
    assert_eq!(DuePeriod::try_from(8), Err(OutOfRange));
    assert_eq!(DuePeriod::checked_from(8), None);
    assert_eq!(DuePeriod::checked_from(-3), None);
    assert_eq!(DuePeriod::checked_from(7), Some(DuePeriod::Midnight));
}

#[test]
fn users_are_equal_by_id() {
    let a = user(1, "alice");
    let mut b = user(1, "bob");
    assert!(a == b);
    b.id = 2;
    assert!(a != b);
    assert!(a.has_id(1));
    assert!(!a.has_id(2));
    let c = a.clone();
    assert_eq!(c.username, "alice");
    assert_eq!(c.email, "alice@example.org");
}

#[test]
fn identity_strings() {
    let id = Identity::new(Some("::1".to_string()), None);
    assert_eq!(id.ip_string().as_deref(), Some("::1"));
    assert_eq!(id.agent_string(), None);
    assert_eq!(Identity::unknown().ip_string(), None);
}

#[test]
fn session_ids_from_text() {
    assert_eq!(parse_session_id("42"), Some(42));
    assert_eq!(parse_session_id("0"), Some(0));
    assert_eq!(parse_session_id("007"), Some(7));
    assert_eq!(parse_session_id("+5"), Some(5));
    assert_eq!(parse_session_id("-7"), Some(-7));
    assert_eq!(parse_session_id("2147483647"), Some(i32::MAX));
    assert_eq!(parse_session_id("2147483648"), None);
    assert_eq!(parse_session_id("-2147483648"), Some(i32::MIN));
    assert_eq!(parse_session_id("-2147483649"), None);
    assert_eq!(parse_session_id("99999999999999999999999"), None);
    assert_eq!(parse_session_id(""), None);
    assert_eq!(parse_session_id("-"), None);
    assert_eq!(parse_session_id("+"), None);
    assert_eq!(parse_session_id("12a"), None);
    assert_eq!(parse_session_id(" 12"), None);
    assert_eq!(parse_session_id("1-2"), None);
    assert_eq!(parse_session_id("\u{663}"), None);
    for text in ["42", "-7", "+5", "2147483648", "", "-", "x", "00", "-0"] {
        assert_eq!(parse_session_id(text), text.parse::<i32>().ok());
    }
}

#[test]
fn bearer_text_of_headers() {
    assert_eq!(bearer_text("Bearer abc"), Ok("abc"));
    assert_eq!(bearer_text("Bearer   abc \t\r\n"), Ok("abc"));
    assert_eq!(bearer_text("Bearer a b"), Ok("a b"));
    assert_eq!(bearer_text("Bearer "), Ok(""));
    assert_eq!(bearer_text("Bearer    "), Ok(""));
    assert_eq!(bearer_text("Bearer"), Err(HeaderError::Malformed));
    assert_eq!(bearer_text("bearer abc"), Err(HeaderError::Malformed));
    assert_eq!(bearer_text("Basic abc"), Err(HeaderError::Malformed));
    assert_eq!(bearer_text(""), Err(HeaderError::Malformed));
    assert_eq!(bearer_text("Bearer\tabc"), Err(HeaderError::Malformed));
    assert_eq!(bearer_text("Bearer ab\u{e9}"), Err(HeaderError::NotAscii));
    assert_eq!(bearer_text("B\u{e9}arer abc"), Err(HeaderError::Malformed));
}

#[test]
fn rows_are_created_for_the_caller_only() {
    let mut table: Table<Todo> = Table::new();
    let alice = acting(1, "alice");
    let mut draft = todo("Buy milk", None);
    draft.owner = 2;
    draft.id = 77;
    let made = insert(&mut table, &alice, draft).unwrap();
    assert_eq!(made.id, 1);
    assert_eq!(made.owner, 1);
    assert_eq!(made.title, "Buy milk");
    assert_eq!(table.rows.len(), 1);
    assert_eq!(table.rows[0].owner, 1);
    assert_eq!(table.next_id, 2);
    let refused = insert(&mut table, &Auth::Anonymous, todo("x", None));
    assert_eq!(refused.err(), Some(AccessError::Unauthorized));
    assert_eq!(table.rows.len(), 1);
}

#[test]
fn table_without_free_id_refuses() {
    let mut table: Table<Todo> = Table::new();
    table.next_id = i32::MAX;
    assert_eq!(table.create(1, todo("x", None)).err(), Some(AccessError::Fault));
    assert!(table.rows.is_empty());
    assert_eq!(access_status(AccessError::Fault), 500);
}

#[test]
fn foreign_rows_are_forbidden() {
    let mut table: Table<Todo> = Table::new();
    let alice = acting(1, "alice");
    let bob = acting(2, "bob");
    let made = insert(&mut table, &alice, todo("Buy milk", None)).unwrap();
    assert_eq!(fetch_one(&table, &bob, made.id).err(), Some(AccessError::Forbidden));
    assert_eq!(fetch_one(&table, &bob, 99).err(), Some(AccessError::NotFound));
    assert_eq!(fetch_one(&table, &Auth::Anonymous, made.id).err(), Some(AccessError::Unauthorized));
    let mut patch = TodoPatch::empty();
    patch.title = Some("Stolen".to_string());
    assert_eq!(modify(&mut table, &bob, made.id, patch).err(), Some(AccessError::Forbidden));
    assert_eq!(remove(&mut table, &bob, made.id).err(), Some(AccessError::Forbidden));
    assert_eq!(table.get(made.id, 2).err(), Some(AccessError::Forbidden));
    assert_eq!(table.rows.len(), 1);
    assert_eq!(table.rows[0].title, "Buy milk");
    assert_eq!(fetch_one(&table, &alice, made.id).unwrap().title, "Buy milk");
    assert!(fetch_all(&table, &bob).unwrap().is_empty());
    assert_eq!(fetch_all(&table, &alice).unwrap().len(), 1);
    assert_eq!(fetch_all(&table, &Auth::Anonymous).err(), Some(AccessError::Unauthorized));
    assert_eq!(access_status(AccessError::Unauthorized), 401);
    assert_eq!(access_status(AccessError::Forbidden), 403);
    assert_eq!(access_status(AccessError::NotFound), 404);
}

#[test]
fn updates_of_different_fields_both_stay() {
    let mut table: Table<Todo> = Table::new();
    let alice = acting(1, "alice");
    let made = insert(&mut table, &alice, todo("Buy milk", None)).unwrap();
    let mut first = TodoPatch::empty();
    first.title = Some("Buy oat milk".to_string());
    let mut second = TodoPatch::empty();
    second.completed = Some(true);
    let after_first = modify(&mut table, &alice, made.id, first).unwrap();
    assert_eq!(after_first.title, "Buy oat milk");
    assert!(!after_first.completed);
    let after_second = modify(&mut table, &alice, made.id, second).unwrap();
    assert_eq!(after_second.title, "Buy oat milk");
    assert!(after_second.completed);

    let mut other: Table<Todo> = Table::new();
    let made = insert(&mut other, &alice, todo("Buy milk", None)).unwrap();
    let mut first = TodoPatch::empty();
    first.title = Some("Buy oat milk".to_string());
    let mut second = TodoPatch::empty();
    second.completed = Some(true);
    modify(&mut other, &alice, made.id, second).unwrap();
    let swapped = modify(&mut other, &alice, made.id, first).unwrap();
    assert_eq!(swapped.title, after_second.title);
    assert_eq!(swapped.completed, after_second.completed);
    assert_eq!(swapped.archived, after_second.archived);
    assert_eq!(swapped.due, after_second.due);
}

#[test]
fn updates_of_the_same_field_last_one_wins() {
    let mut table: Table<Todo> = Table::new();
    let alice = acting(1, "alice");
    let made = insert(&mut table, &alice, todo("Buy milk", None)).unwrap();
    let mut first = TodoPatch::empty();
    first.title = Some("one".to_string());
    first.due = Some(Some(19_000));
    let mut second = TodoPatch::empty();
    second.title = Some("two".to_string());
    modify(&mut table, &alice, made.id, first).unwrap();
    let last = modify(&mut table, &alice, made.id, second).unwrap();
    assert_eq!(last.title, "two");
    assert_eq!(last.due, Some(19_000));
    let mut clear = TodoPatch::empty();
    clear.due = Some(None);
    assert_eq!(modify(&mut table, &alice, made.id, clear).unwrap().due, None);
    let same = modify(&mut table, &alice, made.id, TodoPatch::empty()).unwrap();
    assert_eq!(same.title, "two");
    assert_eq!(same.owner, 1);
    assert_eq!(same.id, made.id);
}

#[test]
fn deleting_a_todo_takes_its_descendants_along() {
    let mut table: Table<Todo> = Table::new();
    let alice = acting(1, "alice");
    let root = insert(&mut table, &alice, todo("root", None)).unwrap();
    let handle = MutationRoot.todo(
        &Database { todos: Table { rows: table.rows.clone(), next_id: table.next_id }, ..Database::new() },
        &alice,
        root.id,
    )
    .unwrap();
    let child = handle.create_child(&mut table, &alice, todo("child", None)).unwrap();
    assert_eq!(child.parent, Some(root.id));
    let grandchild = insert(&mut table, &alice, todo("grandchild", Some(child.id))).unwrap();
    let great = insert(&mut table, &alice, todo("great-grandchild", Some(grandchild.id))).unwrap();
    let sibling = insert(&mut table, &alice, todo("sibling", None)).unwrap();
    let nephew = insert(&mut table, &alice, todo("nephew", Some(sibling.id))).unwrap();
    let early = insert(&mut table, &alice, todo("late child of root", Some(root.id))).unwrap();
    assert_eq!(table.rows.len(), 7);

    let deleted = remove(&mut table, &alice, root.id).unwrap();
    assert_eq!(deleted.id, root.id);
    assert_eq!(deleted.title, "root");
    let left: Vec<i32> = table.rows.iter().map(|t| t.id).collect();
    assert_eq!(left, vec![sibling.id, nephew.id]);
    for gone in [root.id, child.id, grandchild.id, great.id, early.id] {
        assert_eq!(fetch_one(&table, &alice, gone).err(), Some(AccessError::NotFound));
    }
    assert_eq!(fetch_one(&table, &alice, nephew.id).unwrap().title, "nephew");
}

#[test]
fn deleting_a_leaf_spares_its_parent() {
    let mut table: Table<Todo> = Table::new();
    let alice = acting(1, "alice");
    let root = insert(&mut table, &alice, todo("root", None)).unwrap();
    let child = insert(&mut table, &alice, todo("child", Some(root.id))).unwrap();
    remove(&mut table, &alice, child.id).unwrap();
    assert_eq!(table.rows.len(), 1);
    assert_eq!(table.rows[0].id, root.id);
    assert_eq!(remove(&mut table, &alice, child.id).err(), Some(AccessError::NotFound));
}

#[test]
fn deleting_within_a_cycle_of_parents_ends() {
    let mut table: Table<Todo> = Table::new();
    let alice = acting(1, "alice");
    let a = insert(&mut table, &alice, todo("a", None)).unwrap();
    let b = insert(&mut table, &alice, todo("b", Some(a.id))).unwrap();
    let c = insert(&mut table, &alice, todo("c", None)).unwrap();
    let mut patch = TodoPatch::empty();
    patch.parent = Some(Some(b.id));
    modify(&mut table, &alice, a.id, patch).unwrap();
    remove(&mut table, &alice, b.id).unwrap();
    let left: Vec<i32> = table.rows.iter().map(|t| t.id).collect();
    assert_eq!(left, vec![c.id]);
}

#[test]
fn child_under_a_vanished_todo_is_refused() {
    let mut db = Database::new();
    let alice = acting(1, "alice");
    let root = MutationRoot.create_todo(&mut db, &alice, todo("root", None)).unwrap();
    let handle = MutationRoot.todo(&db, &alice, root.id).unwrap();
    handle.delete(&mut db.todos).unwrap();
    assert_eq!(
        handle.create_child(&mut db.todos, &alice, todo("x", None)).err(),
        Some(AccessError::NotFound)
    );
    assert_eq!(handle.delete(&mut db.todos).err(), Some(AccessError::NotFound));
    assert_eq!(handle.update(&mut db.todos, TodoPatch::empty()).err(), Some(AccessError::NotFound));
    assert_eq!(
        handle.create_child(&mut db.todos, &Auth::Anonymous, todo("x", None)).err(),
        Some(AccessError::Unauthorized)
    );
}

#[test]
fn queries_and_handles_per_kind() {
    let mut db = Database::new();
    let alice = acting(1, "alice");
    let bob = acting(2, "bob");
    let subject = MutationRoot
        .create_subject(
            &mut db,
            &alice,
            Subject {
                id: 0,
                owner: 0,
                name: "Maths".to_string(),
                class: "10A".to_string(),
                active: true,
                google_classroom_id: None,
            },
        )
        .unwrap();
    let note = MutationRoot
        .create_note(
            &mut db,
            &alice,
            Note {
                id: 0,
                owner: 0,
                date: 19_000,
                title: "Lesson".to_string(),
                subject: Some(subject.id),
                content: "{}".to_string(),
            },
        )
        .unwrap();
    let document = MutationRoot
        .create_document(
            &mut db,
            &bob,
            Document {
                id: 0,
                owner: 0,
                created_at: 5,
                title: "Essay".to_string(),
                content: None,
                last_modified: 5,
            },
        )
        .unwrap();
    assert_eq!(document.owner, 2);
    assert_eq!(QueryRoot.subjects(&db, &alice).unwrap().len(), 1);
    assert_eq!(QueryRoot.subjects(&db, &bob).unwrap().len(), 0);
    assert_eq!(QueryRoot.notes(&db, &alice).unwrap()[0].title, "Lesson");
    assert_eq!(QueryRoot.note(&db, &alice, note.id).unwrap().subject, Some(subject.id));
    assert_eq!(QueryRoot.note(&db, &bob, note.id).err(), Some(AccessError::Forbidden));
    assert_eq!(QueryRoot.subject(&db, &alice, subject.id).unwrap().name, "Maths");
    assert_eq!(QueryRoot.document(&db, &bob, document.id).unwrap().title, "Essay");
    assert_eq!(QueryRoot.documents(&db, &alice).unwrap().len(), 0);
    assert_eq!(QueryRoot.todos(&db, &alice).unwrap().len(), 0);
    assert_eq!(QueryRoot.assessments(&db, &alice).unwrap().len(), 0);
    assert_eq!(QueryRoot.assessment(&db, &alice, 1).err(), Some(AccessError::NotFound));
    assert_eq!(QueryRoot.notes(&db, &Auth::Anonymous).err(), Some(AccessError::Unauthorized));
    assert_eq!(QueryRoot.current_user(&alice).unwrap().id, 1);
    assert!(QueryRoot.current_user(&Auth::Anonymous).is_none());

    assert_eq!(MutationRoot.note(&db, &bob, note.id).err(), Some(AccessError::Forbidden));
    assert_eq!(
        MutationRoot.note(&db, &Auth::Anonymous, note.id).err(),
        Some(AccessError::Unauthorized)
    );
    let handle = MutationRoot.note(&db, &alice, note.id).unwrap();
    let patch = NotePatch { date: None, title: Some("Lesson 2".to_string()), subject: Some(None), content: None };
    let changed = handle.update(&mut db.notes, patch).unwrap();
    assert_eq!(changed.title, "Lesson 2");
    assert_eq!(changed.subject, None);
    assert_eq!(changed.content, "{}");
    assert_eq!(changed.date, 19_000);
    assert_eq!(handle.delete(&mut db.notes).unwrap().id, note.id);
    assert!(db.notes.rows.is_empty());

    let handle = MutationRoot.subject(&db, &alice, subject.id).unwrap();
    let patch = SubjectPatch {
        name: None,
        class: None,
        active: Some(false),
        google_classroom_id: Some(Some("gc-1".to_string())),
    };
    let changed = handle.update(&mut db.subjects, patch).unwrap();
    assert!(!changed.active);
    assert_eq!(changed.google_classroom_id.as_deref(), Some("gc-1"));
    assert_eq!(changed.name, "Maths");

    let handle = MutationRoot.document(&db, &bob, document.id).unwrap();
    let patch = DocumentPatch { title: None, content: Some(Some("[]".to_string())) };
    assert_eq!(handle.update(&mut db.documents, patch).unwrap().content.as_deref(), Some("[]"));
    assert_eq!(MutationRoot.current_user(&alice), Ok(UserMutation(1)));
    assert_eq!(MutationRoot.current_user(&Auth::Anonymous).err(), Some(AccessError::Unauthorized));
}

#[test]
fn assessments_are_listed_for_their_owner() {
    let mut db = Database::new();
    let row = Assessment {
        id: 0,
        owner: 0,
        subject: 1,
        title: "Exam".to_string(),
        exam: true,
        status: AssessmentStatus::from(2),
        weight: 40,
        due: 19_500,
        due_period: DuePeriod::from(7),
        issued: None,
        mark_out_of: Some(100),
        mark: None,
        notification: None,
        submission: None,
        reference: None,
    };
    let made = db.assessments.create(3, row).unwrap();
    let carol = acting(3, "carol");
    let found = QueryRoot.assessment(&db, &carol, made.id).unwrap();
    assert_eq!(found.status, AssessmentStatus::InProgress);
    assert_eq!(found.due_period, DuePeriod::Midnight);
    assert_eq!(found.owner, 3);
    assert_eq!(QueryRoot.assessments(&db, &carol).unwrap().len(), 1);
    assert_eq!(QueryRoot.assessment(&db, &acting(4, "dave"), made.id).err(), Some(AccessError::Forbidden));
}

#[test]
fn documents_are_saved_part_by_part() {
    let mut table: Table<Document> = Table::new();
    let alice = acting(1, "alice");
    let made = insert(
        &mut table,
        &alice,
        Document { id: 0, owner: 0, created_at: 1, title: "Draft".to_string(), content: None, last_modified: 1 },
    )
    .unwrap();
    let both = PartialDocument { title: Some("Essay".to_string()), content: Some("[1]".to_string()) };
    let saved = save(&mut table, &alice, made.id, both).unwrap();
    assert_eq!(saved.title, "Essay");
    assert_eq!(saved.content.as_deref(), Some("[1]"));
    let title_only = PartialDocument { title: Some("Essay 2".to_string()), content: None };
    let saved = save(&mut table, &alice, made.id, title_only).unwrap();
    assert_eq!(saved.title, "Essay 2");
    assert_eq!(saved.content.as_deref(), Some("[1]"));
    let content_only = PartialDocument { title: None, content: Some("[2]".to_string()) };
    let saved = save(&mut table, &alice, made.id, content_only).unwrap();
    assert_eq!(saved.title, "Essay 2");
    assert_eq!(saved.content.as_deref(), Some("[2]"));
    let neither = PartialDocument { title: None, content: None };
    let saved = save(&mut table, &alice, made.id, neither).unwrap();
    assert_eq!(saved.title, "Essay 2");
    assert_eq!(saved.content.as_deref(), Some("[2]"));
    let body = get_document(&table, &alice, made.id).unwrap();
    assert_eq!(body.title, "Essay 2");
    assert_eq!(body.content.as_deref(), Some("[2]"));
    assert_eq!(get_document(&table, &acting(2, "bob"), made.id).err(), Some(AccessError::Forbidden));
    let other = PartialDocument { title: Some("x".to_string()), content: None };
    assert_eq!(save(&mut table, &acting(2, "bob"), made.id, other).err(), Some(AccessError::Forbidden));
}

#[test]
fn document_bodies_and_parts() {
    let partial = PartialDocument { title: None, content: Some("[]".to_string()) };
    assert_eq!(DocumentBody::try_from(partial).err(), Some(MissingTitle));
    let partial = PartialDocument { title: Some("T".to_string()), content: None };
    let body = DocumentBody::try_from(partial).unwrap();
    assert_eq!(body.title, "T");
    assert_eq!(body.content, None);
    let back = PartialDocument::from(body);
    assert_eq!(back.title.as_deref(), Some("T"));
    assert_eq!(back.content, None);
    let patch = PartialDocument { title: None, content: Some("c".to_string()) }.into_patch();
    assert_eq!(patch.title, None);
    assert_eq!(patch.content, Some(Some("c".to_string())));
}

fn store_of_two() -> CredentialStore {
    let mut store = CredentialStore::new();
    for name in ["alice", "bob"] {
        store
            .register(
                name.to_string(),
                name.to_string(),
                format!("{name}@example.org"),
                "hash".to_string(),
                AccountType::User,
                7,
            )
            .unwrap();
    }
    store
}

#[test]
fn registration_keeps_names_unique() {
    let mut store = store_of_two();
    assert_eq!(store.users.len(), 2);
    assert_eq!(store.users[0].user.id, 1);
    assert_eq!(store.users[1].user.id, 2);
    assert_eq!(store.users[1].user.created_at, 7);
    let clash = store.register(
        "alice".to_string(),
        "x".to_string(),
        "new@example.org".to_string(),
        "h".to_string(),
        AccountType::User,
        0,
    );
    assert_eq!(clash.err(), Some(StoreError::Conflict));
    let clash = store.register(
        "carol".to_string(),
        "x".to_string(),
        "bob@example.org".to_string(),
        "h".to_string(),
        AccountType::User,
        0,
    );
    assert_eq!(clash.err(), Some(StoreError::Conflict));
    store.next_user = i32::MAX;
    let full = store.register(
        "carol".to_string(),
        "x".to_string(),
        "carol@example.org".to_string(),
        "h".to_string(),
        AccountType::User,
        0,
    );
    assert_eq!(full.err(), Some(StoreError::Exhausted));
    assert_eq!(store.users.len(), 2);
}

#[test]
fn profile_changes() {
    let mut store = store_of_two();
    store.users[0].user.require_password_change = true;
    let update = UpdateUser {
        username: Some("alicia".to_string()),
        name: None,
        email: Some("alicia@example.org".to_string()),
        password: None,
    };
    let changed = update_current_user(&mut store, 1, update).unwrap();
    assert_eq!(changed.username, "alicia");
    assert_eq!(changed.name, "alice");
    assert_eq!(changed.email, "alicia@example.org");
    assert!(changed.require_password_change);
    assert_eq!(store.users[0].password, "hash");
    assert_eq!(store.users[1].user.username, "bob");

    let update = UpdateUser { username: None, name: None, email: None, password: Some("pw".to_string()) };
    let changed = update_current_user(&mut store, 1, update).unwrap();
    assert!(!changed.require_password_change);
    assert_ne!(store.users[0].password, "hash");
    assert_ne!(store.users[0].password, "pw");
    assert!(store.users[0].password.starts_with("$argon2"));

    let taken = UpdateUser { username: Some("bob".to_string()), name: None, email: None, password: None };
    assert_eq!(update_current_user(&mut store, 1, taken).err(), Some(UpdateError::Conflict));
    let own = UpdateUser { username: Some("alicia".to_string()), name: None, email: None, password: None };
    assert_eq!(update_current_user(&mut store, 1, own).unwrap().username, "alicia");
    let nobody = UpdateUser { username: None, name: Some("N".to_string()), email: None, password: None };
    assert_eq!(update_current_user(&mut store, 9, nobody).err(), Some(UpdateError::NotFound));
    let taken = UpdateUser { username: None, name: None, email: Some("bob@example.org".to_string()), password: None };
    assert_eq!(apply_update(&mut store, 1, taken, None).err(), Some(UpdateError::Conflict));
    assert_eq!(store.users[0].user.username, "alicia");
}

#[test]
fn profile_changes_that_are_refused_as_they_stand() {
    let mut store = store_of_two();
    let cases = [
        UpdateUser { username: Some(String::new()), name: None, email: None, password: None },
        UpdateUser { username: None, name: Some(String::new()), email: None, password: None },
        UpdateUser { username: None, name: None, email: None, password: Some(String::new()) },
        UpdateUser { username: Some("a".repeat(17)), name: None, email: None, password: None },
        UpdateUser { username: None, name: None, email: Some("not an address".to_string()), password: None },
        UpdateUser { username: None, name: None, email: Some(format!("{}@example.org", "a".repeat(250))), password: None },
    ];
    for update in cases {
        assert!(!check_update(&update));
        assert_eq!(update_current_user(&mut store, 1, update).err(), Some(UpdateError::BadRequest));
    }
    let fine = UpdateUser {
        username: Some("a".repeat(16)),
        name: Some("A".to_string()),
        email: Some("a@example.org".to_string()),
        password: Some("p".to_string()),
    };
    assert!(check_update(&fine));
    assert!(check_update(&UpdateUser { username: None, name: None, email: None, password: None }));
    assert_eq!(store.users[0].user.username, "alice");
    assert_eq!(update_status(Ok(())), 204);
    assert_eq!(update_status(Err(UpdateError::BadRequest)), 400);
    assert_eq!(update_status(Err(UpdateError::Conflict)), 500);
    assert_eq!(update_status(Err(UpdateError::NotFound)), 500);
    assert_eq!(update_status(Err(UpdateError::Fault)), 500);
}

#[test]
fn sessions_are_revoked_by_their_user_only() {
    let mut store = store_of_two();
    let none = Identity::unknown();
    let a1 = store.open_session(1, &none, 1).unwrap();
    let b1 = store.open_session(2, &none, 2).unwrap();
    let a2 = store.open_session(1, &none, 3).unwrap();
    assert_eq!(store.open_session(9, &none, 4), None);
    let alice = UserMutation(1);
    let listed: Vec<i32> = alice.sessions(&store).iter().map(|s| s.id).collect();
    assert_eq!(listed, vec![a1, a2]);
    assert_eq!(alice.session(&store, b1).err(), Some(AccessError::NotFound));
    assert_eq!(alice.session(&store, 99).err(), Some(AccessError::NotFound));
    let handle = alice.session(&store, a1).unwrap();
    assert_eq!(handle, SessionMutation(a1));
    assert!(handle.delete(&mut store));
    let left: Vec<i32> = store.sessions.iter().map(|s| s.id).collect();
    assert_eq!(left, vec![b1, a2]);
    assert!(handle.delete(&mut store));
    assert_eq!(store.sessions.len(), 2);
    store.next_session = i32::MAX;
    assert_eq!(store.open_session(1, &none, 5), None);
}

#[test]
fn deleting_an_account_takes_sessions_and_records_along() {
    let mut db = Database::new();
    for name in ["alice", "bob"] {
        db.credentials
            .register(
                name.to_string(),
                name.to_string(),
                format!("{name}@example.org"),
                "hash".to_string(),
                AccountType::User,
                0,
            )
            .unwrap();
    }
    let none = Identity::unknown();
    db.credentials.open_session(1, &none, 1).unwrap();
    let kept = db.credentials.open_session(2, &none, 2).unwrap();
    db.credentials.open_session(1, &none, 3).unwrap();
    let alice = acting(1, "alice");
    let bob = acting(2, "bob");
    MutationRoot.create_todo(&mut db, &alice, todo("a", None)).unwrap();
    let b = MutationRoot.create_todo(&mut db, &bob, todo("b", None)).unwrap();
    MutationRoot.create_todo(&mut db, &alice, todo("c", None)).unwrap();
    assert!(MutationRoot.current_user(&alice).unwrap().delete(&mut db));
    assert_eq!(db.credentials.users.len(), 1);
    assert_eq!(db.credentials.users[0].user.username, "bob");
    assert_eq!(db.credentials.sessions.len(), 1);
    assert_eq!(db.credentials.sessions[0].id, kept);
    assert_eq!(db.todos.rows.len(), 1);
    assert_eq!(db.todos.rows[0].id, b.id);
    assert_eq!(db.credentials.lookup_user(1).map(|u| u.id), None);
    assert_eq!(db.credentials.lookup_user(2).map(|u| u.id), Some(2));
    assert!(UserMutation(1).delete(&mut db));
    assert_eq!(db.credentials.users.len(), 1);
}

#[test]
fn store_changes_by_patch() {
    let mut store = store_of_two();
    let patch = ProfilePatch { username: None, name: Some("Alice A.".to_string()), email: None, password: None };
    let changed = UserMutation(1).update(&mut store, patch).unwrap();
    assert_eq!(changed.name, "Alice A.");
    assert_eq!(changed.username, "alice");
    let patch = ProfilePatch { username: None, name: None, email: None, password: None };
    assert_eq!(UserMutation(5).update(&mut store, patch).err(), Some(StoreError::NotFound));
    assert!(store.username_in_use("bob", None));
    assert!(!store.username_in_use("bob", Some(2)));
    assert!(store.email_in_use("bob@example.org", Some(1)));
    assert!(!store.email_in_use("nobody@example.org", None));
    assert_eq!(store.find_login("bob@example.org"), Some(1));
    assert_eq!(store.find_login("alice"), Some(0));
    assert_eq!(store.find_login("carol"), None);
}

#[test]
fn a_new_database_is_empty_and_starts_its_ids_at_one() {
    let mut db = Database::new();
    assert!(db.credentials.users.is_empty());
    assert!(db.credentials.sessions.is_empty());
    assert_eq!(db.credentials.next_user, 1);
    assert_eq!(db.credentials.next_session, 1);
    assert!(db.documents.rows.is_empty());
    assert!(db.notes.rows.is_empty());
    assert!(db.subjects.rows.is_empty());
    assert!(db.todos.rows.is_empty());
    assert!(db.assessments.rows.is_empty());
    assert_eq!(db.documents.next_id, 1);
    assert_eq!(db.notes.next_id, 1);
    assert_eq!(db.subjects.next_id, 1);
    assert_eq!(db.todos.next_id, 1);
    assert_eq!(db.assessments.next_id, 1);
    let first = MutationRoot.create_todo(&mut db, &acting(4, "dora"), todo("first", None)).unwrap();
    assert_eq!(first.id, 1);
    assert_eq!(db.todos.next_id, 2);
}
