//! The operations on records, as clients call them: queries that read the
//! caller's rows, and mutations that first hand out a handle to one row of
//! the caller and then change or delete the row through it.

use vstd::prelude::*;
use crate::account::User;
use crate::gate::Auth;
use crate::profile::{update_current_user, updated, UpdateError, UpdateUser};
use crate::resources::{
    Assessment, Document, DocumentBody, DocumentPatch, Note, NotePatch, PartialDocument, Subject,
    SubjectPatch, Todo, TodoPatch,
};
use crate::store::{
    amend_verdict, has_session, has_user, of_other_user, patched_record, session_index,
    user_index, CredentialStore, ProfilePatch, Session, StoreError,
};
use crate::table::{
    access, child_of, has_row, owned_rows, row_index, under, without_tree, AccessError, Patchable, Row,
    Table,
};

verus! {

/// The id of the user that a request acts for.
pub open spec fn caller(auth: Auth) -> Option<i32> {
    match auth {
        Auth::Authenticated(user, _) => Some(user.id),
        Auth::Anonymous => None,
    }
}

/// The ownership check for a request: an anonymous one is `Unauthorized`;
/// else the check of the table decides.
pub open spec fn request_access<R: Row>(rows: Seq<R>, auth: Auth, id: i32) -> Result<
    int,
    AccessError,
> {
    match caller(auth) {
        None => Err(AccessError::Unauthorized),
        Some(user) => access(rows, id, user),
    }
}

/// What a request for all rows yields: the caller's rows, in table order.
pub open spec fn listed<R: Row>(rows: Seq<R>, auth: Auth, r: Result<Vec<R>, AccessError>) -> bool {
    match caller(auth) {
        None => r == Err::<Vec<R>, AccessError>(AccessError::Unauthorized),
        Some(user) => r.is_ok() && r.unwrap()@ == owned_rows(rows, user),
    }
}

/// What a request for the row with the id yields: the row, for its owner.
pub open spec fn fetched<R: Row>(rows: Seq<R>, auth: Auth, id: i32) -> Result<R, AccessError> {
    match request_access(rows, auth, id) {
        Ok(i) => Ok(rows[i]),
        Err(e) => Err(e),
    }
}

/// Whether `after` and `r` are what creating a row from `draft` for the
/// caller makes of the table `before`: the row gets the next free id and
/// the caller as its owner, whatever the draft says, and stands last.
pub open spec fn inserted<R: Row>(
    before: Table<R>,
    after: Table<R>,
    auth: Auth,
    draft: R,
    r: Result<R, AccessError>,
) -> bool {
    match caller(auth) {
        None => r == Err::<R, AccessError>(AccessError::Unauthorized) && after == before,
        Some(user) => if before.next_id == i32::MAX {
            r == Err::<R, AccessError>(AccessError::Fault) && after == before
        } else {
            let row = draft.stamped(before.next_id, user);
            &&& r == Ok::<R, AccessError>(row)
            &&& row.row_owner() == user
            &&& row.row_id() == before.next_id
            &&& !has_row(before.rows@, row.row_id())
            &&& after.rows@ == before.rows@.push(row)
            &&& after.next_id == before.next_id + 1
        },
    }
}

/// Whether `after` and `r` are what patching the row with the id makes of
/// the rows `before`: that row is patched, every other row stays, and
/// without such a row nothing changes.
pub open spec fn changed<R: Patchable>(
    before: Seq<R>,
    after: Seq<R>,
    id: i32,
    patch: R::Patch,
    r: Result<R, AccessError>,
) -> bool {
    if has_row(before, id) {
        let i = row_index(before, id);
        &&& r == Ok::<R, AccessError>(before[i].patched(patch))
        &&& after == before.update(i, before[i].patched(patch))
    } else {
        r == Err::<R, AccessError>(AccessError::NotFound) && after == before
    }
}

/// Whether `after` and `r` are what deleting the row with the id makes of
/// the rows `before`: the row is gone with everything that hung under it,
/// every other row stays, and without such a row nothing changes.
pub open spec fn discarded<R: Row>(
    before: Seq<R>,
    after: Seq<R>,
    id: i32,
    r: Result<R, AccessError>,
) -> bool {
    if has_row(before, id) {
        &&& r == Ok::<R, AccessError>(before[row_index(before, id)])
        &&& after == without_tree(before, id)
        &&& !has_row(after, id)
        &&& forall|x: i32| #[trigger] under(before, x, id) ==> !has_row(after, x)
    } else {
        r == Err::<R, AccessError>(AccessError::NotFound) && after == before
    }
}

/// Whether `after` and `r` are what the caller's patch of the row with the
/// id makes of the rows `before`. A refusal changes nothing.
pub open spec fn modified<R: Patchable>(
    before: Seq<R>,
    after: Seq<R>,
    auth: Auth,
    id: i32,
    patch: R::Patch,
    r: Result<R, AccessError>,
) -> bool {
    match request_access(before, auth, id) {
        Err(e) => r == Err::<R, AccessError>(e) && after == before,
        Ok(i) => {
            &&& r == Ok::<R, AccessError>(before[i].patched(patch))
            &&& after == before.update(i, before[i].patched(patch))
            &&& Some(r.unwrap().row_owner()) == caller(auth)
        },
    }
}

/// Whether `after` and `r` are what the caller's deletion of the row with
/// the id makes of the rows `before`. A refusal changes nothing.
pub open spec fn removed<R: Row>(
    before: Seq<R>,
    after: Seq<R>,
    auth: Auth,
    id: i32,
    r: Result<R, AccessError>,
) -> bool {
    match request_access(before, auth, id) {
        Err(e) => r == Err::<R, AccessError>(e) && after == before,
        Ok(i) => {
            &&& r == Ok::<R, AccessError>(before[i])
            &&& Some(r.unwrap().row_owner()) == caller(auth)
            &&& after == without_tree(before, id)
            &&& !has_row(after, id)
            &&& forall|x: i32| #[trigger] under(before, x, id) ==> !has_row(after, x)
        },
    }
}

/// The id of the user that the request acts for.
pub fn caller_id(auth: &Auth) -> (r: Option<i32>)
    ensures
        r == caller(*auth),
{
    match auth {
        Auth::Authenticated(user, _) => Some(user.id),
        Auth::Anonymous => None,
    }
}

/// All rows of the caller.
pub fn fetch_all<R: Row>(table: &Table<R>, auth: &Auth) -> (r: Result<Vec<R>, AccessError>)
    ensures
        listed(table.rows@, *auth, r),
{
    match caller_id(auth) {
        None => Err(AccessError::Unauthorized),
        Some(user) => Ok(table.list(user)),
    }
}

/// One row of the caller.
pub fn fetch_one<R: Row>(table: &Table<R>, auth: &Auth, id: i32) -> (r: Result<R, AccessError>)
    requires
        table.wf(),
    ensures
        r == fetched(table.rows@, *auth, id),
        r.is_ok() ==> Some(r.unwrap().row_owner()) == caller(*auth),
{
    match caller_id(auth) {
        None => Err(AccessError::Unauthorized),
        Some(user) => table.get(id, user),
    }
}

/// Checks that the caller owns the row with the id.
pub fn claim<R: Row>(table: &Table<R>, auth: &Auth, id: i32) -> (r: Result<(), AccessError>)
    requires
        table.wf(),
    ensures
        r == match request_access(table.rows@, *auth, id) {
            Ok(_) => Ok::<(), AccessError>(()),
            Err(e) => Err::<(), AccessError>(e),
        },
{
    match caller_id(auth) {
        None => Err(AccessError::Unauthorized),
        Some(user) => match table.authorize(id, user) {
            Ok(_) => Ok(()),
            Err(e) => Err(e),
        },
    }
}

/// Adds a row for the caller. The draft's own id and owner are ignored: the
/// row gets the next free id and the caller as its owner.
pub fn insert<R: Row>(table: &mut Table<R>, auth: &Auth, draft: R) -> (r: Result<R, AccessError>)
    requires
        old(table).wf(),
    ensures
        final(table).wf(),
        inserted(*old(table), *final(table), *auth, draft, r),
{
    match caller_id(auth) {
        None => Err(AccessError::Unauthorized),
        Some(user) => table.create(user, draft),
    }
}

/// Changes the row behind a handle and returns it as it then stands;
/// `NotFound`, and no change, where the row is gone.
pub fn change<R: Patchable>(table: &mut Table<R>, id: i32, patch: R::Patch) -> (r: Result<
    R,
    AccessError,
>)
    requires
        old(table).wf(),
    ensures
        final(table).wf(),
        final(table).next_id == old(table).next_id,
        changed(old(table).rows@, final(table).rows@, id, patch, r),
{
    match table.amend(id, patch) {
        Some(row) => Ok(row),
        None => Err(AccessError::NotFound),
    }
}

/// Deletes the row behind a handle, with everything that hangs under it,
/// and returns the row; `NotFound`, and no change, where the row is gone.
pub fn discard<R: Row>(table: &mut Table<R>, id: i32) -> (r: Result<R, AccessError>)
    requires
        old(table).wf(),
    ensures
        final(table).wf(),
        final(table).next_id == old(table).next_id,
        discarded(old(table).rows@, final(table).rows@, id, r),
{
    match table.erase(id) {
        Some(row) => Ok(row),
        None => Err(AccessError::NotFound),
    }
}

/// Changes one row of the caller: the fields that the patch names, and no
/// others. A refusal changes nothing.
pub fn modify<R: Patchable>(table: &mut Table<R>, auth: &Auth, id: i32, patch: R::Patch) -> (r:
    Result<R, AccessError>)
    requires
        old(table).wf(),
    ensures
        final(table).wf(),
        final(table).next_id == old(table).next_id,
        modified(old(table).rows@, final(table).rows@, *auth, id, patch, r),
{
    match caller_id(auth) {
        None => Err(AccessError::Unauthorized),
        Some(user) => table.update(id, user, patch),
    }
}

/// Deletes one row of the caller with everything that hangs under it. A
/// refusal changes nothing.
pub fn remove<R: Row>(table: &mut Table<R>, auth: &Auth, id: i32) -> (r: Result<R, AccessError>)
    requires
        old(table).wf(),
    ensures
        final(table).wf(),
        final(table).next_id == old(table).next_id,
        removed(old(table).rows@, final(table).rows@, *auth, id, r),
{
    match caller_id(auth) {
        None => Err(AccessError::Unauthorized),
        Some(user) => table.delete(id, user),
    }
}

/// Everything that is stored: the credentials and one table per kind of
/// record.
#[derive(Debug)]
pub struct Database {
    pub credentials: CredentialStore,
    pub documents: Table<Document>,
    pub notes: Table<Note>,
    pub subjects: Table<Subject>,
    pub todos: Table<Todo>,
    pub assessments: Table<Assessment>,
}

impl Database {
    /// Every part is well formed.
    pub open spec fn wf(&self) -> bool {
        &&& self.credentials.wf()
        &&& self.documents.wf()
        &&& self.notes.wf()
        &&& self.subjects.wf()
        &&& self.todos.wf()
        &&& self.assessments.wf()
    }

    /// A database without users or records. In the credentials and in
    /// every table the first id to be given out is 1.
    pub fn new() -> (r: Database)
        ensures
            r.wf(),
            r.credentials.users@.len() == 0,
            r.credentials.sessions@.len() == 0,
            r.credentials.next_user == 1,
            r.credentials.next_session == 1,
            r.documents.rows@.len() == 0,
            r.documents.next_id == 1,
            r.notes.rows@.len() == 0,
            r.notes.next_id == 1,
            r.subjects.rows@.len() == 0,
            r.subjects.next_id == 1,
            r.todos.rows@.len() == 0,
            r.todos.next_id == 1,
            r.assessments.rows@.len() == 0,
            r.assessments.next_id == 1,
    {
        Database {
            credentials: CredentialStore::new(),
            documents: Table::new(),
            notes: Table::new(),
            subjects: Table::new(),
            todos: Table::new(),
            assessments: Table::new(),
        }
    }
}

/// The entry point of all queries.
#[derive(Debug, Clone, Copy, PartialEq, Eq, Structural)]
pub struct QueryRoot;

/// The entry point of all mutations.
#[derive(Debug, Clone, Copy, PartialEq, Eq, Structural)]
pub struct MutationRoot;

impl QueryRoot {
    /// The caller's profile, or `None` for an anonymous request.
    pub fn current_user(&self, auth: &Auth) -> (r: Option<User>)
        ensures
            r == match *auth {
                Auth::Authenticated(user, _) => Some(user),
                Auth::Anonymous => None,
            },
    {
        match auth {
            Auth::Authenticated(user, _) => Some(user.clone()),
            Auth::Anonymous => None,
        }
    }

    /// All notes of the caller.
    pub fn notes(&self, db: &Database, auth: &Auth) -> (r: Result<Vec<Note>, AccessError>)
        ensures
            listed(db.notes.rows@, *auth, r),
    {
        fetch_all(&db.notes, auth)
    }

    /// One note of the caller, by id.
    pub fn note(&self, db: &Database, auth: &Auth, id: i32) -> (r: Result<
        Note,
        AccessError,
    >)
        requires
            db.wf(),
        ensures
            r == fetched(db.notes.rows@, *auth, id),
            r.is_ok() ==> Some(r.unwrap().owner) == caller(*auth),
    {
        fetch_one(&db.notes, auth, id)
    }

    /// All subjects of the caller.
    pub fn subjects(&self, db: &Database, auth: &Auth) -> (r: Result<Vec<Subject>, AccessError>)
        ensures
            listed(db.subjects.rows@, *auth, r),
    {
        fetch_all(&db.subjects, auth)
    }

    /// One subject of the caller, by id.
    pub fn subject(&self, db: &Database, auth: &Auth, id: i32) -> (r: Result<
        Subject,
        AccessError,
    >)
        requires
            db.wf(),
        ensures
            r == fetched(db.subjects.rows@, *auth, id),
            r.is_ok() ==> Some(r.unwrap().owner) == caller(*auth),
    {
        fetch_one(&db.subjects, auth, id)
    }

    /// All todos of the caller.
    pub fn todos(&self, db: &Database, auth: &Auth) -> (r: Result<Vec<Todo>, AccessError>)
        ensures
            listed(db.todos.rows@, *auth, r),
    {
        fetch_all(&db.todos, auth)
    }

    /// One to-do of the caller, by id.
    pub fn todo(&self, db: &Database, auth: &Auth, id: i32) -> (r: Result<
        Todo,
        AccessError,
    >)
        requires
            db.wf(),
        ensures
            r == fetched(db.todos.rows@, *auth, id),
            r.is_ok() ==> Some(r.unwrap().owner) == caller(*auth),
    {
        fetch_one(&db.todos, auth, id)
    }

    /// All documents of the caller.
    pub fn documents(&self, db: &Database, auth: &Auth) -> (r: Result<Vec<Document>, AccessError>)
        ensures
            listed(db.documents.rows@, *auth, r),
    {
        fetch_all(&db.documents, auth)
    }

    /// One document of the caller, by id.
    pub fn document(&self, db: &Database, auth: &Auth, id: i32) -> (r: Result<
        Document,
        AccessError,
    >)
        requires
            db.wf(),
        ensures
            r == fetched(db.documents.rows@, *auth, id),
            r.is_ok() ==> Some(r.unwrap().owner) == caller(*auth),
    {
        fetch_one(&db.documents, auth, id)
    }

    /// All assessments of the caller.
    pub fn assessments(&self, db: &Database, auth: &Auth) -> (r: Result<Vec<Assessment>, AccessError>)
        ensures
            listed(db.assessments.rows@, *auth, r),
    {
        fetch_all(&db.assessments, auth)
    }

    /// One assessment of the caller, by id.
    pub fn assessment(&self, db: &Database, auth: &Auth, id: i32) -> (r: Result<
        Assessment,
        AccessError,
    >)
        requires
            db.wf(),
        ensures
            r == fetched(db.assessments.rows@, *auth, id),
            r.is_ok() ==> Some(r.unwrap().owner) == caller(*auth),
    {
        fetch_one(&db.assessments, auth, id)
    }
}

impl MutationRoot {
    /// A handle to one note of the caller, for changing or deleting it.
    pub fn note(&self, db: &Database, auth: &Auth, id: i32) -> (r: Result<
        NoteMutation,
        AccessError,
    >)
        requires
            db.wf(),
        ensures
            r == match request_access(db.notes.rows@, *auth, id) {
                Ok(_) => Ok::<NoteMutation, AccessError>(NoteMutation(id)),
                Err(e) => Err::<NoteMutation, AccessError>(e),
            },
    {
        match claim(&db.notes, auth, id) {
            Ok(()) => Ok(NoteMutation(id)),
            Err(e) => Err(e),
        }
    }

    /// Creates a note for the caller and returns it. Id and owner of the
    /// draft are ignored. Nothing but the table of notes changes.
    pub fn create_note(&self, db: &mut Database, auth: &Auth, draft: Note) -> (r: Result<
        Note,
        AccessError,
    >)
        requires
            old(db).wf(),
        ensures
            final(db).wf(),
            inserted(old(db).notes, final(db).notes, *auth, draft, r),
            *final(db) == (Database { notes: final(db).notes, ..*old(db) }),
    {
        insert(&mut db.notes, auth, draft)
    }

    /// A handle to one subject of the caller, for changing or deleting it.
    pub fn subject(&self, db: &Database, auth: &Auth, id: i32) -> (r: Result<
        SubjectMutation,
        AccessError,
    >)
        requires
            db.wf(),
        ensures
            r == match request_access(db.subjects.rows@, *auth, id) {
                Ok(_) => Ok::<SubjectMutation, AccessError>(SubjectMutation(id)),
                Err(e) => Err::<SubjectMutation, AccessError>(e),
            },
    {
        match claim(&db.subjects, auth, id) {
            Ok(()) => Ok(SubjectMutation(id)),
            Err(e) => Err(e),
        }
    }

    /// Creates a subject for the caller and returns it. Id and owner of the
    /// draft are ignored. Nothing but the table of subjects changes.
    pub fn create_subject(&self, db: &mut Database, auth: &Auth, draft: Subject) -> (r: Result<
        Subject,
        AccessError,
    >)
        requires
            old(db).wf(),
        ensures
            final(db).wf(),
            inserted(old(db).subjects, final(db).subjects, *auth, draft, r),
            *final(db) == (Database { subjects: final(db).subjects, ..*old(db) }),
    {
        insert(&mut db.subjects, auth, draft)
    }

    /// A handle to one to-do of the caller, for changing or deleting it.
    pub fn todo(&self, db: &Database, auth: &Auth, id: i32) -> (r: Result<
        TodoMutation,
        AccessError,
    >)
        requires
            db.wf(),
        ensures
            r == match request_access(db.todos.rows@, *auth, id) {
                Ok(_) => Ok::<TodoMutation, AccessError>(TodoMutation(id)),
                Err(e) => Err::<TodoMutation, AccessError>(e),
            },
    {
        match claim(&db.todos, auth, id) {
            Ok(()) => Ok(TodoMutation(id)),
            Err(e) => Err(e),
        }
    }

    /// Creates a to-do for the caller and returns it. Id, owner and parent
    /// of the draft are ignored: the to-do hangs under no other. Nothing
    /// but the table of todos changes.
    pub fn create_todo(&self, db: &mut Database, auth: &Auth, draft: Todo) -> (r: Result<
        Todo,
        AccessError,
    >)
        requires
            old(db).wf(),
        ensures
            final(db).wf(),
            inserted(old(db).todos, final(db).todos, *auth, (Todo { parent: None, ..draft }), r),
            r.is_ok() ==> r.unwrap().parent.is_none(),
            *final(db) == (Database { todos: final(db).todos, ..*old(db) }),
    {
        let mut top = draft;
        top.parent = None;
        insert(&mut db.todos, auth, top)
    }

    /// A handle to one document of the caller, for changing or deleting it.
    pub fn document(&self, db: &Database, auth: &Auth, id: i32) -> (r: Result<
        DocumentMutation,
        AccessError,
    >)
        requires
            db.wf(),
        ensures
            r == match request_access(db.documents.rows@, *auth, id) {
                Ok(_) => Ok::<DocumentMutation, AccessError>(DocumentMutation(id)),
                Err(e) => Err::<DocumentMutation, AccessError>(e),
            },
    {
        match claim(&db.documents, auth, id) {
            Ok(()) => Ok(DocumentMutation(id)),
            Err(e) => Err(e),
        }
    }

    /// Creates a document for the caller and returns it. Id and owner of the
    /// draft are ignored. Nothing but the table of documents changes.
    pub fn create_document(&self, db: &mut Database, auth: &Auth, draft: Document) -> (r: Result<
        Document,
        AccessError,
    >)
        requires
            old(db).wf(),
        ensures
            final(db).wf(),
            inserted(old(db).documents, final(db).documents, *auth, draft, r),
            *final(db) == (Database { documents: final(db).documents, ..*old(db) }),
    {
        insert(&mut db.documents, auth, draft)
    }

    /// A handle to the caller's own account.
    pub fn current_user(&self, auth: &Auth) -> (r: Result<UserMutation, AccessError>)
        ensures
            r == match caller(*auth) {
                Some(user) => Ok::<UserMutation, AccessError>(UserMutation(user)),
                None => Err::<UserMutation, AccessError>(AccessError::Unauthorized),
            },
    {
        match caller_id(auth) {
            Some(user) => Ok(UserMutation(user)),
            None => Err(AccessError::Unauthorized),
        }
    }
}

/// A handle to one note, handed out to its owner.
#[derive(Debug, Clone, Copy, PartialEq, Eq, Structural)]
pub struct NoteMutation(pub i32);

impl NoteMutation {
    /// Deletes the note and returns it.
    pub fn delete(&self, table: &mut Table<Note>) -> (r: Result<Note, AccessError>)
        requires
            old(table).wf(),
        ensures
            final(table).wf(),
            final(table).next_id == old(table).next_id,
            discarded(old(table).rows@, final(table).rows@, self.0, r),
    {
        discard(table, self.0)
    }

    /// Changes the fields that the patch names and returns the note as
    /// it then stands.
    pub fn update(&self, table: &mut Table<Note>, patch: NotePatch) -> (r: Result<
        Note,
        AccessError,
    >)
        requires
            old(table).wf(),
        ensures
            final(table).wf(),
            final(table).next_id == old(table).next_id,
            changed(old(table).rows@, final(table).rows@, self.0, patch, r),
    {
        change(table, self.0, patch)
    }
}

/// A handle to one subject, handed out to its owner.
#[derive(Debug, Clone, Copy, PartialEq, Eq, Structural)]
pub struct SubjectMutation(pub i32);

impl SubjectMutation {
    /// Deletes the subject and returns it.
    pub fn delete(&self, table: &mut Table<Subject>) -> (r: Result<Subject, AccessError>)
        requires
            old(table).wf(),
        ensures
            final(table).wf(),
            final(table).next_id == old(table).next_id,
            discarded(old(table).rows@, final(table).rows@, self.0, r),
    {
        discard(table, self.0)
    }

    /// Changes the fields that the patch names and returns the subject as
    /// it then stands.
    pub fn update(&self, table: &mut Table<Subject>, patch: SubjectPatch) -> (r: Result<
        Subject,
        AccessError,
    >)
        requires
            old(table).wf(),
        ensures
            final(table).wf(),
            final(table).next_id == old(table).next_id,
            changed(old(table).rows@, final(table).rows@, self.0, patch, r),
    {
        change(table, self.0, patch)
    }
}

/// A handle to one to-do, handed out to its owner.
#[derive(Debug, Clone, Copy, PartialEq, Eq, Structural)]
pub struct TodoMutation(pub i32);

impl TodoMutation {
    /// Deletes the to-do and returns it.
    pub fn delete(&self, table: &mut Table<Todo>) -> (r: Result<Todo, AccessError>)
        requires
            old(table).wf(),
        ensures
            final(table).wf(),
            final(table).next_id == old(table).next_id,
            discarded(old(table).rows@, final(table).rows@, self.0, r),
    {
        discard(table, self.0)
    }

    /// Changes the fields that the patch names and returns the to-do as
    /// it then stands.
    pub fn update(&self, table: &mut Table<Todo>, patch: TodoPatch) -> (r: Result<
        Todo,
        AccessError,
    >)
        requires
            old(table).wf(),
        ensures
            final(table).wf(),
            final(table).next_id == old(table).next_id,
            changed(old(table).rows@, final(table).rows@, self.0, patch, r),
    {
        change(table, self.0, patch)
    }

    /// Creates a to-do under this one, for the caller, and returns it. The
    /// draft's id, owner and parent are ignored. Under a to-do that is gone
    /// nothing is created.
    pub fn create_child(&self, table: &mut Table<Todo>, auth: &Auth, draft: Todo) -> (r: Result<
        Todo,
        AccessError,
    >)
        requires
            old(table).wf(),
        ensures
            final(table).wf(),
            match caller(*auth) {
                None => r == Err::<Todo, AccessError>(AccessError::Unauthorized) && *final(table)
                    == *old(table),
                Some(user) => if !has_row(old(table).rows@, self.0) {
                    r == Err::<Todo, AccessError>(AccessError::NotFound) && *final(table) == *old(
                        table,
                    )
                } else if old(table).next_id == i32::MAX {
                    r == Err::<Todo, AccessError>(AccessError::Fault) && *final(table) == *old(
                        table,
                    )
                } else {
                    let row = (Todo { parent: Some(self.0), ..draft }).stamped(
                        old(table).next_id,
                        user,
                    );
                    &&& r == Ok::<Todo, AccessError>(row)
                    &&& row.owner == user
                    &&& row.parent == Some(self.0)
                    &&& under(final(table).rows@, row.id, self.0)
                    &&& final(table).rows@ == old(table).rows@.push(row)
                },
            },
    {
        let user = match caller_id(auth) {
            None => {
                return Err(AccessError::Unauthorized);
            },
            Some(user) => user,
        };
        if table.position(self.0).is_none() {
            return Err(AccessError::NotFound);
        }
        let mut child = draft;
        child.parent = Some(self.0);
        let made = table.create(user, child);
        proof {
            if made.is_ok() {
                let rows = table.rows@;
                let last = rows.len() - 1;
                let id = rows[last].row_id();
                assert(rows[last].row_id() == id);
                let j = row_index(rows, id);
                assert(rows[j].row_id() == id);
                assert(j == last);
                assert(crate::table::parent_of(rows, id) == Some(self.0));
                assert(crate::table::descends(rows, self.0, self.0, 0));
                assert(crate::table::descends(rows, id, self.0, 1));
            }
        }
        made
    }
}

/// A handle to one document, handed out to its owner.
#[derive(Debug, Clone, Copy, PartialEq, Eq, Structural)]
pub struct DocumentMutation(pub i32);

impl DocumentMutation {
    /// Deletes the document and returns it.
    pub fn delete(&self, table: &mut Table<Document>) -> (r: Result<Document, AccessError>)
        requires
            old(table).wf(),
        ensures
            final(table).wf(),
            final(table).next_id == old(table).next_id,
            discarded(old(table).rows@, final(table).rows@, self.0, r),
    {
        discard(table, self.0)
    }

    /// Changes the fields that the patch names and returns the document as
    /// it then stands.
    pub fn update(&self, table: &mut Table<Document>, patch: DocumentPatch) -> (r: Result<
        Document,
        AccessError,
    >)
        requires
            old(table).wf(),
        ensures
            final(table).wf(),
            final(table).next_id == old(table).next_id,
            changed(old(table).rows@, final(table).rows@, self.0, patch, r),
    {
        change(table, self.0, patch)
    }
}

/// A handle to one session, handed out to its user.
#[derive(Debug, Clone, Copy, PartialEq, Eq, Structural)]
pub struct SessionMutation(pub i32);

impl SessionMutation {
    /// Revokes the session: the credential that names it resolves no more.
    /// Always returns `true`.
    pub fn delete(&self, store: &mut CredentialStore) -> (r: bool)
        requires
            old(store).wf(),
        ensures
            r,
            final(store).wf(),
            final(store).users == old(store).users,
            !has_session(final(store).sessions@, self.0),
            has_session(old(store).sessions@, self.0) ==> final(store).sessions@ == old(
                store,
            ).sessions@.remove(session_index(old(store).sessions@, self.0)),
            !has_session(old(store).sessions@, self.0) ==> final(store).sessions == old(
                store,
            ).sessions,
    {
        store.close_session(self.0);
        true
    }
}

/// Decides on what a lookup of the session with the id found: `found` is
/// the user of the session, or `None` where there is no such session. Only
/// the session's own user gets the handle; a session of another user is
/// not told apart from one that does not exist.
pub fn claim_session(found: Option<i32>, user: i32, id: i32) -> (r: Result<
    SessionMutation,
    AccessError,
>)
    ensures
        r == if found == Some(user) {
            Ok::<SessionMutation, AccessError>(SessionMutation(id))
        } else {
            Err::<SessionMutation, AccessError>(AccessError::NotFound)
        },
{
    match found {
        Some(owner) => if owner == user {
            Ok(SessionMutation(id))
        } else {
            Err(AccessError::NotFound)
        },
        None => Err(AccessError::NotFound),
    }
}

/// A handle to a user's own account.
#[derive(Debug, Clone, Copy, PartialEq, Eq, Structural)]
pub struct UserMutation(pub i32);

/// The rows that are left of a table once a user's rows are gone.
pub open spec fn rows_of_others<R: Row>(rows: Seq<R>, user: i32) -> Seq<R> {
    rows.filter(owned_by_other::<R>(user))
}

/// The test that a row belongs to another user than `user`.
pub open spec fn owned_by_other<R: Row>(user: i32) -> spec_fn(R) -> bool {
    |x: R| x.row_owner() != user
}

/// Takes a user's rows out of a table.
pub fn purge<R: Row>(table: &mut Table<R>, user: i32)
    requires
        old(table).wf(),
    ensures
        final(table).wf(),
        final(table).next_id == old(table).next_id,
        final(table).rows@ == rows_of_others(old(table).rows@, user),
{
    let ghost pred = owned_by_other::<R>(user);
    let ghost rows = table.rows@;
    let mut kept: Vec<R> = Vec::new();
    let mut j: usize = 0;
    proof {
        reveal(Seq::filter);
        assert(rows.subrange(0, 0).filter(pred) =~= Seq::<R>::empty());
    }
    while j < table.rows.len()
        invariant
            table.wf(),
            *table == *old(table),
            rows == table.rows@,
            j <= rows.len(),
            pred == owned_by_other::<R>(user),
            kept@ == rows.subrange(0, j as int).filter(pred),
            forall|a: int| 0 <= a < kept@.len() ==> row_from(rows, #[trigger] kept@[a], j as int),
            crate::table::distinct_rows(kept@),
        decreases rows.len() - j,
    {
        proof {
            crate::table::lemma_filter_step(rows, j as int, pred);
            assert forall|a: int| 0 <= a < kept@.len() implies row_from(
                rows,
                #[trigger] kept@[a],
                j + 1,
            ) by {
                assert(row_from(rows, kept@[a], j as int));
                let s = row_source(rows, kept@[a], j as int);
                assert(0 <= s < j + 1 && rows[s] == kept@[a]);
            }
        }
        if table.rows[j].owner() != user {
            let ghost before = kept@;
            kept.push(table.rows[j].duplicate());
            proof {
                assert forall|a: int| 0 <= a < kept@.len() implies row_from(
                    rows,
                    #[trigger] kept@[a],
                    j + 1,
                ) by {
                    if a < before.len() {
                        assert(kept@[a] == before[a]);
                    } else {
                        assert(rows[j as int] == kept@[a]);
                    }
                }
                assert forall|a: int, b: int| 0 <= a < b < kept@.len() implies (
                #[trigger] kept@[a]).row_id() != (#[trigger] kept@[b]).row_id() by {
                    assert(kept@[a] == before[a]);
                    if b < before.len() {
                        assert(kept@[b] == before[b]);
                    } else {
                        assert(row_from(rows, before[a], j as int));
                        let s = row_source(rows, before[a], j as int);
                        assert(rows[s].row_id() != rows[j as int].row_id());
                    }
                }
            }
        }
        j += 1;
    }
    proof {
        assert(rows.subrange(0, rows.len() as int) =~= rows);
        assert forall|k: int| 0 <= k < kept@.len() implies (#[trigger] kept@[k]).row_id()
            < table.next_id by {
            assert(row_from(rows, kept@[k], rows.len() as int));
            let s = row_source(rows, kept@[k], rows.len() as int);
            assert(rows[s].row_id() < table.next_id);
        }
    }
    table.rows = kept;
}

/// Whether `x` is one of the first `bound` rows.
pub open spec fn row_from<R: Row>(rows: Seq<R>, x: R, bound: int) -> bool {
    exists|s: int| 0 <= s < bound && #[trigger] rows[s] == x
}

/// A place at which `x` stands among the first `bound` rows.
pub open spec fn row_source<R: Row>(rows: Seq<R>, x: R, bound: int) -> int {
    choose|s: int| 0 <= s < bound && #[trigger] rows[s] == x
}

impl UserMutation {
    /// Deletes the account with all its sessions and all its records.
    /// Always returns `true`.
    pub fn delete(&self, db: &mut Database) -> (r: bool)
        requires
            old(db).wf(),
        ensures
            r,
            final(db).wf(),
            !has_user(final(db).credentials.users@, self.0),
            has_user(old(db).credentials.users@, self.0) ==> {
                &&& final(db).credentials.users@ == old(db).credentials.users@.remove(
                    user_index(old(db).credentials.users@, self.0),
                )
                &&& final(db).credentials.sessions@ == old(db).credentials.sessions@.filter(
                    of_other_user(self.0),
                )
            },
            !has_user(old(db).credentials.users@, self.0) ==> final(db).credentials == old(
                db,
            ).credentials,
            final(db).documents.rows@ == rows_of_others(old(db).documents.rows@, self.0),
            final(db).notes.rows@ == rows_of_others(old(db).notes.rows@, self.0),
            final(db).subjects.rows@ == rows_of_others(old(db).subjects.rows@, self.0),
            final(db).todos.rows@ == rows_of_others(old(db).todos.rows@, self.0),
            final(db).assessments.rows@ == rows_of_others(old(db).assessments.rows@, self.0),
    {
        db.credentials.remove_user(self.0);
        purge(&mut db.documents, self.0);
        purge(&mut db.notes, self.0);
        purge(&mut db.subjects, self.0);
        purge(&mut db.todos, self.0);
        purge(&mut db.assessments, self.0);
        true
    }

    /// Changes the profile and returns it as it then stands.
    pub fn update(&self, store: &mut CredentialStore, patch: ProfilePatch) -> (r: Result<
        User,
        StoreError,
    >)
        requires
            old(store).wf(),
        ensures
            final(store).wf(),
            final(store).sessions == old(store).sessions,
            match amend_verdict(old(store).users@, self.0, patch) {
                Err(e) => r == Err::<User, StoreError>(e) && final(store).users == old(store).users,
                Ok(i) => {
                    &&& r == Ok::<User, StoreError>(
                        patched_record(old(store).users@[i], patch).user,
                    )
                    &&& final(store).users@ == old(store).users@.update(
                        i,
                        patched_record(old(store).users@[i], patch),
                    )
                },
            },
    {
        store.amend_user(self.0, patch)
    }

    /// Changes username, name, email and password, as far as the request
    /// names them; what it does not name stays, and so does every other
    /// user. A new password is hashed before it is stored, and lifts the
    /// demand to change the password.
    pub fn change(&self, store: &mut CredentialStore, update: UpdateUser) -> (r: Result<
        User,
        UpdateError,
    >)
        requires
            old(store).wf(),
        ensures
            final(store).wf(),
            final(store).sessions == old(store).sessions,
            updated(old(store).users@, final(store).users@, self.0, update, r),
            r.is_ok() ==> r.unwrap().id == self.0,
            r.is_ok() && update.password.is_some() ==> !r.unwrap().require_password_change,
    {
        update_current_user(store, self.0, update)
    }

    /// A handle to one of the user's sessions, for revoking it. A session
    /// of another user is not told apart from one that does not exist.
    pub fn session(&self, store: &CredentialStore, id: i32) -> (r: Result<
        SessionMutation,
        AccessError,
    >)
        requires
            store.wf(),
        ensures
            r == if has_session(store.sessions@, id) && store.sessions@[session_index(
                store.sessions@,
                id,
            )].user_id == self.0 {
                Ok::<SessionMutation, AccessError>(SessionMutation(id))
            } else {
                Err::<SessionMutation, AccessError>(AccessError::NotFound)
            },
    {
        match store.position_of_session(id) {
            None => claim_session(None, self.0, id),
            Some(i) => {
                proof {
                    assert(store.sessions@[i as int].id == id);
                    assert(session_index(store.sessions@, id) == i);
                }
                claim_session(Some(store.sessions[i].user_id), self.0, id)
            },
        }
    }

    /// The user's sessions, in the order in which they were opened.
    pub fn sessions(&self, store: &CredentialStore) -> (r: Vec<Session>)
        ensures
            r@ == store.sessions@.filter(of_user(self.0)),
    {
        let ghost pred = of_user(self.0);
        let mut out: Vec<Session> = Vec::new();
        let mut j: usize = 0;
        proof {
            reveal(Seq::filter);
            assert(store.sessions@.subrange(0, 0).filter(pred) =~= Seq::<Session>::empty());
        }
        while j < store.sessions.len()
            invariant
                j <= store.sessions@.len(),
                pred == of_user(self.0),
                out@ == store.sessions@.subrange(0, j as int).filter(pred),
            decreases store.sessions@.len() - j,
        {
            proof {
                crate::table::lemma_filter_step(store.sessions@, j as int, pred);
            }
            if store.sessions[j].user_id == self.0 {
                out.push(store.sessions[j].clone());
            }
            j += 1;
        }
        proof {
            assert(store.sessions@.subrange(0, store.sessions@.len() as int) =~= store.sessions@);
        }
        out
    }
}

/// The test that a session belongs to `user`.
pub open spec fn of_user(user: i32) -> spec_fn(Session) -> bool {
    |s: Session| s.user_id == user
}

/// Title and content of one document of the caller.
pub fn get_document(table: &Table<Document>, auth: &Auth, id: i32) -> (r: Result<
    DocumentBody,
    AccessError,
>)
    requires
        table.wf(),
    ensures
        r == match fetched(table.rows@, *auth, id) {
            Ok(document) => Ok::<DocumentBody, AccessError>(
                (DocumentBody { title: document.title, content: document.content }),
            ),
            Err(e) => Err::<DocumentBody, AccessError>(e),
        },
{
    match fetch_one(table, auth, id) {
        Ok(document) => Ok(DocumentBody::of(&document)),
        Err(e) => Err(e),
    }
}

/// Saves the parts of a document that the client sent: title, content,
/// both or neither. What was not sent stays as it is.
pub fn save(table: &mut Table<Document>, auth: &Auth, id: i32, document: PartialDocument) -> (r:
    Result<Document, AccessError>)
    requires
        old(table).wf(),
    ensures
        final(table).wf(),
        final(table).next_id == old(table).next_id,
        modified(old(table).rows@, final(table).rows@, *auth, id, document.patch(), r),
{
    modify(table, auth, id, document.into_patch())
}

/// The row that a reference from another row points to: nothing for no
/// reference, the row for one that holds, and a fault for one that dangles.
pub open spec fn target<R: Row>(rows: Seq<R>, reference: Option<i32>) -> Result<
    Option<R>,
    AccessError,
> {
    match reference {
        None => Ok(None),
        Some(id) => if has_row(rows, id) {
            Ok(Some(rows[row_index(rows, id)]))
        } else {
            Err(AccessError::Fault)
        },
    }
}

/// Follows a reference from one row to another, whoever owns that one.
pub fn referenced<R: Row>(table: &Table<R>, reference: Option<i32>) -> (r: Result<
    Option<R>,
    AccessError,
>)
    requires
        table.wf(),
    ensures
        r == target(table.rows@, reference),
{
    match reference {
        None => Ok(None),
        Some(id) => match table.find(id) {
            Some(row) => Ok(Some(row)),
            None => Err(AccessError::Fault),
        },
    }
}

impl Note {
    /// The subject that the note is filed under.
    pub fn subject(&self, db: &Database) -> (r: Result<Option<Subject>, AccessError>)
        requires
            db.wf(),
        ensures
            r == target(db.subjects.rows@, self.subject),
    {
        referenced(&db.subjects, self.subject)
    }
}

impl Assessment {
    /// The subject of the assessment.
    pub fn subject(&self, db: &Database) -> (r: Result<Subject, AccessError>)
        requires
            db.wf(),
        ensures
            r == match target(db.subjects.rows@, Some(self.subject)) {
                Ok(Some(subject)) => Ok::<Subject, AccessError>(subject),
                _ => Err::<Subject, AccessError>(AccessError::Fault),
            },
    {
        match db.subjects.find(self.subject) {
            Some(row) => Ok(row),
            None => Err(AccessError::Fault),
        }
    }
}

impl Todo {
    /// The subject that the to-do is filed under.
    pub fn subject(&self, db: &Database) -> (r: Result<Option<Subject>, AccessError>)
        requires
            db.wf(),
        ensures
            r == target(db.subjects.rows@, self.subject),
    {
        referenced(&db.subjects, self.subject)
    }

    /// The to-do that this one hangs under.
    pub fn parent(&self, db: &Database) -> (r: Result<Option<Todo>, AccessError>)
        requires
            db.wf(),
        ensures
            r == target(db.todos.rows@, self.parent),
    {
        referenced(&db.todos, self.parent)
    }

    /// The to-dos that hang directly under this one, in table order.
    pub fn children(&self, db: &Database) -> (r: Vec<Todo>)
        ensures
            r@ == db.todos.rows@.filter(child_of::<Todo>(self.id)),
    {
        db.todos.children(self.id)
    }
}

/// Saving the title alone and saving the content alone, in either order,
/// leave a document with both: the new title and the new content. A part
/// that is not sent never replaces what is stored, and id and owner stay.
pub proof fn law_saves_compose(row: Document, title: String, content: String)
    ensures
        ({
            let first = (PartialDocument { title: Some(title), content: None }).patch();
            let second = (PartialDocument { title: None, content: Some(content) }).patch();
            let nothing = (PartialDocument { title: None, content: None }).patch();
            let both = row.patched(first).patched(second);
            &&& Document::disjoint(first, second)
            &&& both == row.patched(second).patched(first)
            &&& both.title == title
            &&& both.content == Some(content)
            &&& both.id == row.id
            &&& both.owner == row.owner
            &&& row.patched(first).content == row.content
            &&& row.patched(second).title == row.title
            &&& row.patched(nothing) == row
        }),
{
}

} // verus!
