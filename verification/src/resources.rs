//! The records that users keep: subjects, notes, to-dos, documents and
//! assessments. Each row has an id and an owner; a to-do may hang under
//! another to-do.

use vstd::prelude::*;
use crate::account::copy_text;
use crate::assessment::{AssessmentStatus, DuePeriod};
use crate::table::{Patchable, Row};

verus! {

/// The value of a field after a patch: the new one where the patch names
/// the field, the old one where it does not.
pub open spec fn pick<T>(new: Option<T>, old: T) -> T {
    match new {
        Some(v) => v,
        None => old,
    }
}

/// What two patches in a row say of one field: the later one where it
/// names the field, else the earlier one.
pub open spec fn later<T>(first: Option<T>, second: Option<T>) -> Option<T> {
    if second.is_some() {
        second
    } else {
        first
    }
}

/// The value of a field after a patch.
pub fn take<T>(new: Option<T>, old: T) -> (r: T)
    ensures
        r == pick(new, old),
{
    match new {
        Some(v) => v,
        None => old,
    }
}

/// A subject that notes, to-dos and assessments can be filed under.
#[derive(Debug)]
pub struct Subject {
    pub id: i32,
    pub owner: i32,
    pub name: String,
    pub class: String,
    /// Whether the subject appears in navigation.
    pub active: bool,
    pub google_classroom_id: Option<String>,
}

impl Clone for Subject {
    fn clone(&self) -> (r: Self)
        ensures
            r == *self,
    {
        Subject {
            id: self.id,
            owner: self.owner,
            name: self.name.clone(),
            class: self.class.clone(),
            active: self.active,
            google_classroom_id: copy_text(&self.google_classroom_id),
        }
    }
}

impl Row for Subject {
    open spec fn row_id(&self) -> i32 {
        self.id
    }

    open spec fn row_owner(&self) -> i32 {
        self.owner
    }

    open spec fn row_parent(&self) -> Option<i32> {
        None
    }

    open spec fn stamped(self, id: i32, owner: i32) -> Self {
        Subject { id, owner, ..self }
    }

    proof fn lemma_stamped(self, id: i32, owner: i32) {
    }

    fn id(&self) -> (r: i32) {
        self.id
    }

    fn owner(&self) -> (r: i32) {
        self.owner
    }

    fn parent(&self) -> (r: Option<i32>) {
        None
    }

    fn duplicate(&self) -> (r: Self) {
        self.clone()
    }

    fn stamp(self, id: i32, owner: i32) -> (r: Self) {
        let mut row = self;
        row.id = id;
        row.owner = owner;
        row
    }
}

/// A partial update of a subject.
#[derive(Debug)]
pub struct SubjectPatch {
    pub name: Option<String>,
    pub class: Option<String>,
    pub active: Option<bool>,
    pub google_classroom_id: Option<Option<String>>,
}

impl SubjectPatch {
    /// The patch that changes nothing.
    pub fn empty() -> (r: SubjectPatch)
        ensures
            r == (SubjectPatch { name: None, class: None, active: None, google_classroom_id: None }),
    {
        SubjectPatch { name: None, class: None, active: None, google_classroom_id: None }
    }
}

impl Patchable for Subject {
    type Patch = SubjectPatch;

    open spec fn patched(self, patch: SubjectPatch) -> Self {
        Subject {
            name: pick(patch.name, self.name),
            class: pick(patch.class, self.class),
            active: pick(patch.active, self.active),
            google_classroom_id: pick(patch.google_classroom_id, self.google_classroom_id),
            ..self
        }
    }

    open spec fn merged(first: SubjectPatch, second: SubjectPatch) -> SubjectPatch {
        SubjectPatch {
            name: later(first.name, second.name),
            class: later(first.class, second.class),
            active: later(first.active, second.active),
            google_classroom_id: later(first.google_classroom_id, second.google_classroom_id),
        }
    }

    open spec fn disjoint(first: SubjectPatch, second: SubjectPatch) -> bool {
        &&& !(first.name.is_some() && second.name.is_some())
        &&& !(first.class.is_some() && second.class.is_some())
        &&& !(first.active.is_some() && second.active.is_some())
        &&& !(first.google_classroom_id.is_some() && second.google_classroom_id.is_some())
    }

    proof fn lemma_patched(self, patch: SubjectPatch) {
    }

    proof fn lemma_patch_sequence(self, first: SubjectPatch, second: SubjectPatch) {
    }

    proof fn lemma_disjoint_commute(first: SubjectPatch, second: SubjectPatch) {
    }

    fn apply(self, patch: SubjectPatch) -> (r: Self) {
        Subject {
            id: self.id,
            owner: self.owner,
            name: take(patch.name, self.name),
            class: take(patch.class, self.class),
            active: take(patch.active, self.active),
            google_classroom_id: take(patch.google_classroom_id, self.google_classroom_id),
        }
    }
}

/// A to-do. It may hang under another to-do, its parent.
#[derive(Debug)]
pub struct Todo {
    pub id: i32,
    pub owner: i32,
    pub title: String,
    pub completed: bool,
    pub subject: Option<i32>,
    pub parent: Option<i32>,
    /// The due date, in days since the Unix epoch.
    pub due: Option<i32>,
    /// Archived to-dos are hidden from the default view.
    pub archived: bool,
}

impl Clone for Todo {
    fn clone(&self) -> (r: Self)
        ensures
            r == *self,
    {
        Todo {
            id: self.id,
            owner: self.owner,
            title: self.title.clone(),
            completed: self.completed,
            subject: self.subject,
            parent: self.parent,
            due: self.due,
            archived: self.archived,
        }
    }
}

impl Row for Todo {
    open spec fn row_id(&self) -> i32 {
        self.id
    }

    open spec fn row_owner(&self) -> i32 {
        self.owner
    }

    open spec fn row_parent(&self) -> Option<i32> {
        self.parent
    }

    open spec fn stamped(self, id: i32, owner: i32) -> Self {
        Todo { id, owner, ..self }
    }

    proof fn lemma_stamped(self, id: i32, owner: i32) {
    }

    fn id(&self) -> (r: i32) {
        self.id
    }

    fn owner(&self) -> (r: i32) {
        self.owner
    }

    fn parent(&self) -> (r: Option<i32>) {
        self.parent
    }

    fn duplicate(&self) -> (r: Self) {
        self.clone()
    }

    fn stamp(self, id: i32, owner: i32) -> (r: Self) {
        let mut row = self;
        row.id = id;
        row.owner = owner;
        row
    }
}

/// A partial update of a to-do.
#[derive(Debug)]
pub struct TodoPatch {
    pub title: Option<String>,
    pub completed: Option<bool>,
    pub subject: Option<Option<i32>>,
    pub parent: Option<Option<i32>>,
    pub due: Option<Option<i32>>,
    pub archived: Option<bool>,
}

impl TodoPatch {
    /// The patch that changes nothing.
    pub fn empty() -> (r: TodoPatch)
        ensures
            r == (TodoPatch { title: None, completed: None, subject: None, parent: None, due: None, archived: None }),
    {
        TodoPatch { title: None, completed: None, subject: None, parent: None, due: None, archived: None }
    }
}

impl Patchable for Todo {
    type Patch = TodoPatch;

    open spec fn patched(self, patch: TodoPatch) -> Self {
        Todo {
            title: pick(patch.title, self.title),
            completed: pick(patch.completed, self.completed),
            subject: pick(patch.subject, self.subject),
            parent: pick(patch.parent, self.parent),
            due: pick(patch.due, self.due),
            archived: pick(patch.archived, self.archived),
            ..self
        }
    }

    open spec fn merged(first: TodoPatch, second: TodoPatch) -> TodoPatch {
        TodoPatch {
            title: later(first.title, second.title),
            completed: later(first.completed, second.completed),
            subject: later(first.subject, second.subject),
            parent: later(first.parent, second.parent),
            due: later(first.due, second.due),
            archived: later(first.archived, second.archived),
        }
    }

    open spec fn disjoint(first: TodoPatch, second: TodoPatch) -> bool {
        &&& !(first.title.is_some() && second.title.is_some())
        &&& !(first.completed.is_some() && second.completed.is_some())
        &&& !(first.subject.is_some() && second.subject.is_some())
        &&& !(first.parent.is_some() && second.parent.is_some())
        &&& !(first.due.is_some() && second.due.is_some())
        &&& !(first.archived.is_some() && second.archived.is_some())
    }

    proof fn lemma_patched(self, patch: TodoPatch) {
    }

    proof fn lemma_patch_sequence(self, first: TodoPatch, second: TodoPatch) {
    }

    proof fn lemma_disjoint_commute(first: TodoPatch, second: TodoPatch) {
    }

    fn apply(self, patch: TodoPatch) -> (r: Self) {
        Todo {
            id: self.id,
            owner: self.owner,
            title: take(patch.title, self.title),
            completed: take(patch.completed, self.completed),
            subject: take(patch.subject, self.subject),
            parent: take(patch.parent, self.parent),
            due: take(patch.due, self.due),
            archived: take(patch.archived, self.archived),
        }
    }
}

/// A note taken in a class.
#[derive(Debug)]
pub struct Note {
    pub id: i32,
    pub owner: i32,
    /// The date of the class, in days since the Unix epoch.
    pub date: i32,
    pub title: String,
    pub subject: Option<i32>,
    /// The content, as the editor's JSON text.
    pub content: String,
}

impl Clone for Note {
    fn clone(&self) -> (r: Self)
        ensures
            r == *self,
    {
        Note {
            id: self.id,
            owner: self.owner,
            date: self.date,
            title: self.title.clone(),
            subject: self.subject,
            content: self.content.clone(),
        }
    }
}

impl Row for Note {
    open spec fn row_id(&self) -> i32 {
        self.id
    }

    open spec fn row_owner(&self) -> i32 {
        self.owner
    }

    open spec fn row_parent(&self) -> Option<i32> {
        None
    }

    open spec fn stamped(self, id: i32, owner: i32) -> Self {
        Note { id, owner, ..self }
    }

    proof fn lemma_stamped(self, id: i32, owner: i32) {
    }

    fn id(&self) -> (r: i32) {
        self.id
    }

    fn owner(&self) -> (r: i32) {
        self.owner
    }

    fn parent(&self) -> (r: Option<i32>) {
        None
    }

    fn duplicate(&self) -> (r: Self) {
        self.clone()
    }

    fn stamp(self, id: i32, owner: i32) -> (r: Self) {
        let mut row = self;
        row.id = id;
        row.owner = owner;
        row
    }
}

/// A partial update of a note.
#[derive(Debug)]
pub struct NotePatch {
    pub date: Option<i32>,
    pub title: Option<String>,
    pub subject: Option<Option<i32>>,
    pub content: Option<String>,
}

impl NotePatch {
    /// The patch that changes nothing.
    pub fn empty() -> (r: NotePatch)
        ensures
            r == (NotePatch { date: None, title: None, subject: None, content: None }),
    {
        NotePatch { date: None, title: None, subject: None, content: None }
    }
}

impl Patchable for Note {
    type Patch = NotePatch;

    open spec fn patched(self, patch: NotePatch) -> Self {
        Note {
            date: pick(patch.date, self.date),
            title: pick(patch.title, self.title),
            subject: pick(patch.subject, self.subject),
            content: pick(patch.content, self.content),
            ..self
        }
    }

    open spec fn merged(first: NotePatch, second: NotePatch) -> NotePatch {
        NotePatch {
            date: later(first.date, second.date),
            title: later(first.title, second.title),
            subject: later(first.subject, second.subject),
            content: later(first.content, second.content),
        }
    }

    open spec fn disjoint(first: NotePatch, second: NotePatch) -> bool {
        &&& !(first.date.is_some() && second.date.is_some())
        &&& !(first.title.is_some() && second.title.is_some())
        &&& !(first.subject.is_some() && second.subject.is_some())
        &&& !(first.content.is_some() && second.content.is_some())
    }

    proof fn lemma_patched(self, patch: NotePatch) {
    }

    proof fn lemma_patch_sequence(self, first: NotePatch, second: NotePatch) {
    }

    proof fn lemma_disjoint_commute(first: NotePatch, second: NotePatch) {
    }

    fn apply(self, patch: NotePatch) -> (r: Self) {
        Note {
            id: self.id,
            owner: self.owner,
            date: take(patch.date, self.date),
            title: take(patch.title, self.title),
            subject: take(patch.subject, self.subject),
            content: take(patch.content, self.content),
        }
    }
}

/// A document.
#[derive(Debug)]
pub struct Document {
    pub id: i32,
    pub owner: i32,
    /// Seconds since the Unix epoch.
    pub created_at: i64,
    pub title: String,
    /// The content, as the editor's JSON text.
    pub content: Option<String>,
    /// Seconds since the Unix epoch.
    pub last_modified: i64,
}

impl Clone for Document {
    fn clone(&self) -> (r: Self)
        ensures
            r == *self,
    {
        Document {
            id: self.id,
            owner: self.owner,
            created_at: self.created_at,
            title: self.title.clone(),
            content: copy_text(&self.content),
            last_modified: self.last_modified,
        }
    }
}

impl Row for Document {
    open spec fn row_id(&self) -> i32 {
        self.id
    }

    open spec fn row_owner(&self) -> i32 {
        self.owner
    }

    open spec fn row_parent(&self) -> Option<i32> {
        None
    }

    open spec fn stamped(self, id: i32, owner: i32) -> Self {
        Document { id, owner, ..self }
    }

    proof fn lemma_stamped(self, id: i32, owner: i32) {
    }

    fn id(&self) -> (r: i32) {
        self.id
    }

    fn owner(&self) -> (r: i32) {
        self.owner
    }

    fn parent(&self) -> (r: Option<i32>) {
        None
    }

    fn duplicate(&self) -> (r: Self) {
        self.clone()
    }

    fn stamp(self, id: i32, owner: i32) -> (r: Self) {
        let mut row = self;
        row.id = id;
        row.owner = owner;
        row
    }
}

/// A partial update of a document.
#[derive(Debug)]
pub struct DocumentPatch {
    pub title: Option<String>,
    pub content: Option<Option<String>>,
}

impl DocumentPatch {
    /// The patch that changes nothing.
    pub fn empty() -> (r: DocumentPatch)
        ensures
            r == (DocumentPatch { title: None, content: None }),
    {
        DocumentPatch { title: None, content: None }
    }
}

impl Patchable for Document {
    type Patch = DocumentPatch;

    open spec fn patched(self, patch: DocumentPatch) -> Self {
        Document {
            title: pick(patch.title, self.title),
            content: pick(patch.content, self.content),
            ..self
        }
    }

    open spec fn merged(first: DocumentPatch, second: DocumentPatch) -> DocumentPatch {
        DocumentPatch {
            title: later(first.title, second.title),
            content: later(first.content, second.content),
        }
    }

    open spec fn disjoint(first: DocumentPatch, second: DocumentPatch) -> bool {
        &&& !(first.title.is_some() && second.title.is_some())
        &&& !(first.content.is_some() && second.content.is_some())
    }

    proof fn lemma_patched(self, patch: DocumentPatch) {
    }

    proof fn lemma_patch_sequence(self, first: DocumentPatch, second: DocumentPatch) {
    }

    proof fn lemma_disjoint_commute(first: DocumentPatch, second: DocumentPatch) {
    }

    fn apply(self, patch: DocumentPatch) -> (r: Self) {
        Document {
            id: self.id,
            owner: self.owner,
            created_at: self.created_at,
            title: take(patch.title, self.title),
            content: take(patch.content, self.content),
            last_modified: self.last_modified,
        }
    }
}

/// An assessment in a subject. Assessments are read, never changed.
#[derive(Debug)]
pub struct Assessment {
    pub id: i32,
    pub owner: i32,
    pub subject: i32,
    pub title: String,
    pub exam: bool,
    pub status: AssessmentStatus,
    pub weight: i16,
    /// The due date, in days since the Unix epoch.
    pub due: i32,
    pub due_period: DuePeriod,
    pub issued: Option<i32>,
    pub mark_out_of: Option<i16>,
    pub mark: Option<i16>,
    pub notification: Option<String>,
    pub submission: Option<String>,
    pub reference: Option<String>,
}

impl Clone for Assessment {
    fn clone(&self) -> (r: Self)
        ensures
            r == *self,
    {
        Assessment {
            id: self.id,
            owner: self.owner,
            subject: self.subject,
            title: self.title.clone(),
            exam: self.exam,
            status: self.status,
            weight: self.weight,
            due: self.due,
            due_period: self.due_period,
            issued: self.issued,
            mark_out_of: self.mark_out_of,
            mark: self.mark,
            notification: copy_text(&self.notification),
            submission: copy_text(&self.submission),
            reference: copy_text(&self.reference),
        }
    }
}

impl Row for Assessment {
    open spec fn row_id(&self) -> i32 {
        self.id
    }

    open spec fn row_owner(&self) -> i32 {
        self.owner
    }

    open spec fn row_parent(&self) -> Option<i32> {
        None
    }

    open spec fn stamped(self, id: i32, owner: i32) -> Self {
        Assessment { id, owner, ..self }
    }

    proof fn lemma_stamped(self, id: i32, owner: i32) {
    }

    fn id(&self) -> (r: i32) {
        self.id
    }

    fn owner(&self) -> (r: i32) {
        self.owner
    }

    fn parent(&self) -> (r: Option<i32>) {
        None
    }

    fn duplicate(&self) -> (r: Self) {
        self.clone()
    }

    fn stamp(self, id: i32, owner: i32) -> (r: Self) {
        let mut row = self;
        row.id = id;
        row.owner = owner;
        row
    }
}

/// What a client sends and receives of a document: title and content.
#[derive(Debug)]
pub struct DocumentBody {
    pub title: String,
    pub content: Option<String>,
}

/// A document body of which parts may be missing: what a client sends to
/// change a document.
#[derive(Debug)]
pub struct PartialDocument {
    pub title: Option<String>,
    pub content: Option<String>,
}

/// A partial document without a title is no document body.
#[derive(Debug, Clone, Copy, PartialEq, Eq, Structural)]
pub struct MissingTitle;

impl DocumentBody {
    /// The body that the parts make up; the title must be there.
    pub fn try_from(value: PartialDocument) -> (r: Result<DocumentBody, MissingTitle>)
        ensures
            r == match value.title {
                Some(title) => Ok::<DocumentBody, MissingTitle>(
                    (DocumentBody { title, content: value.content }),
                ),
                None => Err::<DocumentBody, MissingTitle>(MissingTitle),
            },
    {
        match value.title {
            Some(title) => Ok(DocumentBody { title, content: value.content }),
            None => Err(MissingTitle),
        }
    }

    /// Title and content of a document.
    pub fn of(document: &Document) -> (r: DocumentBody)
        ensures
            r == (DocumentBody { title: document.title, content: document.content }),
    {
        DocumentBody { title: document.title.clone(), content: copy_text(&document.content) }
    }
}

impl PartialDocument {
    /// The body with all its parts.
    pub fn from(value: DocumentBody) -> (r: PartialDocument)
        ensures
            r == (PartialDocument { title: Some(value.title), content: value.content }),
    {
        PartialDocument { title: Some(value.title), content: value.content }
    }

    /// The change that the parts ask for: a part that is there replaces the
    /// document's, a part that is missing leaves it alone.
    pub open spec fn patch(self) -> DocumentPatch {
        DocumentPatch {
            title: self.title,
            content: match self.content {
                Some(text) => Some(Some(text)),
                None => None,
            },
        }
    }

    /// The change that the parts ask for.
    pub fn into_patch(self) -> (r: DocumentPatch)
        ensures
            r == self.patch(),
    {
        DocumentPatch {
            title: self.title,
            content: match self.content {
                Some(text) => Some(Some(text)),
                None => None,
            },
        }
    }
}

} // verus!
