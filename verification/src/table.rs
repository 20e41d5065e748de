//! Owner-scoped tables: rows that belong to one user each, and the rule
//! that a row is read, changed or deleted only by its owner.

use vstd::prelude::*;

verus! {

/// Why access to a row was refused.
#[derive(Debug, Clone, Copy, PartialEq, Eq, Structural)]
pub enum AccessError {
    /// The request is not authenticated.
    Unauthorized,
    /// The row belongs to another user.
    Forbidden,
    /// No row has the id.
    NotFound,
    /// The table cannot take the change.
    Fault,
}

/// The status code under which a refusal is reported.
pub fn access_status(error: AccessError) -> (r: u16)
    ensures
        r == match error {
            AccessError::Unauthorized => 401u16,
            AccessError::Forbidden => 403u16,
            AccessError::NotFound => 404u16,
            AccessError::Fault => 500u16,
        },
{
    match error {
        AccessError::Unauthorized => 401,
        AccessError::Forbidden => 403,
        AccessError::NotFound => 404,
        AccessError::Fault => 500,
    }
}

/// A row of an owner-scoped table.
pub trait Row: Sized {
    /// The row's id.
    spec fn row_id(&self) -> i32;

    /// The id of the user that owns the row.
    spec fn row_owner(&self) -> i32;

    /// The id of the row that this one hangs under, if any.
    spec fn row_parent(&self) -> Option<i32>;

    /// The row with id and owner replaced.
    spec fn stamped(self, id: i32, owner: i32) -> Self;

    proof fn lemma_stamped(self, id: i32, owner: i32)
        ensures
            self.stamped(id, owner).row_id() == id,
            self.stamped(id, owner).row_owner() == owner,
            self.stamped(id, owner).row_parent() == self.row_parent(),
    ;

    fn id(&self) -> (r: i32)
        ensures
            r == self.row_id(),
    ;

    fn owner(&self) -> (r: i32)
        ensures
            r == self.row_owner(),
    ;

    fn parent(&self) -> (r: Option<i32>)
        ensures
            r == self.row_parent(),
    ;

    fn duplicate(&self) -> (r: Self)
        ensures
            r == *self,
    ;

    fn stamp(self, id: i32, owner: i32) -> (r: Self)
        ensures
            r == self.stamped(id, owner),
    ;
}

/// A row that takes partial updates: a patch names the fields to change and
/// leaves the others alone.
pub trait Patchable: Row {
    type Patch;

    /// The row after the patch.
    spec fn patched(self, patch: Self::Patch) -> Self;

    /// One patch that does what `first` and then `second` do: where both
    /// name a field, `second` wins.
    spec fn merged(first: Self::Patch, second: Self::Patch) -> Self::Patch;

    /// Whether the two patches name no field in common.
    spec fn disjoint(first: Self::Patch, second: Self::Patch) -> bool;

    proof fn lemma_patched(self, patch: Self::Patch)
        ensures
            self.patched(patch).row_id() == self.row_id(),
            self.patched(patch).row_owner() == self.row_owner(),
    ;

    proof fn lemma_patch_sequence(self, first: Self::Patch, second: Self::Patch)
        ensures
            self.patched(first).patched(second) == self.patched(Self::merged(first, second)),
    ;

    proof fn lemma_disjoint_commute(first: Self::Patch, second: Self::Patch)
        requires
            Self::disjoint(first, second),
        ensures
            Self::merged(first, second) == Self::merged(second, first),
    ;

    fn apply(self, patch: Self::Patch) -> (r: Self)
        ensures
            r == self.patched(patch),
    ;
}

/// Whether some row has the id.
pub open spec fn has_row<R: Row>(rows: Seq<R>, id: i32) -> bool {
    exists|i: int| 0 <= i < rows.len() && (#[trigger] rows[i]).row_id() == id
}

/// The place of the row with the id, where there is one.
pub open spec fn row_index<R: Row>(rows: Seq<R>, id: i32) -> int {
    choose|i: int| 0 <= i < rows.len() && (#[trigger] rows[i]).row_id() == id
}

/// No two rows share an id.
pub open spec fn distinct_rows<R: Row>(rows: Seq<R>) -> bool {
    forall|i: int, j: int|
        0 <= i < j < rows.len() ==> (#[trigger] rows[i]).row_id() != (#[trigger] rows[j]).row_id()
}

/// The ownership check on what a lookup by id found: `found` is the owner
/// of the row, or `None` where no row has the id.
pub open spec fn owner_verdict(found: Option<i32>, user: i32) -> Result<(), AccessError> {
    match found {
        None => Err(AccessError::NotFound),
        Some(owner) => if owner == user {
            Ok(())
        } else {
            Err(AccessError::Forbidden)
        },
    }
}

/// Decides the ownership check on what a lookup by id found.
pub fn check_owner(found: Option<i32>, user: i32) -> (r: Result<(), AccessError>)
    ensures
        r == owner_verdict(found, user),
{
    match found {
        None => Err(AccessError::NotFound),
        Some(owner) => if owner == user {
            Ok(())
        } else {
            Err(AccessError::Forbidden)
        },
    }
}

/// The ownership check: the place of the row with the id where `user` owns
/// it, `NotFound` where there is no such row, `Forbidden` where it belongs
/// to somebody else.
pub open spec fn access<R: Row>(rows: Seq<R>, id: i32, user: i32) -> Result<int, AccessError> {
    if !has_row(rows, id) {
        Err(AccessError::NotFound)
    } else if rows[row_index(rows, id)].row_owner() != user {
        Err(AccessError::Forbidden)
    } else {
        Ok(row_index(rows, id))
    }
}

/// The rows that `user` owns, in table order.
pub open spec fn owned_rows<R: Row>(rows: Seq<R>, user: i32) -> Seq<R> {
    rows.filter(owned_by::<R>(user))
}

/// The test that a row belongs to `user`.
pub open spec fn owned_by<R: Row>(user: i32) -> spec_fn(R) -> bool {
    |x: R| x.row_owner() == user
}

/// The test that a row hangs directly under the row with the id.
pub open spec fn child_of<R: Row>(id: i32) -> spec_fn(R) -> bool {
    |x: R| x.row_parent() == Some(id)
}

/// The parent of the row with the id, if there is such a row and it has one.
pub open spec fn parent_of<R: Row>(rows: Seq<R>, id: i32) -> Option<i32> {
    if has_row(rows, id) {
        rows[row_index(rows, id)].row_parent()
    } else {
        None
    }
}

/// Whether following parents from `id` reaches `ancestor` within `steps`
/// links.
pub open spec fn descends<R: Row>(rows: Seq<R>, id: i32, ancestor: i32, steps: nat) -> bool
    decreases steps,
{
    id == ancestor || (steps > 0 && parent_of(rows, id).is_some() && descends(
        rows,
        parent_of(rows, id).unwrap(),
        ancestor,
        (steps - 1) as nat,
    ))
}

/// Whether `id` is `ancestor` or hangs under it, however deep.
pub open spec fn under<R: Row>(rows: Seq<R>, id: i32, ancestor: i32) -> bool {
    exists|steps: nat| descends(rows, id, ancestor, steps)
}

/// The rows that are left once the row with the id is deleted together with
/// everything that hangs under it.
pub open spec fn without_tree<R: Row>(rows: Seq<R>, id: i32) -> Seq<R> {
    rows.filter(outside_tree(rows, id))
}

/// The test that a row neither is the row with the id nor hangs under it.
pub open spec fn outside_tree<R: Row>(rows: Seq<R>, id: i32) -> spec_fn(R) -> bool {
    |x: R| !under(rows, x.row_id(), id)
}

/// One step of filtering a sequence from the left.
pub proof fn lemma_filter_step<A>(s: Seq<A>, j: int, pred: spec_fn(A) -> bool)
    requires
        0 <= j < s.len(),
    ensures
        s.subrange(0, j + 1).filter(pred) == if pred(s[j]) {
            s.subrange(0, j).filter(pred).push(s[j])
        } else {
            s.subrange(0, j).filter(pred)
        },
{
    reveal(Seq::filter);
    assert(s.subrange(0, j + 1).drop_last() =~= s.subrange(0, j));
}

/// A table of rows, each owned by one user.
#[derive(Debug)]
pub struct Table<R: Row> {
    pub rows: Vec<R>,
    /// The id that the next row gets.
    pub next_id: i32,
}

impl<R: Row> Table<R> {
    /// Ids are unique and were given out by this table.
    pub open spec fn wf(&self) -> bool {
        &&& distinct_rows(self.rows@)
        &&& forall|i: int|
            0 <= i < self.rows@.len() ==> (#[trigger] self.rows@[i]).row_id() < self.next_id
    }

    /// An empty table; ids start at 1.
    pub fn new() -> (r: Self)
        ensures
            r.wf(),
            r.rows@.len() == 0,
            r.next_id == 1,
    {
        Table { rows: Vec::new(), next_id: 1 }
    }

    /// Where the row with the id stands.
    pub fn position(&self, id: i32) -> (r: Option<usize>)
        requires
            self.wf(),
        ensures
            r.is_some() == has_row(self.rows@, id),
            r.is_some() ==> r.unwrap() == row_index(self.rows@, id) && r.unwrap()
                < self.rows@.len() && self.rows@[r.unwrap() as int].row_id() == id,
    {
        let mut i: usize = 0;
        while i < self.rows.len()
            invariant
                self.wf(),
                i <= self.rows@.len(),
                forall|k: int| 0 <= k < i ==> (#[trigger] self.rows@[k]).row_id() != id,
            decreases self.rows@.len() - i,
        {
            if self.rows[i].id() == id {
                proof {
                    let j = row_index(self.rows@, id);
                    assert(self.rows@[i as int].row_id() == id);
                    assert(j == i);
                }
                return Some(i);
            }
            i += 1;
        }
        None
    }

    /// The ownership check that stands before every read and every change.
    pub fn authorize(&self, id: i32, user: i32) -> (r: Result<usize, AccessError>)
        requires
            self.wf(),
        ensures
            match r {
                Ok(i) => access(self.rows@, id, user) == Ok::<int, AccessError>(i as int) && i
                    < self.rows@.len() && self.rows@[i as int].row_id() == id
                    && self.rows@[i as int].row_owner() == user,
                Err(e) => access(self.rows@, id, user) == Err::<int, AccessError>(e),
            },
    {
        match self.position(id) {
            None => match check_owner(None, user) {
                Ok(()) => Err(AccessError::NotFound),
                Err(e) => Err(e),
            },
            Some(i) => match check_owner(Some(self.rows[i].owner()), user) {
                Ok(()) => Ok(i),
                Err(e) => Err(e),
            },
        }
    }

    /// The row with the id, for its owner only.
    pub fn get(&self, id: i32, user: i32) -> (r: Result<R, AccessError>)
        requires
            self.wf(),
        ensures
            r == match access(self.rows@, id, user) {
                Ok(i) => Ok::<R, AccessError>(self.rows@[i]),
                Err(e) => Err::<R, AccessError>(e),
            },
            r.is_ok() ==> r.unwrap().row_owner() == user && r.unwrap().row_id() == id,
    {
        match self.authorize(id, user) {
            Ok(i) => Ok(self.rows[i].duplicate()),
            Err(e) => Err(e),
        }
    }

    /// All rows that the user owns, in table order.
    pub fn list(&self, user: i32) -> (r: Vec<R>)
        ensures
            r@ == owned_rows(self.rows@, user),
    {
        let mut out: Vec<R> = Vec::new();
        let ghost pred = owned_by::<R>(user);
        let mut j: usize = 0;
        proof {
            reveal(Seq::filter);
            assert(self.rows@.subrange(0, 0).filter(pred) =~= Seq::<R>::empty());
        }
        while j < self.rows.len()
            invariant
                j <= self.rows@.len(),
                pred == owned_by::<R>(user),
                out@ == self.rows@.subrange(0, j as int).filter(pred),
            decreases self.rows@.len() - j,
        {
            proof {
                lemma_filter_step(self.rows@, j as int, pred);
            }
            if self.rows[j].owner() == user {
                out.push(self.rows[j].duplicate());
            }
            j += 1;
        }
        proof {
            assert(self.rows@.subrange(0, self.rows@.len() as int) =~= self.rows@);
        }
        out
    }

    /// The row with the id, whoever owns it.
    pub fn find(&self, id: i32) -> (r: Option<R>)
        requires
            self.wf(),
        ensures
            r.is_some() == has_row(self.rows@, id),
            r.is_some() ==> r.unwrap() == self.rows@[row_index(self.rows@, id)],
    {
        match self.position(id) {
            Some(i) => Some(self.rows[i].duplicate()),
            None => None,
        }
    }

    /// The rows that hang directly under the row with the id, in table
    /// order.
    pub fn children(&self, id: i32) -> (r: Vec<R>)
        ensures
            r@ == self.rows@.filter(child_of::<R>(id)),
    {
        let mut out: Vec<R> = Vec::new();
        let ghost pred = child_of::<R>(id);
        let mut j: usize = 0;
        proof {
            reveal(Seq::filter);
            assert(self.rows@.subrange(0, 0).filter(pred) =~= Seq::<R>::empty());
        }
        while j < self.rows.len()
            invariant
                j <= self.rows@.len(),
                pred == child_of::<R>(id),
                out@ == self.rows@.subrange(0, j as int).filter(pred),
            decreases self.rows@.len() - j,
        {
            proof {
                lemma_filter_step(self.rows@, j as int, pred);
            }
            match self.rows[j].parent() {
                Some(p) => {
                    if p == id {
                        out.push(self.rows[j].duplicate());
                    }
                },
                None => {},
            }
            j += 1;
        }
        proof {
            assert(self.rows@.subrange(0, self.rows@.len() as int) =~= self.rows@);
        }
        out
    }

    /// Adds a row for the user. Whatever id and owner the draft carries,
    /// the new row gets the next free id and the user as its owner.
    pub fn create(&mut self, user: i32, draft: R) -> (r: Result<R, AccessError>)
        requires
            old(self).wf(),
        ensures
            final(self).wf(),
            old(self).next_id == i32::MAX ==> r == Err::<R, AccessError>(AccessError::Fault)
                && *final(self) == *old(self),
            old(self).next_id < i32::MAX ==> {
                let row = draft.stamped(old(self).next_id, user);
                &&& r == Ok::<R, AccessError>(row)
                &&& row.row_owner() == user
                &&& row.row_id() == old(self).next_id
                &&& !has_row(old(self).rows@, row.row_id())
                &&& final(self).rows@ == old(self).rows@.push(row)
                &&& final(self).next_id == old(self).next_id + 1
            },
    {
        if self.next_id == i32::MAX {
            return Err(AccessError::Fault);
        }
        let id = self.next_id;
        proof {
            draft.lemma_stamped(id, user);
        }
        let row = draft.stamp(id, user);
        let copy = row.duplicate();
        self.rows.push(row);
        self.next_id = id + 1;
        proof {
            assert forall|a: int, b: int| 0 <= a < b < self.rows@.len() implies (
            #[trigger] self.rows@[a]).row_id() != (#[trigger] self.rows@[b]).row_id() by {
                assert(self.rows@[a] == old(self).rows@[a]);
                if b < old(self).rows@.len() {
                    assert(self.rows@[b] == old(self).rows@[b]);
                }
            }
            assert forall|k: int| 0 <= k < self.rows@.len() implies (
            #[trigger] self.rows@[k]).row_id() < self.next_id by {
                if k < old(self).rows@.len() {
                    assert(self.rows@[k] == old(self).rows@[k]);
                }
            }
        }
        Ok(copy)
    }
}

impl<R: Patchable> Table<R> {
    /// Applies the patch to the row with the id, whoever owns it, and
    /// returns the row as it then stands; `None`, and no change, where no
    /// row has the id.
    pub fn amend(&mut self, id: i32, patch: R::Patch) -> (r: Option<R>)
        requires
            old(self).wf(),
        ensures
            final(self).wf(),
            final(self).next_id == old(self).next_id,
            r.is_some() == has_row(old(self).rows@, id),
            r.is_none() ==> final(self).rows == old(self).rows,
            r.is_some() ==> {
                let i = row_index(old(self).rows@, id);
                &&& r.unwrap() == old(self).rows@[i].patched(patch)
                &&& final(self).rows@ == old(self).rows@.update(i, r.unwrap())
            },
    {
        match self.position(id) {
            None => None,
            Some(i) => {
                proof {
                    self.rows@[i as int].lemma_patched(patch);
                }
                let next = self.rows[i].duplicate().apply(patch);
                let copy = next.duplicate();
                self.rows.set(i, next);
                proof {
                    assert forall|a: int, b: int| 0 <= a < b < self.rows@.len() implies (
                    #[trigger] self.rows@[a]).row_id() != (#[trigger] self.rows@[b]).row_id() by {
                        assert(self.rows@[a].row_id() == old(self).rows@[a].row_id());
                        assert(self.rows@[b].row_id() == old(self).rows@[b].row_id());
                    }
                    assert forall|k: int| 0 <= k < self.rows@.len() implies (
                    #[trigger] self.rows@[k]).row_id() < self.next_id by {
                        assert(self.rows@[k].row_id() == old(self).rows@[k].row_id());
                    }
                }
                Some(copy)
            },
        }
    }

    /// Applies the patch to the row with the id, for its owner only, and
    /// returns the row as it then stands. Fields that the patch does not
    /// name keep their values, and so does every other row. A refusal
    /// changes nothing.
    pub fn update(&mut self, id: i32, user: i32, patch: R::Patch) -> (r: Result<R, AccessError>)
        requires
            old(self).wf(),
        ensures
            final(self).wf(),
            final(self).next_id == old(self).next_id,
            match access(old(self).rows@, id, user) {
                Err(e) => r == Err::<R, AccessError>(e) && final(self).rows == old(self).rows,
                Ok(i) => {
                    &&& r == Ok::<R, AccessError>(old(self).rows@[i].patched(patch))
                    &&& final(self).rows@ == old(self).rows@.update(
                        i,
                        old(self).rows@[i].patched(patch),
                    )
                    &&& r.unwrap().row_owner() == user
                },
            },
    {
        match self.authorize(id, user) {
            Err(e) => Err(e),
            Ok(i) => {
                proof {
                    self.rows@[i as int].lemma_patched(patch);
                }
                match self.amend(id, patch) {
                    Some(row) => Ok(row),
                    None => Err(AccessError::NotFound),
                }
            },
        }
    }
}

/// How many of the marks are set.
pub open spec fn count_set(marks: Seq<bool>) -> nat
    decreases marks.len(),
{
    if marks.len() == 0 {
        0
    } else {
        count_set(marks.drop_last()) + if marks.last() {
            1nat
        } else {
            0nat
        }
    }
}

proof fn lemma_count_bound(marks: Seq<bool>)
    ensures
        count_set(marks) <= marks.len(),
    decreases marks.len(),
{
    if marks.len() > 0 {
        lemma_count_bound(marks.drop_last());
    }
}

proof fn lemma_count_grows(marks: Seq<bool>, j: int)
    requires
        0 <= j < marks.len(),
        !marks[j],
    ensures
        count_set(marks.update(j, true)) == count_set(marks) + 1,
    decreases marks.len(),
{
    let next = marks.update(j, true);
    if j == marks.len() - 1 {
        assert(next.drop_last() =~= marks.drop_last());
    } else {
        assert(next.drop_last() =~= marks.drop_last().update(j, true));
        lemma_count_grows(marks.drop_last(), j);
    }
}

/// Whether the marks respect the link from row `k` to its parent: a row
/// under a marked row is marked.
pub open spec fn closed_at<R: Row>(rows: Seq<R>, marks: Seq<bool>, k: int) -> bool {
    (rows[k].row_parent().is_some() && has_row(rows, rows[k].row_parent().unwrap())
        && marks[row_index(rows, rows[k].row_parent().unwrap())]) ==> marks[k]
}

proof fn lemma_index_of_row<R: Row>(rows: Seq<R>, k: int)
    requires
        distinct_rows(rows),
        0 <= k < rows.len(),
    ensures
        has_row(rows, rows[k].row_id()),
        row_index(rows, rows[k].row_id()) == k,
{
    let id = rows[k].row_id();
    assert(rows[k].row_id() == id);
    let j = row_index(rows, id);
    assert(rows[j].row_id() == id);
}

proof fn lemma_marks_complete<R: Row>(
    rows: Seq<R>,
    marks: Seq<bool>,
    id: i32,
    root: int,
    x: i32,
    steps: nat,
)
    requires
        distinct_rows(rows),
        marks.len() == rows.len(),
        0 <= root < rows.len(),
        rows[root].row_id() == id,
        marks[root],
        forall|k: int| 0 <= k < rows.len() ==> closed_at(rows, marks, k),
        has_row(rows, x),
        descends(rows, x, id, steps),
    ensures
        marks[row_index(rows, x)],
    decreases steps,
{
    lemma_index_of_row(rows, root);
    if x != id {
        let k = row_index(rows, x);
        let p = rows[k].row_parent().unwrap();
        assert(descends(rows, p, id, (steps - 1) as nat));
        if p != id {
            assert(parent_of(rows, p).is_some());
        }
        lemma_marks_complete(rows, marks, id, root, p, (steps - 1) as nat);
        assert(closed_at(rows, marks, k));
    }
}

/// Whether `x` is an unmarked row among the first `bound` rows.
pub open spec fn kept_from<R: Row>(rows: Seq<R>, marks: Seq<bool>, x: R, bound: int) -> bool {
    exists|s: int| 0 <= s < bound && #[trigger] rows[s] == x && !marks[s]
}

/// A place at which `x` stands unmarked among the first `bound` rows.
pub open spec fn source_of<R: Row>(rows: Seq<R>, marks: Seq<bool>, x: R, bound: int) -> int {
    choose|s: int| 0 <= s < bound && #[trigger] rows[s] == x && !marks[s]
}

impl<R: Row> Table<R> {
    /// Marks the row at `root` and every row that hangs under it.
    fn mark_tree(&self, id: i32, root: usize) -> (marks: Vec<bool>)
        requires
            self.wf(),
            root < self.rows@.len(),
            self.rows@[root as int].row_id() == id,
        ensures
            marks@.len() == self.rows@.len(),
            forall|j: int|
                0 <= j < self.rows@.len() ==> marks@[j] == under(
                    self.rows@,
                    (#[trigger] self.rows@[j]).row_id(),
                    id,
                ),
    {
        let n = self.rows.len();
        let mut marks: Vec<bool> = Vec::new();
        let mut j: usize = 0;
        while j < n
            invariant
                n == self.rows@.len(),
                j <= n,
                marks@.len() == j,
                forall|k: int| 0 <= k < j ==> marks@[k] == (k == root),
            decreases n - j,
        {
            marks.push(j == root);
            j += 1;
        }
        proof {
            assert(descends(self.rows@, id, id, 0));
        }
        let mut done = false;
        while !done
            invariant
                self.wf(),
                n == self.rows@.len(),
                marks@.len() == n,
                root < n,
                self.rows@[root as int].row_id() == id,
                marks@[root as int],
                forall|k: int|
                    0 <= k < n && marks@[k] ==> under(
                        self.rows@,
                        (#[trigger] self.rows@[k]).row_id(),
                        id,
                    ),
                done ==> forall|k: int| 0 <= k < n ==> closed_at(self.rows@, marks@, k),
            decreases
                    n - count_set(marks@) + if done {
                        0int
                    } else {
                        1int
                    },
        {
            let ghost start = marks@;
            proof {
                lemma_count_bound(start);
            }
            let mut changed = false;
            let mut j: usize = 0;
            while j < n
                invariant
                    self.wf(),
                    n == self.rows@.len(),
                    marks@.len() == n,
                    start.len() == n,
                    j <= n,
                    root < n,
                    self.rows@[root as int].row_id() == id,
                    marks@[root as int],
                    forall|k: int|
                        0 <= k < n && marks@[k] ==> under(
                            self.rows@,
                            (#[trigger] self.rows@[k]).row_id(),
                            id,
                        ),
                    !changed ==> marks@ == start,
                    changed ==> count_set(marks@) > count_set(start),
                    !changed ==> forall|k: int| 0 <= k < j ==> closed_at(self.rows@, marks@, k),
                decreases n - j,
            {
                if !marks[j] {
                    match self.rows[j].parent() {
                        None => {},
                        Some(p) => match self.position(p) {
                            None => {},
                            Some(k) => {
                                if marks[k] {
                                    proof {
                                        let rows = self.rows@;
                                        lemma_index_of_row(rows, j as int);
                                        let x = rows[j as int].row_id();
                                        assert(under(rows, rows[k as int].row_id(), id));
                                        let s = choose|s: nat| descends(rows, p, id, s);
                                        assert(parent_of(rows, x) == Some(p));
                                        assert(descends(rows, x, id, s + 1));
                                        lemma_count_grows(marks@, j as int);
                                    }
                                    marks.set(j, true);
                                    changed = true;
                                }
                            },
                        },
                    }
                }
                j += 1;
            }
            if !changed {
                done = true;
            }
            proof {
                lemma_count_bound(marks@);
            }
        }
        proof {
            let rows = self.rows@;
            assert forall|j: int| 0 <= j < rows.len() implies marks@[j] == under(
                rows,
                (#[trigger] rows[j]).row_id(),
                id,
            ) by {
                if under(rows, rows[j].row_id(), id) {
                    let s = choose|s: nat| descends(rows, rows[j].row_id(), id, s);
                    lemma_index_of_row(rows, j);
                    lemma_marks_complete(rows, marks@, id, root as int, rows[j].row_id(), s);
                }
            }
        }
        marks
    }

    /// Deletes the row with the id, whoever owns it, together with every
    /// row that hangs under it, however deep, and returns the row itself;
    /// `None`, and no change, where no row has the id.
    pub fn erase(&mut self, id: i32) -> (r: Option<R>)
        requires
            old(self).wf(),
        ensures
            final(self).wf(),
            final(self).next_id == old(self).next_id,
            r.is_some() == has_row(old(self).rows@, id),
            r.is_none() ==> final(self).rows == old(self).rows,
            r.is_some() ==> {
                &&& r.unwrap() == old(self).rows@[row_index(old(self).rows@, id)]
                &&& final(self).rows@ == without_tree(old(self).rows@, id)
                &&& forall|x: i32| #[trigger]
                    under(old(self).rows@, x, id) ==> !has_row(final(self).rows@, x)
                &&& !has_row(final(self).rows@, id)
            },
    {
        match self.position(id) {
            None => None,
            Some(root) => {
                let removed = self.rows[root].duplicate();
                let marks = self.mark_tree(id, root);
                let ghost pred = outside_tree(self.rows@, id);
                let mut kept: Vec<R> = Vec::new();
                let mut j: usize = 0;
                proof {
                    reveal(Seq::filter);
                    assert(self.rows@.subrange(0, 0).filter(pred) =~= Seq::<R>::empty());
                }
                while j < self.rows.len()
                    invariant
                        self.wf(),
                        j <= self.rows@.len(),
                        marks@.len() == self.rows@.len(),
                        pred == outside_tree(self.rows@, id),
                        forall|k: int|
                            0 <= k < self.rows@.len() ==> marks@[k] == under(
                                self.rows@,
                                (#[trigger] self.rows@[k]).row_id(),
                                id,
                            ),
                        kept@ == self.rows@.subrange(0, j as int).filter(pred),
                        forall|a: int|
                            0 <= a < kept@.len() ==> kept_from(
                                self.rows@,
                                marks@,
                                #[trigger] kept@[a],
                                j as int,
                            ),
                        forall|a: int, b: int|
                            0 <= a < b < kept@.len() ==> (#[trigger] kept@[a]).row_id() != (
                            #[trigger] kept@[b]).row_id(),
                    decreases self.rows@.len() - j,
                {
                    proof {
                        lemma_filter_step(self.rows@, j as int, pred);
                    }
                    proof {
                        assert forall|a: int| 0 <= a < kept@.len() implies kept_from(
                            self.rows@,
                            marks@,
                            #[trigger] kept@[a],
                            j + 1,
                        ) by {
                            assert(kept_from(self.rows@, marks@, kept@[a], j as int));
                            let s = source_of(self.rows@, marks@, kept@[a], j as int);
                            assert(0 <= s < j + 1 && self.rows@[s] == kept@[a]);
                        }
                    }
                    if !marks[j] {
                        let ghost before = kept@;
                        kept.push(self.rows[j].duplicate());
                        proof {
                            assert forall|a: int| 0 <= a < kept@.len() implies kept_from(
                                self.rows@,
                                marks@,
                                #[trigger] kept@[a],
                                j + 1,
                            ) by {
                                if a < before.len() {
                                    assert(kept@[a] == before[a]);
                                    assert(kept_from(self.rows@, marks@, before[a], j as int));
                                    let s = source_of(self.rows@, marks@, before[a], j as int);
                                    assert(0 <= s < j + 1 && self.rows@[s] == kept@[a]);
                                } else {
                                    assert(self.rows@[j as int] == kept@[a]);
                                }
                            }
                            assert forall|a: int, b: int| 0 <= a < b < kept@.len() implies (
                            #[trigger] kept@[a]).row_id() != (#[trigger] kept@[b]).row_id() by {
                                assert(kept@[a] == before[a]);
                                if b < before.len() {
                                    assert(kept@[b] == before[b]);
                                } else {
                                    assert(kept_from(self.rows@, marks@, before[a], j as int));
                                    let s = source_of(self.rows@, marks@, before[a], j as int);
                                    assert(self.rows@[s].row_id() != self.rows@[j as int].row_id());
                                }
                            }
                        }
                    }
                    j += 1;
                }
                proof {
                    let rows = self.rows@;
                    assert(rows.subrange(0, rows.len() as int) =~= rows);
                    assert forall|k: int| 0 <= k < kept@.len() implies (#[trigger] kept@[k]).row_id()
                        < self.next_id by {
                        assert(kept_from(rows, marks@, kept@[k], rows.len() as int));
                        let s = source_of(rows, marks@, kept@[k], rows.len() as int);
                        assert(rows[s].row_id() < self.next_id);
                    }
                    assert(descends(rows, id, id, 0));
                    assert forall|x: i32| #[trigger] under(rows, x, id) implies !has_row(
                        kept@,
                        x,
                    ) by {
                        if has_row(kept@, x) {
                            let a = row_index(kept@, x);
                            assert(kept_from(rows, marks@, kept@[a], rows.len() as int));
                            let s = source_of(rows, marks@, kept@[a], rows.len() as int);
                            assert(!under(rows, rows[s].row_id(), id));
                        }
                    }
                }
                self.rows = kept;
                Some(removed)
            },
        }
    }

    /// Deletes the row with the id, for its owner only, together with every
    /// row that hangs under it, and returns the row itself. Afterwards
    /// neither the row nor anything that hung under it can be found. A
    /// refusal changes nothing.
    pub fn delete(&mut self, id: i32, user: i32) -> (r: Result<R, AccessError>)
        requires
            old(self).wf(),
        ensures
            final(self).wf(),
            final(self).next_id == old(self).next_id,
            match access(old(self).rows@, id, user) {
                Err(e) => r == Err::<R, AccessError>(e) && final(self).rows == old(self).rows,
                Ok(i) => {
                    &&& r == Ok::<R, AccessError>(old(self).rows@[i])
                    &&& r.unwrap().row_owner() == user
                    &&& final(self).rows@ == without_tree(old(self).rows@, id)
                    &&& forall|x: i32| #[trigger]
                        under(old(self).rows@, x, id) ==> !has_row(final(self).rows@, x)
                    &&& !has_row(final(self).rows@, id)
                },
            },
    {
        match self.authorize(id, user) {
            Err(e) => Err(e),
            Ok(_) => match self.erase(id) {
                Some(row) => Ok(row),
                None => Err(AccessError::NotFound),
            },
        }
    }
}

/// A row whose parent is the deleted row, or hangs under it, hangs under
/// the deleted row too: deletion reaches children, their children, and so
/// on.
pub proof fn law_children_hang_under<R: Row>(rows: Seq<R>, k: int, id: i32)
    requires
        distinct_rows(rows),
        0 <= k < rows.len(),
        rows[k].row_parent().is_some(),
        under(rows, rows[k].row_parent().unwrap(), id),
    ensures
        under(rows, rows[k].row_id(), id),
{
    let p = rows[k].row_parent().unwrap();
    let steps = choose|steps: nat| descends(rows, p, id, steps);
    lemma_index_of_row(rows, k);
    assert(parent_of(rows, rows[k].row_id()) == Some(p));
    assert(descends(rows, rows[k].row_id(), id, steps + 1));
}

/// Deleting a row takes everything under it along, at any depth: whatever
/// hangs under a row that hangs under the deleted one hangs under the
/// deleted one too, and is gone with it.
pub proof fn law_descent_is_transitive<R: Row>(rows: Seq<R>, x: i32, y: i32, z: i32)
    requires
        under(rows, x, y),
        under(rows, y, z),
    ensures
        under(rows, x, z),
{
    let a = choose|a: nat| descends(rows, x, y, a);
    let b = choose|b: nat| descends(rows, y, z, b);
    lemma_descent_chain(rows, x, y, z, a, b);
}

proof fn lemma_descent_chain<R: Row>(rows: Seq<R>, x: i32, y: i32, z: i32, a: nat, b: nat)
    requires
        descends(rows, x, y, a),
        descends(rows, y, z, b),
    ensures
        descends(rows, x, z, a + b),
    decreases a,
{
    if x == y {
        lemma_descent_longer(rows, y, z, b, a + b);
    } else if x != z {
        lemma_descent_chain(rows, parent_of(rows, x).unwrap(), y, z, (a - 1) as nat, b);
    }
}

proof fn lemma_descent_longer<R: Row>(rows: Seq<R>, x: i32, z: i32, b: nat, c: nat)
    requires
        descends(rows, x, z, b),
        b <= c,
    ensures
        descends(rows, x, z, c),
    decreases b,
{
    if x != z {
        lemma_descent_longer(rows, parent_of(rows, x).unwrap(), z, (b - 1) as nat, (c - 1) as nat);
    }
}

/// A row that one user owns is refused to every other user, whatever the
/// operation: the ownership check yields `Forbidden`, never the row.
pub proof fn law_foreign_rows_refused<R: Row>(rows: Seq<R>, id: i32, owner: i32, other: i32)
    requires
        distinct_rows(rows),
        access(rows, id, owner).is_ok(),
        other != owner,
    ensures
        access(rows, id, other) == Err::<int, AccessError>(AccessError::Forbidden),
{
}

/// Two patches in a row do what their merge does; where they name no field
/// in common the order does not matter, so both callers' fields end up
/// changed, and where they name the same field the later one wins.
pub proof fn law_patches_compose<R: Patchable>(row: R, first: R::Patch, second: R::Patch)
    ensures
        row.patched(first).patched(second) == row.patched(R::merged(first, second)),
        R::disjoint(first, second) ==> row.patched(first).patched(second) == row.patched(
            second,
        ).patched(first),
{
    row.lemma_patch_sequence(first, second);
    row.lemma_patch_sequence(second, first);
    if R::disjoint(first, second) {
        R::lemma_disjoint_commute(first, second);
    }
}

/// Two updates of one row, one after the other, leave the table as one
/// update with the merged patch does; where the patches name no field in
/// common, either order leaves the same table.
pub proof fn law_updates_compose<R: Patchable>(
    rows: Seq<R>,
    i: int,
    first: R::Patch,
    second: R::Patch,
)
    requires
        0 <= i < rows.len(),
    ensures
        ({
            let once = rows.update(i, rows[i].patched(first));
            let twice = once.update(i, once[i].patched(second));
            let swapped = rows.update(i, rows[i].patched(second));
            &&& twice == rows.update(i, rows[i].patched(R::merged(first, second)))
            &&& R::disjoint(first, second) ==> twice == swapped.update(
                i,
                swapped[i].patched(first),
            )
        }),
{
    law_patches_compose(rows[i], first, second);
    let once = rows.update(i, rows[i].patched(first));
    let twice = once.update(i, once[i].patched(second));
    assert(twice =~= rows.update(i, rows[i].patched(R::merged(first, second))));
    if R::disjoint(first, second) {
        let swapped = rows.update(i, rows[i].patched(second));
        assert(twice =~= swapped.update(i, swapped[i].patched(first)));
    }
}

} // verus!
