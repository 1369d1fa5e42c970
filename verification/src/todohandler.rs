use vstd::prelude::*;
use crate::error::{ApiError, ValidationIssue};
use crate::identity::RequestContext;
use crate::todo_model::{CreateTodoSchema, SelectTodo, Todo, UpdateTodoSchema};

verus! {

/// The table of records, in the order in which they were created.
pub struct TodoStore {
    pub rows: Vec<Todo>,
}

impl View for TodoStore {
    type V = Seq<Todo>;

    open spec fn view(&self) -> Seq<Todo> {
        self.rows@
    }
}

pub open spec fn unique_ids(rows: Seq<Todo>) -> bool {
    forall|i: int, j: int| 0 <= i < j < rows.len() ==> (#[trigger] rows[i]).id != (#[trigger] rows[j]).id
}

pub open spec fn id_taken(rows: Seq<Todo>, id: u128) -> bool {
    exists|i: int| 0 <= i < rows.len() && (#[trigger] rows[i]).id == id
}

/// Row `i` carries `id` and belongs to `owner`.
pub open spec fn holds(rows: Seq<Todo>, owner: u128, id: u128, i: int) -> bool {
    0 <= i < rows.len() && rows[i].id == id && rows[i].user_id == owner
}

/// Some row carries `id` and belongs to `owner`. To any other identity the
/// record does not exist.
pub open spec fn owns(rows: Seq<Todo>, owner: u128, id: u128) -> bool {
    exists|i: int| holds(rows, owner, id, i)
}

pub open spec fn row_of(rows: Seq<Todo>, owner: u128, id: u128) -> int {
    choose|i: int| holds(rows, owner, id, i)
}

/// The rows of `owner`, in table order.
pub open spec fn owned_by(rows: Seq<Todo>, owner: u128) -> Seq<Todo>
    decreases rows.len(),
{
    if rows.len() == 0 {
        Seq::empty()
    } else if rows.last().user_id == owner {
        owned_by(rows.drop_last(), owner).push(rows.last())
    } else {
        owned_by(rows.drop_last(), owner)
    }
}

pub open spec fn new_row(owner: u128, body: CreateTodoSchema, id: u128, now: i64) -> Todo {
    Todo {
        id,
        name: body.name,
        description: body.description,
        user_id: owner,
        created_at: Some(now),
        updated_at: Some(now),
    }
}

pub open spec fn create_result(rows: Seq<Todo>, owner: u128, body: CreateTodoSchema, id: u128, now: i64) -> Result<
    Todo,
    ApiError,
> {
    if body.name@.len() == 0 {
        Err(ApiError::Validation(ValidationIssue::NameRequired))
    } else if body.description@.len() == 0 {
        Err(ApiError::Validation(ValidationIssue::DescriptionRequired))
    } else if id_taken(rows, id) {
        Err(ApiError::PersistenceFault)
    } else {
        Ok(new_row(owner, body, id, now))
    }
}

pub open spec fn lookup(rows: Seq<Todo>, owner: u128, id: u128) -> Result<Todo, ApiError> {
    if owns(rows, owner, id) {
        Ok(rows[row_of(rows, owner, id)])
    } else {
        Err(ApiError::NotFound)
    }
}

/// `t` with the members that `body` carries put in place of its own.
pub open spec fn patched(t: Todo, body: UpdateTodoSchema) -> Todo {
    Todo {
        id: t.id,
        name: if body.name.is_some() {
            body.name.unwrap()
        } else {
            t.name
        },
        description: if body.description.is_some() {
            body.description.unwrap()
        } else {
            t.description
        },
        user_id: t.user_id,
        created_at: t.created_at,
        updated_at: t.updated_at,
    }
}

pub open spec fn selected(t: Todo) -> SelectTodo {
    SelectTodo { id: t.id, name: t.name, description: t.description }
}

pub open spec fn update_result(rows: Seq<Todo>, owner: u128, id: u128, body: UpdateTodoSchema) -> Result<
    SelectTodo,
    ApiError,
> {
    if owns(rows, owner, id) {
        Ok(selected(patched(rows[row_of(rows, owner, id)], body)))
    } else {
        Err(ApiError::NotFound)
    }
}

pub open spec fn rows_after_update(rows: Seq<Todo>, owner: u128, id: u128, body: UpdateTodoSchema) -> Seq<
    Todo,
> {
    if owns(rows, owner, id) {
        let i = row_of(rows, owner, id);
        rows.update(i, patched(rows[i], body))
    } else {
        rows
    }
}

pub open spec fn delete_result(rows: Seq<Todo>, owner: u128, id: u128) -> Result<(), ApiError> {
    if owns(rows, owner, id) {
        Ok(())
    } else {
        Err(ApiError::NotFound)
    }
}

pub open spec fn rows_after_delete(rows: Seq<Todo>, owner: u128, id: u128) -> Seq<Todo> {
    if owns(rows, owner, id) {
        rows.remove(row_of(rows, owner, id))
    } else {
        rows
    }
}

pub proof fn lemma_row_is_unique(rows: Seq<Todo>, owner: u128, id: u128, i: int)
    requires
        unique_ids(rows),
        holds(rows, owner, id, i),
    ensures
        owns(rows, owner, id),
        row_of(rows, owner, id) == i,
{
    let k = row_of(rows, owner, id);
    assert(holds(rows, owner, id, k));
    if k < i {
        assert(rows[k].id != rows[i].id);
    }
    if i < k {
        assert(rows[i].id != rows[k].id);
    }
}

/// Every row of `owned_by` belongs to the owner and stands in the table.
pub proof fn lemma_owned_by_members(rows: Seq<Todo>, owner: u128)
    ensures
        forall|k: int|
            0 <= k < owned_by(rows, owner).len() ==> {
                &&& (#[trigger] owned_by(rows, owner)[k]).user_id == owner
                &&& rows.contains(owned_by(rows, owner)[k])
            },
    decreases rows.len(),
{
    if rows.len() > 0 {
        let front = rows.drop_last();
        lemma_owned_by_members(front, owner);
        assert forall|k: int| 0 <= k < owned_by(rows, owner).len() implies {
            &&& (#[trigger] owned_by(rows, owner)[k]).user_id == owner
            &&& rows.contains(owned_by(rows, owner)[k])
        } by {
            if k < owned_by(front, owner).len() {
                let t = owned_by(front, owner)[k];
                assert(front.contains(t));
                let j = choose|j: int| 0 <= j < front.len() && front[j] == t;
                assert(rows[j] == t);
            } else {
                assert(rows[rows.len() - 1] == rows.last());
            }
        }
    }
}

impl TodoStore {
    pub open spec fn wf(&self) -> bool {
        unique_ids(self@)
    }

    pub fn new() -> (store: TodoStore)
        ensures
            store@ == Seq::<Todo>::empty(),
            store.wf(),
    {
        TodoStore { rows: Vec::new() }
    }

    /// A table of the rows given, where no two share an identifier.
    pub fn from_rows(rows: Vec<Todo>) -> (r: Option<TodoStore>)
        ensures
            r.is_some() == unique_ids(rows@),
            r.is_some() ==> r.unwrap()@ == rows@ && r.unwrap().wf(),
    {
        let mut j: usize = 0;
        while j < rows.len()
            invariant
                j <= rows.len(),
                forall|a: int, b: int| 0 <= a < b < j ==> (#[trigger] rows@[a]).id != (#[trigger] rows@[b]).id,
            decreases rows.len() - j,
        {
            let mut i: usize = 0;
            while i < j
                invariant
                    i <= j < rows.len(),
                    forall|a: int| 0 <= a < i ==> (#[trigger] rows@[a]).id != rows@[j as int].id,
                decreases j - i,
            {
                if rows[i].id == rows[j].id {
                    return None;
                }
                i = i + 1;
            }
            j = j + 1;
        }
        Some(TodoStore { rows })
    }

    pub fn has_id(&self, id: u128) -> (b: bool)
        ensures
            b == id_taken(self@, id),
    {
        let mut i: usize = 0;
        while i < self.rows.len()
            invariant
                i <= self.rows.len(),
                forall|j: int| 0 <= j < i ==> (#[trigger] self@[j]).id != id,
            decreases self.rows.len() - i,
        {
            if self.rows[i].id == id {
                return true;
            }
            i = i + 1;
        }
        false
    }

    /// The one row that carries `id` and belongs to `owner`.
    pub fn position(&self, owner: u128, id: u128) -> (r: Option<usize>)
        requires
            self.wf(),
        ensures
            r.is_some() == owns(self@, owner, id),
            r.is_some() ==> r.unwrap() as int == row_of(self@, owner, id) && holds(
                self@,
                owner,
                id,
                r.unwrap() as int,
            ),
    {
        let mut i: usize = 0;
        while i < self.rows.len()
            invariant
                self.wf(),
                i <= self.rows.len(),
                forall|j: int| 0 <= j < i ==> !holds(self@, owner, id, j),
            decreases self.rows.len() - i,
        {
            if self.rows[i].id == id && self.rows[i].user_id == owner {
                proof {
                    lemma_row_is_unique(self@, owner, id, i as int);
                }
                return Some(i);
            }
            i = i + 1;
        }
        None
    }
}

/// Creates a record owned by the caller. The owner is taken from the request
/// context and from nowhere else. `id` and `now` are what the table would
/// assign: a fresh identifier and the current instant, in microseconds.
pub fn create_todo(store: &mut TodoStore, ctx: &RequestContext, body: &CreateTodoSchema, id: u128, now: i64) -> (r:
    Result<Todo, ApiError>)
    requires
        old(store).wf(),
    ensures
        final(store).wf(),
        r == create_result(old(store)@, ctx.identity.id, *body, id, now),
        final(store)@ == (if r.is_ok() {
            old(store)@.push(r.unwrap())
        } else {
            old(store)@
        }),
{
    if body.name.as_str().is_empty() {
        return Err(ApiError::Validation(ValidationIssue::NameRequired));
    }
    if body.description.as_str().is_empty() {
        return Err(ApiError::Validation(ValidationIssue::DescriptionRequired));
    }
    if store.has_id(id) {
        return Err(ApiError::PersistenceFault);
    }
    let row = Todo {
        id,
        name: body.name.clone(),
        description: body.description.clone(),
        user_id: ctx.identity.id,
        created_at: Some(now),
        updated_at: Some(now),
    };
    let answer = row.duplicate();
    store.rows.push(row);
    Ok(answer)
}

/// Lists the caller's records, and only those, in table order.
pub fn get_todo(store: &TodoStore, ctx: &RequestContext) -> (out: Vec<Todo>)
    ensures
        out@ == owned_by(store@, ctx.identity.id),
{
    let owner = ctx.identity.id;
    let mut out: Vec<Todo> = Vec::new();
    let mut i: usize = 0;
    while i < store.rows.len()
        invariant
            i <= store.rows.len(),
            out@ == owned_by(store@.take(i as int), owner),
        decreases store.rows.len() - i,
    {
        proof {
            assert(store@.take(i + 1).drop_last() =~= store@.take(i as int));
        }
        if store.rows[i].user_id == owner {
            out.push(store.rows[i].duplicate());
        }
        i = i + 1;
    }
    proof {
        assert(store@.take(i as int) =~= store@);
    }
    out
}

/// Reads one record of the caller's.
pub fn find_todo(store: &TodoStore, ctx: &RequestContext, id: u128) -> (r: Result<Todo, ApiError>)
    requires
        store.wf(),
    ensures
        r == lookup(store@, ctx.identity.id, id),
{
    match store.position(ctx.identity.id, id) {
        Some(i) => Ok(store.rows[i].duplicate()),
        None => Err(ApiError::NotFound),
    }
}

/// Puts the members that `body` carries into the caller's record `id`.
pub fn updated_todo(store: &mut TodoStore, ctx: &RequestContext, id: u128, body: &UpdateTodoSchema) -> (r:
    Result<SelectTodo, ApiError>)
    requires
        old(store).wf(),
    ensures
        final(store).wf(),
        r == update_result(old(store)@, ctx.identity.id, id, *body),
        final(store)@ == rows_after_update(old(store)@, ctx.identity.id, id, *body),
{
    match store.position(ctx.identity.id, id) {
        None => Err(ApiError::NotFound),
        Some(i) => {
            let name = match &body.name {
                Some(n) => n.clone(),
                None => store.rows[i].name.clone(),
            };
            let description = match &body.description {
                Some(d) => d.clone(),
                None => store.rows[i].description.clone(),
            };
            let row = Todo {
                id: store.rows[i].id,
                name: name.clone(),
                description: description.clone(),
                user_id: store.rows[i].user_id,
                created_at: store.rows[i].created_at,
                updated_at: store.rows[i].updated_at,
            };
            store.rows.set(i, row);
            Ok(SelectTodo { id, name, description })
        },
    }
}

/// Removes the caller's record `id`.
pub fn delete_todo(store: &mut TodoStore, ctx: &RequestContext, id: u128) -> (r: Result<(), ApiError>)
    requires
        old(store).wf(),
    ensures
        final(store).wf(),
        r == delete_result(old(store)@, ctx.identity.id, id),
        final(store)@ == rows_after_delete(old(store)@, ctx.identity.id, id),
{
    match store.position(ctx.identity.id, id) {
        None => Err(ApiError::NotFound),
        Some(i) => {
            store.rows.remove(i);
            proof {
                lemma_remove_keeps_unique(old(store)@, i as int);
            }
            Ok(())
        },
    }
}

pub proof fn lemma_remove_keeps_unique(rows: Seq<Todo>, i: int)
    requires
        unique_ids(rows),
        0 <= i < rows.len(),
    ensures
        unique_ids(rows.remove(i)),
        forall|k: int| 0 <= k < rows.remove(i).len() ==> (#[trigger] rows.remove(i)[k]).id != rows[i].id,
{
    let after = rows.remove(i);
    assert forall|a: int, b: int| 0 <= a < b < after.len() implies (#[trigger] after[a]).id != (
    #[trigger] after[b]).id by {
        let a0 = if a < i { a } else { a + 1 };
        let b0 = if b < i { b } else { b + 1 };
        assert(after[a] == rows[a0]);
        assert(after[b] == rows[b0]);
    }
    assert forall|k: int| 0 <= k < after.len() implies (#[trigger] after[k]).id != rows[i].id by {
        let k0 = if k < i { k } else { k + 1 };
        assert(after[k] == rows[k0]);
        if k0 < i {
            assert(rows[k0].id != rows[i].id);
        } else {
            assert(rows[i].id != rows[k0].id);
        }
    }
}

/// Ownership isolation: a record of `a` does not exist to another identity
/// `b`. It is not among the records listed for `b`; reading, updating or
/// deleting it as `b` is answered with `NotFound`; and the table is as it
/// was after each attempt.
pub proof fn law_ownership_isolation(rows: Seq<Todo>, a: u128, b: u128, i: int, body: UpdateTodoSchema)
    requires
        unique_ids(rows),
        a != b,
        0 <= i < rows.len(),
        rows[i].user_id == a,
    ensures
        !owned_by(rows, b).contains(rows[i]),
        forall|k: int| 0 <= k < owned_by(rows, b).len() ==> (#[trigger] owned_by(rows, b)[k]).id != rows[i].id,
        lookup(rows, b, rows[i].id) == Err::<Todo, ApiError>(ApiError::NotFound),
        update_result(rows, b, rows[i].id, body) == Err::<SelectTodo, ApiError>(ApiError::NotFound),
        rows_after_update(rows, b, rows[i].id, body) == rows,
        delete_result(rows, b, rows[i].id) == Err::<(), ApiError>(ApiError::NotFound),
        rows_after_delete(rows, b, rows[i].id) == rows,
{
    let id = rows[i].id;
    if owns(rows, b, id) {
        let k = row_of(rows, b, id);
        assert(holds(rows, b, id, k));
        if k < i {
            assert(rows[k].id != rows[i].id);
        } else if i < k {
            assert(rows[i].id != rows[k].id);
        }
        assert(false);
    }
    lemma_owned_by_members(rows, b);
    let mine = owned_by(rows, b);
    assert forall|k: int| 0 <= k < mine.len() implies (#[trigger] mine[k]).id != id by {
        assert(rows.contains(mine[k]));
        let j = choose|j: int| 0 <= j < rows.len() && rows[j] == mine[k];
        assert(rows[j].user_id == b);
        if j < i {
            assert(rows[j].id != rows[i].id);
        } else if i < j {
            assert(rows[i].id != rows[j].id);
        }
    }
    if mine.contains(rows[i]) {
        let k = choose|k: int| 0 <= k < mine.len() && mine[k] == rows[i];
        assert(mine[k].id != id);
    }
}

/// A record that was just created belongs to the identity of the request
/// context, whatever the body says.
pub proof fn law_created_row_is_owned(rows: Seq<Todo>, owner: u128, body: CreateTodoSchema, id: u128, now: i64)
    requires
        create_result(rows, owner, body, id, now).is_ok(),
    ensures
        create_result(rows, owner, body, id, now).unwrap().user_id == owner,
        create_result(rows, owner, body, id, now).unwrap().id == id,
{
}

/// A record that was just created is listed for its owner, last, and is
/// found under its identifier by its owner.
pub proof fn law_created_row_is_listed(rows: Seq<Todo>, owner: u128, body: CreateTodoSchema, id: u128, now: i64)
    requires
        unique_ids(rows),
        create_result(rows, owner, body, id, now).is_ok(),
    ensures
        ({
            let t = create_result(rows, owner, body, id, now).unwrap();
            &&& unique_ids(rows.push(t))
            &&& owned_by(rows.push(t), owner) == owned_by(rows, owner).push(t)
            &&& lookup(rows.push(t), owner, id) == Ok::<Todo, ApiError>(t)
        }),
{
    let t = create_result(rows, owner, body, id, now).unwrap();
    let after = rows.push(t);
    assert(after.drop_last() =~= rows);
    assert forall|i: int, j: int| 0 <= i < j < after.len() implies (#[trigger] after[i]).id != (
    #[trigger] after[j]).id by {
        if j == after.len() - 1 {
            assert(after[i] == rows[i]);
        }
    }
    assert(holds(after, owner, id, rows.len() as int));
    lemma_row_is_unique(after, owner, id, rows.len() as int);
}

/// An update never changes whose record it is, nor its identifier, nor any
/// other row of the table.
pub proof fn law_update_keeps_owner(rows: Seq<Todo>, owner: u128, id: u128, body: UpdateTodoSchema)
    ensures
        rows_after_update(rows, owner, id, body).len() == rows.len(),
        forall|k: int|
            0 <= k < rows.len() ==> {
                &&& (#[trigger] rows_after_update(rows, owner, id, body)[k]).user_id == rows[k].user_id
                &&& rows_after_update(rows, owner, id, body)[k].id == rows[k].id
                &&& !holds(rows, owner, id, k) ==> rows_after_update(rows, owner, id, body)[k] == rows[k]
            },
{
    if owns(rows, owner, id) {
        let i = row_of(rows, owner, id);
        assert(holds(rows, owner, id, i));
    }
}

/// A partial update of the name leaves the description as it was, and the
/// other way round; an empty update changes nothing.
pub proof fn law_partial_update(t: Todo, text: String)
    ensures
        patched(t, UpdateTodoSchema { name: Some(text), description: None }).description == t.description,
        patched(t, UpdateTodoSchema { name: Some(text), description: None }).name == text,
        patched(t, UpdateTodoSchema { name: None, description: Some(text) }).name == t.name,
        patched(t, UpdateTodoSchema { name: None, description: Some(text) }).description == text,
        patched(t, UpdateTodoSchema { name: None, description: None }) == t,
{
}

/// Deleting is not idempotent: the first delete of an owned record succeeds,
/// the second is answered with `NotFound` and changes nothing.
pub proof fn law_delete_twice(rows: Seq<Todo>, owner: u128, id: u128)
    requires
        unique_ids(rows),
        owns(rows, owner, id),
    ensures
        delete_result(rows, owner, id) == Ok::<(), ApiError>(()),
        delete_result(rows_after_delete(rows, owner, id), owner, id) == Err::<(), ApiError>(
            ApiError::NotFound,
        ),
        rows_after_delete(rows_after_delete(rows, owner, id), owner, id) == rows_after_delete(
            rows,
            owner,
            id,
        ),
{
    let i = row_of(rows, owner, id);
    assert(holds(rows, owner, id, i));
    lemma_remove_keeps_unique(rows, i);
    let after = rows.remove(i);
    if owns(after, owner, id) {
        let k = row_of(after, owner, id);
        assert(holds(after, owner, id, k));
        assert(after[k].id != rows[i].id);
        assert(false);
    }
}

} // verus!
