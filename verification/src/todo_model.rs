use vstd::prelude::*;

verus! {

/// An owned record. `id` and `user_id` are UUIDs as 128-bit integers, the two
/// instants microseconds since the UTC epoch.
#[derive(Debug, Clone, PartialEq, Eq)]
pub struct Todo {
    pub id: u128,
    pub name: String,
    pub description: String,
    pub user_id: u128,
    pub created_at: Option<i64>,
    pub updated_at: Option<i64>,
}

/// The part of a record that an update reads and answers with.
#[derive(Debug, Clone, PartialEq, Eq)]
pub struct SelectTodo {
    pub id: u128,
    pub name: String,
    pub description: String,
}

#[derive(Debug)]
pub struct CreateTodoSchema {
    pub name: String,
    pub description: String,
}

/// A partial update: a member that is `None` leaves the field as it was.
#[derive(Debug)]
pub struct UpdateTodoSchema {
    pub name: Option<String>,
    pub description: Option<String>,
}

impl Todo {
    pub fn duplicate(&self) -> (copy: Todo)
        ensures
            copy == *self,
    {
        Todo {
            id: self.id,
            name: self.name.clone(),
            description: self.description.clone(),
            user_id: self.user_id,
            created_at: self.created_at,
            updated_at: self.updated_at,
        }
    }
}

} // verus!
