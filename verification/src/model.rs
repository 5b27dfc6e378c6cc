//! The quest record and the payload types of the store's operations.

use vstd::prelude::*;
use crate::date::Date;

verus! {

/// A stored quest record. The identifier and the creation timestamp
/// are assigned once, at creation, and never change; every stored
/// quest carries a deadline. Timestamps are seconds of an epoch-based
/// clock, supplied by the caller of each mutating operation.
#[derive(Debug, Clone)]
pub struct Quest {
    pub id: String,
    pub title: String,
    pub content: String,
    pub deadline: Date,
    pub completed: bool,
    pub created_at: i64,
    pub updated_at: i64,
}

impl Quest {
    /// An owned copy, equal to `self` in every field.
    pub fn duplicate(&self) -> (r: Quest)
        ensures
            r == *self,
    {
        Quest {
            id: self.id.clone(),
            title: self.title.clone(),
            content: self.content.clone(),
            deadline: self.deadline,
            completed: self.completed,
            created_at: self.created_at,
            updated_at: self.updated_at,
        }
    }
}

/// A partial update: every field is independently optional, and an
/// absent field leaves the stored value unchanged. For `title` and
/// `content` a supplied empty string is a deliberate no-op, not a
/// request to clear the field.
#[derive(Debug, Clone)]
pub struct UpdateQuestSchema {
    pub title: Option<String>,
    pub content: Option<String>,
    pub deadline: Option<Date>,
    pub completed: Option<bool>,
}

/// Page selection for a listing: a 1-based page number and a page
/// size, each defaulted when absent (page 1, size 10).
#[derive(Debug, Clone, Copy, PartialEq, Eq, Structural)]
pub struct QueryOption {
    pub page: Option<usize>,
    pub limit: Option<usize>,
}

} // verus!
