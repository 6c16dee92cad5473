//! The records of the local store: one per user and one per list.
use vstd::prelude::*;
use crate::list_id::{ListId, ListIdView};

verus! {

/// A person who has wishlists, as the local store keeps them.
#[derive(Debug)]
pub struct User {
    /// The login, which is the record's key.
    pub login: String,
    /// The remote identifier of the user's document, once known.
    pub file_id: Option<String>,
    /// The user's document, serialised.
    pub kdl: String,
    /// The identifier of the root directory of the remote repository.
    pub root_tree_id: String,
    /// The commit that the local store reflects.
    pub local_version: String,
    /// The latest commit seen on the remote.
    pub remote_version: String,
}

/// A user record as plain text.
pub struct UserView {
    pub login: Seq<char>,
    pub file_id: Option<Seq<char>>,
    pub kdl: Seq<char>,
    pub root_tree_id: Seq<char>,
    pub local_version: Seq<char>,
    pub remote_version: Seq<char>,
}

impl View for User {
    type V = UserView;

    open spec fn view(&self) -> UserView {
        UserView {
            login: self.login@,
            file_id: self.file_id.deep_view(),
            kdl: self.kdl@,
            root_tree_id: self.root_tree_id@,
            local_version: self.local_version@,
            remote_version: self.remote_version@,
        }
    }
}

impl DeepView for User {
    type V = UserView;

    open spec fn deep_view(&self) -> UserView {
        self@
    }
}

impl Clone for User {
    fn clone(&self) -> (res: Self)
        ensures
            res@ == self@,
    {
        User {
            login: self.login.clone(),
            file_id: clone_text_option(&self.file_id),
            kdl: self.kdl.clone(),
            root_tree_id: self.root_tree_id.clone(),
            local_version: self.local_version.clone(),
            remote_version: self.remote_version.clone(),
        }
    }
}

/// A wishlist, as the local store keeps it.
#[derive(Debug)]
pub struct List {
    /// Owner and slug, which together are the record's key.
    pub id: ListId,
    /// The remote identifier of the list's document, once known.
    pub file_id: Option<String>,
    /// The list's document, serialised.
    pub kdl: String,
    /// The commit that this record reflects.
    pub local_version: String,
    /// Commit message and full document of each edit that the remote has not
    /// seen yet, oldest first.
    pub pending_changes: Vec<(String, String)>,
}

/// A list record as plain text.
pub struct ListView {
    pub id: ListIdView,
    pub file_id: Option<Seq<char>>,
    pub kdl: Seq<char>,
    pub local_version: Seq<char>,
    pub pending_changes: Seq<(Seq<char>, Seq<char>)>,
}

impl View for List {
    type V = ListView;

    open spec fn view(&self) -> ListView {
        ListView {
            id: self.id@,
            file_id: self.file_id.deep_view(),
            kdl: self.kdl@,
            local_version: self.local_version@,
            pending_changes: self.pending_changes.deep_view(),
        }
    }
}

impl DeepView for List {
    type V = ListView;

    open spec fn deep_view(&self) -> ListView {
        self@
    }
}

impl ListView {
    /// A list is dirty while edits wait to be pushed.
    pub open spec fn is_dirty(self) -> bool {
        self.pending_changes.len() > 0
    }
}

impl Clone for List {
    fn clone(&self) -> (res: Self)
        ensures
            res@ == self@,
    {
        List {
            id: self.id.clone(),
            file_id: clone_text_option(&self.file_id),
            kdl: self.kdl.clone(),
            local_version: self.local_version.clone(),
            pending_changes: clone_changes(&self.pending_changes),
        }
    }
}

impl User {
    /// The table that keeps user records.
    pub fn store_id() -> (res: &'static str)
        ensures
            res@ == crate::store::USER_STORE@,
    {
        crate::store::USER_STORE
    }

    /// The key of the record: the login.
    pub fn key(&self) -> (res: String)
        ensures
            res@ == self@.login,
    {
        self.login.clone()
    }
}

impl List {
    /// The table that keeps list records.
    pub fn store_id() -> (res: &'static str)
        ensures
            res@ == crate::store::LIST_STORE@,
    {
        crate::store::LIST_STORE
    }

    /// The key of the record: the text form of its id.
    pub fn key(&self) -> (res: String)
        ensures
            res@ == self@.id.key(),
    {
        self.id.to_string()
    }

    /// Whether edits wait to be pushed.
    pub fn is_dirty(&self) -> (res: bool)
        ensures
            res == self@.is_dirty(),
    {
        self.pending_changes.len() > 0
    }
}

/// A copy of an optional text.
pub fn clone_text_option(text: &Option<String>) -> (res: Option<String>)
    ensures
        res.deep_view() == text.deep_view(),
{
    match text {
        Some(t) => Some(t.clone()),
        None => None,
    }
}

/// A copy of a queue of pending changes.
pub fn clone_changes(changes: &Vec<(String, String)>) -> (res: Vec<(String, String)>)
    ensures
        res.deep_view() == changes.deep_view(),
{
    let mut copy: Vec<(String, String)> = Vec::new();
    let mut i: usize = 0;
    while i < changes.len()
        invariant
            i <= changes.len(),
            copy.len() == i,
            forall|j: int| 0 <= j < i ==> copy[j].deep_view() == changes[j].deep_view(),
        decreases changes.len() - i,
    {
        copy.push((changes[i].0.clone(), changes[i].1.clone()));
        i = i + 1;
    }
    assert(copy.deep_view() =~= changes.deep_view());
    copy
}

} // verus!
