//! The record store: users by login and lists by id, written in change sets
//! that take effect as a whole.
use vstd::prelude::*;
use vstd::string::*;
use crate::list_id::{ListId, ListIdView};
use crate::records::{List, ListView, User, UserView};
use crate::search::{
    first_index_of,
    last_index_of,
    lemma_first_index_is,
    lemma_first_index_of,
    lemma_first_index_push,
    lemma_first_index_remove,
    lemma_last_index_of,
    lemma_push_no_duplicates,
};

verus! {

/// The logins of a sequence of user records, in its order.
pub open spec fn logins(users: Seq<UserView>) -> Seq<Seq<char>> {
    users.map_values(|u: UserView| u.login)
}

/// The ids of a sequence of list records, in its order.
pub open spec fn list_ids(lists: Seq<ListView>) -> Seq<ListIdView> {
    lists.map_values(|l: ListView| l.id)
}

/// What a store holds: its user records and its list records, each in the
/// order in which their keys first came in.
pub struct StoreView {
    pub users: Seq<UserView>,
    pub lists: Seq<ListView>,
}

/// The writes of one transaction: the user records and list records to put,
/// and the ids of the lists to delete, which are taken out after the puts.
pub struct ChangeSetView {
    pub users: Seq<UserView>,
    pub lists: Seq<ListView>,
    pub removed_lists: Seq<ListIdView>,
}

impl StoreView {
    /// The store with nothing in it.
    pub open spec fn empty() -> StoreView {
        StoreView { users: Seq::empty(), lists: Seq::empty() }
    }

    /// No key occurs twice.
    pub open spec fn wf(self) -> bool {
        logins(self.users).no_duplicates() && list_ids(self.lists).no_duplicates()
    }

    /// The record of the user with this login, if the store has one.
    pub open spec fn user(self, login: Seq<char>) -> Option<UserView> {
        let i = first_index_of(logins(self.users), login);
        if i < self.users.len() {
            Some(self.users[i])
        } else {
            None
        }
    }

    /// The record of the list with this id, if the store has one.
    pub open spec fn list(self, id: ListIdView) -> Option<ListView> {
        let i = first_index_of(list_ids(self.lists), id);
        if i < self.lists.len() {
            Some(self.lists[i])
        } else {
            None
        }
    }

    /// The store after one user record was put: it takes the place of the
    /// record with its login, or comes last.
    pub open spec fn put_user(self, user: UserView) -> StoreView {
        let i = first_index_of(logins(self.users), user.login);
        if i < self.users.len() {
            StoreView { users: self.users.update(i, user), lists: self.lists }
        } else {
            StoreView { users: self.users.push(user), lists: self.lists }
        }
    }

    /// The store after one list record was put: it takes the place of the
    /// record with its id, or comes last.
    pub open spec fn put_list(self, list: ListView) -> StoreView {
        let i = first_index_of(list_ids(self.lists), list.id);
        if i < self.lists.len() {
            StoreView { users: self.users, lists: self.lists.update(i, list) }
        } else {
            StoreView { users: self.users, lists: self.lists.push(list) }
        }
    }

    /// The store without the list of this id.
    pub open spec fn delete_list(self, id: ListIdView) -> StoreView {
        let i = first_index_of(list_ids(self.lists), id);
        if i < self.lists.len() {
            StoreView { users: self.users, lists: self.lists.remove(i) }
        } else {
            self
        }
    }

    /// The store after the user records were put one after the other.
    pub open spec fn put_users(self, users: Seq<UserView>) -> StoreView
        decreases users.len(),
    {
        if users.len() == 0 {
            self
        } else {
            self.put_users(users.drop_last()).put_user(users.last())
        }
    }

    /// The store after the list records were put one after the other.
    pub open spec fn put_lists(self, lists: Seq<ListView>) -> StoreView
        decreases lists.len(),
    {
        if lists.len() == 0 {
            self
        } else {
            self.put_lists(lists.drop_last()).put_list(lists.last())
        }
    }

    /// The store after the lists of these ids were deleted one after the
    /// other.
    pub open spec fn delete_lists(self, ids: Seq<ListIdView>) -> StoreView
        decreases ids.len(),
    {
        if ids.len() == 0 {
            self
        } else {
            self.delete_lists(ids.drop_last()).delete_list(ids.last())
        }
    }

    /// The store after a change set took effect: users put, lists put, lists
    /// deleted.
    pub open spec fn apply(self, changes: ChangeSetView) -> StoreView {
        self.put_users(changes.users).put_lists(changes.lists).delete_lists(changes.removed_lists)
    }
}

impl ChangeSetView {
    /// A change set that writes nothing.
    pub open spec fn is_empty(self) -> bool {
        self.users.len() == 0 && self.lists.len() == 0 && self.removed_lists.len() == 0
    }
}

/// The keys of an updated sequence of users, where the new record has the
/// login of the one it replaces, are the keys of before.
pub proof fn lemma_logins_update(users: Seq<UserView>, i: int, user: UserView)
    requires
        0 <= i < users.len(),
        users[i].login == user.login,
    ensures
        logins(users.update(i, user)) == logins(users),
{
    assert(logins(users.update(i, user)) =~= logins(users));
}

/// The keys of an updated sequence of lists, where the new record has the id
/// of the one it replaces, are the keys of before.
pub proof fn lemma_list_ids_update(lists: Seq<ListView>, i: int, list: ListView)
    requires
        0 <= i < lists.len(),
        lists[i].id == list.id,
    ensures
        list_ids(lists.update(i, list)) == list_ids(lists),
{
    assert(list_ids(lists.update(i, list)) =~= list_ids(lists));
}

/// Putting a user record keeps the store well formed, makes that record the
/// one found under its login, and leaves every other user and every list as
/// it was.
pub proof fn lemma_put_user(store: StoreView, user: UserView)
    requires
        store.wf(),
    ensures
        store.put_user(user).wf(),
        store.put_user(user).lists == store.lists,
        store.put_user(user).user(user.login) == Some(user),
        forall|login: Seq<char>| login != user.login ==> store.put_user(user).user(login)
            == store.user(login),
        store.put_user(user).users.len() == if store.user(user.login) is Some {
            store.users.len()
        } else {
            store.users.len() + 1
        },
{
    let keys = logins(store.users);
    let i = first_index_of(keys, user.login);
    lemma_first_index_of(keys, user.login);
    if i < store.users.len() {
        lemma_logins_update(store.users, i, user);
        assert forall|login: Seq<char>| login != user.login implies store.put_user(user).user(
            login,
        ) == store.user(login) by {
            lemma_first_index_of(keys, login);
        }
    } else {
        assert(logins(store.users.push(user)) =~= keys.push(user.login));
        lemma_push_no_duplicates(keys, user.login);
        lemma_first_index_push(keys, user.login, user.login);
        assert forall|login: Seq<char>| login != user.login implies store.put_user(user).user(
            login,
        ) == store.user(login) by {
            lemma_first_index_push(keys, user.login, login);
            lemma_first_index_of(keys, login);
        }
    }
}

/// Putting a list record keeps the store well formed, makes that record the
/// one found under its id, and leaves every other list and every user as it
/// was.
pub proof fn lemma_put_list(store: StoreView, list: ListView)
    requires
        store.wf(),
    ensures
        store.put_list(list).wf(),
        store.put_list(list).users == store.users,
        store.put_list(list).list(list.id) == Some(list),
        forall|id: ListIdView| id != list.id ==> store.put_list(list).list(id) == store.list(id),
        store.put_list(list).lists.len() == if store.list(list.id) is Some {
            store.lists.len()
        } else {
            store.lists.len() + 1
        },
{
    let keys = list_ids(store.lists);
    let i = first_index_of(keys, list.id);
    lemma_first_index_of(keys, list.id);
    if i < store.lists.len() {
        lemma_list_ids_update(store.lists, i, list);
        assert forall|id: ListIdView| id != list.id implies store.put_list(list).list(id)
            == store.list(id) by {
            lemma_first_index_of(keys, id);
        }
    } else {
        assert(list_ids(store.lists.push(list)) =~= keys.push(list.id));
        lemma_push_no_duplicates(keys, list.id);
        lemma_first_index_push(keys, list.id, list.id);
        assert forall|id: ListIdView| id != list.id implies store.put_list(list).list(id)
            == store.list(id) by {
            lemma_first_index_push(keys, list.id, id);
            lemma_first_index_of(keys, id);
        }
    }
}

/// Deleting a list keeps the store well formed, leaves no record under that
/// id, and leaves every other list and every user as it was.
pub proof fn lemma_delete_list(store: StoreView, id: ListIdView)
    requires
        store.wf(),
    ensures
        store.delete_list(id).wf(),
        store.delete_list(id).users == store.users,
        store.delete_list(id).list(id) is None,
        forall|other: ListIdView| other != id ==> store.delete_list(id).list(other) == store.list(
            other,
        ),
        store.delete_list(id).lists.len() == if store.list(id) is Some {
            store.lists.len() - 1
        } else {
            store.lists.len() as int
        },
{
    let keys = list_ids(store.lists);
    let i = first_index_of(keys, id);
    lemma_first_index_of(keys, id);
    if i < store.lists.len() {
        assert(list_ids(store.lists.remove(i)) =~= keys.remove(i));
        lemma_first_index_remove(keys, i, id);
        assert forall|other: ListIdView| other != id implies store.delete_list(id).list(other)
            == store.list(other) by {
            lemma_first_index_remove(keys, i, other);
            lemma_first_index_of(keys, other);
        }
    }
}

/// Putting user records one after the other keeps the store well formed and
/// its lists as they were; under each login stands the last record put with
/// it, or what stood there before.
pub proof fn lemma_put_users(store: StoreView, users: Seq<UserView>)
    requires
        store.wf(),
    ensures
        store.put_users(users).wf(),
        store.put_users(users).lists == store.lists,
        forall|login: Seq<char>|
            #![trigger store.put_users(users).user(login)]
            store.put_users(users).user(login) == if last_index_of(logins(users), login) >= 0 {
                Some(users[last_index_of(logins(users), login)])
            } else {
                store.user(login)
            },
    decreases users.len(),
{
    if users.len() > 0 {
        let before = store.put_users(users.drop_last());
        lemma_put_users(store, users.drop_last());
        lemma_put_user(before, users.last());
        assert(logins(users).drop_last() =~= logins(users.drop_last()));
        assert forall|login: Seq<char>|
            #![trigger store.put_users(users).user(login)]
            store.put_users(users).user(login) == if last_index_of(logins(users), login) >= 0 {
                Some(users[last_index_of(logins(users), login)])
            } else {
                store.user(login)
            } by {
            lemma_last_index_of(logins(users.drop_last()), login);
            if login != users.last().login {
                assert(before.put_user(users.last()).user(login) == before.user(login));
                assert(before.user(login) == if last_index_of(logins(users.drop_last()), login)
                    >= 0 {
                    Some(users.drop_last()[last_index_of(logins(users.drop_last()), login)])
                } else {
                    store.user(login)
                });
            }
        }
    }
}

/// Putting list records one after the other keeps the store well formed and
/// its users as they were; under each id stands the last record put with it,
/// or what stood there before.
pub proof fn lemma_put_lists(store: StoreView, lists: Seq<ListView>)
    requires
        store.wf(),
    ensures
        store.put_lists(lists).wf(),
        store.put_lists(lists).users == store.users,
        forall|id: ListIdView|
            #![trigger store.put_lists(lists).list(id)]
            store.put_lists(lists).list(id) == if last_index_of(list_ids(lists), id) >= 0 {
                Some(lists[last_index_of(list_ids(lists), id)])
            } else {
                store.list(id)
            },
    decreases lists.len(),
{
    if lists.len() > 0 {
        let before = store.put_lists(lists.drop_last());
        lemma_put_lists(store, lists.drop_last());
        lemma_put_list(before, lists.last());
        assert(list_ids(lists).drop_last() =~= list_ids(lists.drop_last()));
        assert forall|id: ListIdView|
            #![trigger store.put_lists(lists).list(id)]
            store.put_lists(lists).list(id) == if last_index_of(list_ids(lists), id) >= 0 {
                Some(lists[last_index_of(list_ids(lists), id)])
            } else {
                store.list(id)
            } by {
            lemma_last_index_of(list_ids(lists.drop_last()), id);
            if id != lists.last().id {
                assert(before.put_list(lists.last()).list(id) == before.list(id));
                assert(before.list(id) == if last_index_of(list_ids(lists.drop_last()), id) >= 0 {
                    Some(lists.drop_last()[last_index_of(list_ids(lists.drop_last()), id)])
                } else {
                    store.list(id)
                });
            }
        }
    }
}

/// Deleting lists one after the other keeps the store well formed and its
/// users as they were; no record is left under a deleted id, and every other
/// list is as it was.
pub proof fn lemma_delete_lists(store: StoreView, ids: Seq<ListIdView>)
    requires
        store.wf(),
    ensures
        store.delete_lists(ids).wf(),
        store.delete_lists(ids).users == store.users,
        forall|id: ListIdView|
            #![trigger store.delete_lists(ids).list(id)]
            store.delete_lists(ids).list(id) == if ids.contains(id) {
                None
            } else {
                store.list(id)
            },
    decreases ids.len(),
{
    if ids.len() > 0 {
        let before = store.delete_lists(ids.drop_last());
        lemma_delete_lists(store, ids.drop_last());
        lemma_delete_list(before, ids.last());
        assert forall|id: ListIdView|
            #![trigger store.delete_lists(ids).list(id)]
            store.delete_lists(ids).list(id) == if ids.contains(id) {
                None
            } else {
                store.list(id)
            } by {
            if id == ids.last() {
                assert(ids[ids.len() - 1] == id);
            } else {
                assert(before.delete_list(ids.last()).list(id) == before.list(id));
                if ids.contains(id) {
                    let i = choose|i: int| 0 <= i < ids.len() && ids[i] == id;
                    assert(ids.drop_last()[i] == id);
                }
                if ids.drop_last().contains(id) {
                    let i = choose|i: int| 0 <= i < ids.drop_last().len() && ids.drop_last()[i] == id;
                    assert(ids[i] == id);
                }
            }
        }
    } else {
        assert forall|id: ListIdView| !ids.contains(id) by {}
    }
}

/// What a change set leaves in a well-formed store. The store stays well
/// formed. Under a login stands the last user record that the set puts with
/// it, or what stood there before. Under an id that the set deletes stands
/// nothing; under any other the last list record that the set puts with it,
/// or what stood there before.
pub proof fn lemma_apply(store: StoreView, changes: ChangeSetView)
    requires
        store.wf(),
    ensures
        store.apply(changes).wf(),
        forall|login: Seq<char>|
            #![trigger store.apply(changes).user(login)]
            store.apply(changes).user(login) == if last_index_of(logins(changes.users), login)
                >= 0 {
                Some(changes.users[last_index_of(logins(changes.users), login)])
            } else {
                store.user(login)
            },
        forall|id: ListIdView|
            #![trigger store.apply(changes).list(id)]
            store.apply(changes).list(id) == if changes.removed_lists.contains(id) {
                None
            } else if last_index_of(list_ids(changes.lists), id) >= 0 {
                Some(changes.lists[last_index_of(list_ids(changes.lists), id)])
            } else {
                store.list(id)
            },
{
    let a = store.put_users(changes.users);
    let b = a.put_lists(changes.lists);
    let c = b.delete_lists(changes.removed_lists);
    lemma_put_users(store, changes.users);
    lemma_put_lists(a, changes.lists);
    lemma_delete_lists(b, changes.removed_lists);
    assert forall|login: Seq<char>|
        #![trigger store.apply(changes).user(login)]
        store.apply(changes).user(login) == if last_index_of(logins(changes.users), login) >= 0 {
            Some(changes.users[last_index_of(logins(changes.users), login)])
        } else {
            store.user(login)
        } by {
        assert(c.user(login) == b.user(login));
        assert(b.user(login) == a.user(login));
        assert(a.user(login) == store.put_users(changes.users).user(login));
    }
    assert forall|id: ListIdView|
        #![trigger store.apply(changes).list(id)]
        store.apply(changes).list(id) == if changes.removed_lists.contains(id) {
            None
        } else if last_index_of(list_ids(changes.lists), id) >= 0 {
            Some(changes.lists[last_index_of(list_ids(changes.lists), id)])
        } else {
            store.list(id)
        } by {
        assert(c.list(id) == b.delete_lists(changes.removed_lists).list(id));
        assert(b.list(id) == a.put_lists(changes.lists).list(id));
        assert(a.list(id) == store.list(id));
    }
}

/// An empty change set leaves the store as it is.
pub proof fn lemma_apply_empty(store: StoreView, changes: ChangeSetView)
    requires
        changes.is_empty(),
    ensures
        store.apply(changes) == store,
{
}

/// List records with ids that differ from each other and from all in the
/// store come in behind those of the store, in their order.
pub proof fn lemma_put_lists_fresh(store: StoreView, lists: Seq<ListView>)
    requires
        store.wf(),
        list_ids(lists).no_duplicates(),
        forall|i: int| 0 <= i < lists.len() ==> store.list(#[trigger] lists[i].id) is None,
    ensures
        store.put_lists(lists).lists == store.lists + lists,
        store.put_lists(lists).users == store.users,
    decreases lists.len(),
{
    if lists.len() > 0 {
        let front = lists.drop_last();
        let before = store.put_lists(front);
        assert(list_ids(front) =~= list_ids(lists).drop_last());
        assert forall|i: int| 0 <= i < front.len() implies store.list(#[trigger] front[i].id) is None by {
            assert(front[i] == lists[i]);
        }
        lemma_put_lists_fresh(store, front);
        lemma_put_lists(store, front);
        let id = lists.last().id;
        assert(store.list(lists[lists.len() - 1].id) is None);
        lemma_last_index_of(list_ids(front), id);
        if last_index_of(list_ids(front), id) >= 0 {
            let k = last_index_of(list_ids(front), id);
            assert(list_ids(lists)[k] == id);
            assert(list_ids(lists)[lists.len() - 1] == id);
        }
        assert(before.list(id) is None);
        assert(store.put_lists(lists).lists =~= store.lists + lists);
    } else {
        assert(store.lists + lists =~= store.lists);
    }
}

/// User records with logins that differ from each other and from all in the
/// store come in behind those of the store, in their order.
pub proof fn lemma_put_users_fresh(store: StoreView, users: Seq<UserView>)
    requires
        store.wf(),
        logins(users).no_duplicates(),
        forall|i: int| 0 <= i < users.len() ==> store.user(#[trigger] users[i].login) is None,
    ensures
        store.put_users(users).users == store.users + users,
        store.put_users(users).lists == store.lists,
    decreases users.len(),
{
    if users.len() > 0 {
        let front = users.drop_last();
        let before = store.put_users(front);
        assert(logins(front) =~= logins(users).drop_last());
        assert forall|i: int| 0 <= i < front.len() implies store.user(#[trigger] front[i].login) is None by {
            assert(front[i] == users[i]);
        }
        lemma_put_users_fresh(store, front);
        lemma_put_users(store, front);
        let login = users.last().login;
        assert(store.user(users[users.len() - 1].login) is None);
        lemma_last_index_of(logins(front), login);
        if last_index_of(logins(front), login) >= 0 {
            let k = last_index_of(logins(front), login);
            assert(logins(users)[k] == login);
            assert(logins(users)[users.len() - 1] == login);
        }
        assert(before.user(login) is None);
        assert(store.put_users(users).users =~= store.users + users);
    } else {
        assert(store.users + users =~= store.users);
    }
}

/// Putting the record that the store holds under its id leaves the store
/// as it is.
pub proof fn lemma_put_same_list(store: StoreView, list: ListView)
    requires
        store.list(list.id) == Some(list),
    ensures
        store.put_list(list) == store,
{
    let i = first_index_of(list_ids(store.lists), list.id);
    lemma_first_index_of(list_ids(store.lists), list.id);
    assert(store.lists[i] == list);
    assert(store.lists.update(i, list) =~= store.lists);
}

/// Putting records that the store holds under their ids leaves the store
/// as it is.
pub proof fn lemma_put_same_lists(store: StoreView, lists: Seq<ListView>)
    requires
        forall|i: int| 0 <= i < lists.len() ==> store.list((#[trigger] lists[i]).id) == Some(lists[i]),
    ensures
        store.put_lists(lists) == store,
    decreases lists.len(),
{
    if lists.len() > 0 {
        let front = lists.drop_last();
        assert forall|i: int| 0 <= i < front.len() implies store.list((#[trigger] front[i]).id)
            == Some(front[i]) by {
            assert(front[i] == lists[i]);
        }
        lemma_put_same_lists(store, front);
        assert(store.list(lists[lists.len() - 1].id) == Some(lists[lists.len() - 1]));
        lemma_put_same_list(store, lists.last());
    }
}

/// A record found under a key has that key.
pub proof fn lemma_found_has_key(store: StoreView, login: Seq<char>, id: ListIdView)
    ensures
        store.user(login) is Some ==> store.user(login).unwrap().login == login,
        store.list(id) is Some ==> store.list(id).unwrap().id == id,
{
    lemma_first_index_of(logins(store.users), login);
    lemma_first_index_of(list_ids(store.lists), id);
}

/// User records that all have one login, put into the empty store, leave the
/// last of them and nothing else.
pub proof fn lemma_put_users_one_login(users: Seq<UserView>, login: Seq<char>)
    requires
        users.len() > 0,
        forall|i: int| 0 <= i < users.len() ==> (#[trigger] users[i]).login == login,
    ensures
        StoreView::empty().put_users(users) == (StoreView {
            users: seq![users.last()],
            lists: Seq::empty(),
        }),
    decreases users.len(),
{
    let front = users.drop_last();
    let before = StoreView::empty().put_users(front);
    if front.len() > 0 {
        assert forall|i: int| 0 <= i < front.len() implies (#[trigger] front[i]).login == login by {
            assert(front[i] == users[i]);
        }
        lemma_put_users_one_login(front, login);
        let keys = logins(before.users);
        assert(keys =~= seq![login]);
        lemma_first_index_is(keys, login, 0);
        assert(before.users.update(0, users.last()) =~= seq![users.last()]);
    } else {
        let keys = logins(before.users);
        assert(keys =~= Seq::<Seq<char>>::empty());
        assert(before.users.push(users.last()) =~= seq![users.last()]);
    }
}

/// The name of the table of user records.
pub const USER_STORE: &'static str = "users";

/// The name of the table of list records.
pub const LIST_STORE: &'static str = "lists";

/// The field by which user records are keyed.
pub const USER_KEY_PATH: &'static str = "login";

/// The field by which list records are keyed.
pub const LIST_KEY_PATH: &'static str = "id";

/// A table of the store, as a schema version declares it.
#[derive(Clone, Copy, Debug, PartialEq, Eq)]
pub struct TableSchema {
    pub name: &'static str,
    /// The field of a record that holds its key.
    pub key_path: &'static str,
    /// Whether the backend numbers records that come without a key.
    pub auto_increment: bool,
}

/// A version of the store's schema.
#[derive(Clone, Copy, Debug, PartialEq, Eq, Structural)]
pub enum SchemaVersion {
    Version1,
}

/// The number of a schema version that this library does not know.
#[derive(Clone, Copy, Debug, PartialEq, Eq, Structural)]
pub struct MissingVersion(pub u32);

impl SchemaVersion {
    /// The number of the newest schema version.
    pub open spec fn spec_latest() -> u32 {
        1
    }

    /// The number of the newest schema version.
    #[verifier::when_used_as_spec(spec_latest)]
    pub fn latest() -> (res: u32)
        ensures
            res == Self::spec_latest(),
    {
        1
    }

    /// The number of this version.
    pub fn number(&self) -> (res: u32)
        ensures
            res == 1,
    {
        match self {
            SchemaVersion::Version1 => 1,
        }
    }

    /// The tables that this version adds to the store: the table of lists,
    /// keyed by id, and the table of users, keyed by login.
    pub fn tables(&self) -> (res: Vec<TableSchema>)
        ensures
            res@.len() == 2,
            res@[0].name@ == LIST_STORE@,
            res@[0].key_path@ == LIST_KEY_PATH@,
            res@[0].auto_increment,
            res@[1].name@ == USER_STORE@,
            res@[1].key_path@ == USER_KEY_PATH@,
            res@[1].auto_increment,
    {
        let mut tables: Vec<TableSchema> = Vec::new();
        match self {
            SchemaVersion::Version1 => {
                tables.push(
                    TableSchema { name: LIST_STORE, key_path: LIST_KEY_PATH, auto_increment: true },
                );
                tables.push(
                    TableSchema { name: USER_STORE, key_path: USER_KEY_PATH, auto_increment: true },
                );
            },
        }
        tables
    }

    /// The version with this number; an unknown number is refused.
    pub fn try_from(value: u32) -> (res: Result<SchemaVersion, MissingVersion>)
        ensures
            value == 1 ==> res == Ok::<SchemaVersion, MissingVersion>(SchemaVersion::Version1),
            value != 1 ==> res == Err::<SchemaVersion, MissingVersion>(MissingVersion(value)),
    {
        if value == 1 {
            Ok(SchemaVersion::Version1)
        } else {
            Err(MissingVersion(value))
        }
    }
}

/// Why the local store failed.
#[derive(Clone, Copy, Debug, PartialEq, Eq, Structural)]
pub enum StoreError {
    /// The store was opened with a schema version that is not known.
    SchemaMismatch(u32),
    /// A transaction did not commit.
    TransactionFailed,
    /// The backend that persists the store cannot be reached.
    BackendUnavailable,
}

/// The writes of one transaction.
#[derive(Debug)]
pub struct ChangeSet {
    /// User records to put.
    pub users: Vec<User>,
    /// List records to put.
    pub lists: Vec<List>,
    /// Ids of the lists to delete, after the puts.
    pub removed_lists: Vec<ListId>,
}

impl View for ChangeSet {
    type V = ChangeSetView;

    open spec fn view(&self) -> ChangeSetView {
        ChangeSetView {
            users: self.users.deep_view(),
            lists: self.lists.deep_view(),
            removed_lists: self.removed_lists.deep_view(),
        }
    }
}

impl ChangeSet {
    /// A change set that writes nothing.
    pub fn new() -> (res: ChangeSet)
        ensures
            res@.is_empty(),
    {
        ChangeSet { users: Vec::new(), lists: Vec::new(), removed_lists: Vec::new() }
    }

    /// Whether the change set writes nothing.
    pub fn is_empty(&self) -> (res: bool)
        ensures
            res == self@.is_empty(),
    {
        self.users.len() == 0 && self.lists.len() == 0 && self.removed_lists.len() == 0
    }
}

/// The local store, held in memory.
#[derive(Debug)]
pub struct RecordStore {
    users: Vec<User>,
    lists: Vec<List>,
}

impl View for RecordStore {
    type V = StoreView;

    closed spec fn view(&self) -> StoreView {
        StoreView { users: self.users.deep_view(), lists: self.lists.deep_view() }
    }
}

impl RecordStore {
    /// No key occurs twice in the store.
    pub open spec fn wf(&self) -> bool {
        self@.wf()
    }

    /// Opens an empty store under a schema version. A version that is not
    /// known is refused; nothing is migrated.
    pub fn open(schema_version: u32) -> (res: Result<RecordStore, StoreError>)
        ensures
            match res {
                Ok(store) => schema_version == SchemaVersion::latest() && store.wf() && store@
                    == StoreView::empty(),
                Err(e) => schema_version != SchemaVersion::latest() && e
                    == StoreError::SchemaMismatch(schema_version),
            },
    {
        match SchemaVersion::try_from(schema_version) {
            Ok(_) => {
                let store = RecordStore { users: Vec::new(), lists: Vec::new() };
                assert(store@.users =~= Seq::<UserView>::empty());
                assert(store@.lists =~= Seq::<ListView>::empty());
                Ok(store)
            },
            Err(MissingVersion(number)) => Err(StoreError::SchemaMismatch(number)),
        }
    }

    /// Where the user with this login stands, or the number of users.
    fn find_user(&self, login: &String) -> (res: usize)
        ensures
            res == first_index_of(logins(self@.users), login@),
            res <= self.users.len(),
    {
        let mut i: usize = 0;
        while i < self.users.len()
            invariant
                i <= self.users.len(),
                forall|j: int| 0 <= j < i ==> logins(self@.users)[j] != login@,
            decreases self.users.len() - i,
        {
            if self.users[i].login == *login {
                proof {
                    lemma_first_index_is(logins(self@.users), login@, i as int);
                }
                return i;
            }
            i = i + 1;
        }
        proof {
            lemma_first_index_is(logins(self@.users), login@, i as int);
        }
        i
    }

    /// Where the list with this id stands, or the number of lists.
    fn find_list(&self, id: &ListId) -> (res: usize)
        ensures
            res == first_index_of(list_ids(self@.lists), id@),
            res <= self.lists.len(),
    {
        let mut i: usize = 0;
        while i < self.lists.len()
            invariant
                i <= self.lists.len(),
                forall|j: int| 0 <= j < i ==> list_ids(self@.lists)[j] != id@,
            decreases self.lists.len() - i,
        {
            if self.lists[i].id.same(id) {
                proof {
                    lemma_first_index_is(list_ids(self@.lists), id@, i as int);
                }
                return i;
            }
            i = i + 1;
        }
        proof {
            lemma_first_index_is(list_ids(self@.lists), id@, i as int);
        }
        i
    }

    /// The record of the user with this login, if the store has one.
    pub fn get_user(&self, login: &str) -> (res: Option<User>)
        ensures
            res.deep_view() == self@.user(login@),
    {
        let key = login.to_owned();
        let i = self.find_user(&key);
        if i < self.users.len() {
            Some(self.users[i].clone())
        } else {
            None
        }
    }

    /// The record of the list with this id, if the store has one.
    pub fn get_list(&self, id: &ListId) -> (res: Option<List>)
        ensures
            res.deep_view() == self@.list(id@),
    {
        let i = self.find_list(id);
        if i < self.lists.len() {
            Some(self.lists[i].clone())
        } else {
            None
        }
    }

    /// All user records.
    pub fn users(&self) -> (res: &Vec<User>)
        ensures
            res.deep_view() == self@.users,
    {
        &self.users
    }

    /// All list records.
    pub fn lists(&self) -> (res: &Vec<List>)
        ensures
            res.deep_view() == self@.lists,
    {
        &self.lists
    }

    /// Puts one user record.
    pub fn put_user(&mut self, user: User)
        requires
            old(self).wf(),
        ensures
            final(self).wf(),
            final(self)@ == old(self)@.put_user(user@),
    {
        proof {
            lemma_put_user(self@, user@);
        }
        let i = self.find_user(&user.login);
        if i < self.users.len() {
            self.users[i] = user;
            assert(self@.users =~= old(self)@.users.update(i as int, user@));
        } else {
            self.users.push(user);
            assert(self@.users =~= old(self)@.users.push(user@));
        }
        assert(self@.lists =~= old(self)@.lists);
    }

    /// Puts one list record.
    pub fn put_list(&mut self, list: List)
        requires
            old(self).wf(),
        ensures
            final(self).wf(),
            final(self)@ == old(self)@.put_list(list@),
    {
        proof {
            lemma_put_list(self@, list@);
        }
        let i = self.find_list(&list.id);
        if i < self.lists.len() {
            self.lists[i] = list;
            assert(self@.lists =~= old(self)@.lists.update(i as int, list@));
        } else {
            self.lists.push(list);
            assert(self@.lists =~= old(self)@.lists.push(list@));
        }
        assert(self@.users =~= old(self)@.users);
    }

    /// Deletes the list with this id; where there is none, nothing happens.
    pub fn delete_list(&mut self, id: &ListId)
        requires
            old(self).wf(),
        ensures
            final(self).wf(),
            final(self)@ == old(self)@.delete_list(id@),
    {
        proof {
            lemma_delete_list(self@, id@);
        }
        let i = self.find_list(id);
        if i < self.lists.len() {
            let _ = self.lists.remove(i);
            assert(self@.lists =~= old(self)@.lists.remove(i as int));
        }
        assert(self@.users =~= old(self)@.users);
    }

    /// Writes a change set as one transaction: user records are put, list
    /// records are put, then lists are deleted, and the store shows all of it
    /// at once.
    pub fn commit(&mut self, changes: &ChangeSet)
        requires
            old(self).wf(),
        ensures
            final(self).wf(),
            final(self)@ == old(self)@.apply(changes@),
    {
        let mut i: usize = 0;
        while i < changes.users.len()
            invariant
                i <= changes.users.len(),
                self.wf(),
                self@ == old(self)@.put_users(changes@.users.take(i as int)),
            decreases changes.users.len() - i,
        {
            proof {
                assert(changes@.users.take(i + 1).drop_last() =~= changes@.users.take(i as int));
            }
            self.put_user(changes.users[i].clone());
            i = i + 1;
        }
        assert(changes@.users.take(i as int) =~= changes@.users);
        let ghost with_users = self@;
        let mut j: usize = 0;
        while j < changes.lists.len()
            invariant
                j <= changes.lists.len(),
                self.wf(),
                self@ == with_users.put_lists(changes@.lists.take(j as int)),
            decreases changes.lists.len() - j,
        {
            proof {
                assert(changes@.lists.take(j + 1).drop_last() =~= changes@.lists.take(j as int));
            }
            self.put_list(changes.lists[j].clone());
            j = j + 1;
        }
        assert(changes@.lists.take(j as int) =~= changes@.lists);
        let ghost with_lists = self@;
        let mut k: usize = 0;
        while k < changes.removed_lists.len()
            invariant
                k <= changes.removed_lists.len(),
                self.wf(),
                self@ == with_lists.delete_lists(changes@.removed_lists.take(k as int)),
            decreases changes.removed_lists.len() - k,
        {
            proof {
                assert(changes@.removed_lists.take(k + 1).drop_last()
                    =~= changes@.removed_lists.take(k as int));
            }
            self.delete_list(&changes.removed_lists[k]);
            k = k + 1;
        }
        assert(changes@.removed_lists.take(k as int) =~= changes@.removed_lists);
    }
}

} // verus!
