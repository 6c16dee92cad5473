//! What a synchronisation writes into the local store: the plan, the files to
//! fetch, and the change set of a first install or of an update.
use vstd::prelude::*;
use vstd::string::*;
use crate::list_id::{ListId, ListIdView};
use crate::records::{List, ListView, User, UserView};
use crate::remote::{
    is_document_path,
    is_user_path,
    lemma_document_names_file,
    list_id_of,
    names_document,
    names_user_file,
    ChangedFile,
    ChangedFileStatus,
    ChangedFileView,
    RepositoryMetadata,
    RepositoryView,
    TreeEntry,
    TreeEntryView,
};
use crate::search::{
    last_index_of,
    lemma_filter_map_holds,
    lemma_filter_map_origin,
    lemma_filter_map_same_len,
    lemma_filter_map_split,
    lemma_holds_contains,
    lemma_last_index_of,
};
use crate::text::{has_file_name, names_file};
use crate::store::{
    lemma_apply,
    lemma_found_has_key,
    lemma_put_lists_fresh,
    lemma_put_same_lists,
    lemma_put_users_one_login,
    list_ids,
    logins,
    ChangeSet,
    ChangeSetView,
    StoreView,
};

verus! {

/// What a synchronisation has to do.
#[derive(Clone, Copy, Debug, PartialEq, Eq, Structural)]
pub enum SyncPlan {
    /// No local user record: fetch every document of the remote tree.
    Install,
    /// The local version differs from the remote one: fetch what changed.
    Update,
    /// The local version is the remote one: nothing to do.
    UpToDate,
}

/// The plan that follows from the local user record and the remote version.
pub open spec fn plan_for(local: Option<UserView>, repo: RepositoryView) -> SyncPlan {
    match local {
        None => SyncPlan::Install,
        Some(user) => if user.local_version != repo.version {
            SyncPlan::Update
        } else {
            SyncPlan::UpToDate
        },
    }
}

/// Decides what a synchronisation has to do.
pub fn plan(local: &Option<User>, repo: &RepositoryMetadata) -> (res: SyncPlan)
    ensures
        res == plan_for(local.deep_view(), repo@),
{
    match local {
        None => SyncPlan::Install,
        Some(user) => if user.local_version == repo.version {
            SyncPlan::UpToDate
        } else {
            SyncPlan::Update
        },
    }
}

/// A remote file to fetch.
#[derive(Debug)]
pub struct RemoteFile {
    pub path: String,
    pub file_id: String,
}

/// A remote file as plain text.
pub struct RemoteFileView {
    pub path: Seq<char>,
    pub file_id: Seq<char>,
}

impl View for RemoteFile {
    type V = RemoteFileView;

    open spec fn view(&self) -> RemoteFileView {
        RemoteFileView { path: self.path@, file_id: self.file_id@ }
    }
}

impl DeepView for RemoteFile {
    type V = RemoteFileView;

    open spec fn deep_view(&self) -> RemoteFileView {
        self@
    }
}

impl Clone for RemoteFile {
    fn clone(&self) -> (res: Self)
        ensures
            res@ == self@,
    {
        RemoteFile { path: self.path.clone(), file_id: self.file_id.clone() }
    }
}

/// A remote file with its content at the remote version.
#[derive(Debug)]
pub struct Download {
    pub path: String,
    pub file_id: String,
    pub content: String,
}

/// A download as plain text.
pub struct DownloadView {
    pub path: Seq<char>,
    pub file_id: Seq<char>,
    pub content: Seq<char>,
}

impl View for Download {
    type V = DownloadView;

    open spec fn view(&self) -> DownloadView {
        DownloadView { path: self.path@, file_id: self.file_id@, content: self.content@ }
    }
}

impl DeepView for Download {
    type V = DownloadView;

    open spec fn deep_view(&self) -> DownloadView {
        self@
    }
}

/// The file to fetch for a tree entry: one for each entry that is no
/// directory and whose path names a document.
pub open spec fn document_of(entry: TreeEntryView) -> Option<RemoteFileView> {
    if !entry.is_tree && is_document_path(entry.path) {
        Some(RemoteFileView { path: entry.path, file_id: entry.id })
    } else {
        None
    }
}

/// `document_of` as a function value.
pub open spec fn document_filter() -> spec_fn(TreeEntryView) -> Option<RemoteFileView> {
    |entry: TreeEntryView| document_of(entry)
}

/// The documents among the entries of a tree, in the tree's order.
pub open spec fn documents(entries: Seq<TreeEntryView>) -> Seq<RemoteFileView> {
    entries.filter_map(document_filter())
}

/// The file to fetch for a changed file: one for each status that calls for
/// a download.
pub open spec fn download_of(file: ChangedFileView) -> Option<RemoteFileView> {
    if file.status.needs_download() {
        Some(RemoteFileView { path: file.path, file_id: file.file_id })
    } else {
        None
    }
}

/// `download_of` as a function value.
pub open spec fn download_filter() -> spec_fn(ChangedFileView) -> Option<RemoteFileView> {
    |file: ChangedFileView| download_of(file)
}

/// The files to fetch among the changed ones, in their order.
pub open spec fn downloadable(changed: Seq<ChangedFileView>) -> Seq<RemoteFileView> {
    changed.filter_map(download_filter())
}

/// The user record that an install makes of the user document.
pub open spec fn installed_user(
    login: Seq<char>,
    repo: RepositoryView,
    file: DownloadView,
) -> UserView {
    UserView {
        login,
        file_id: Some(file.file_id),
        kdl: file.content,
        root_tree_id: repo.tree_id,
        local_version: repo.version,
        remote_version: repo.version,
    }
}

/// The list record that a synchronisation makes of a list document.
pub open spec fn installed_list(
    login: Seq<char>,
    repo: RepositoryView,
    file: DownloadView,
) -> ListView {
    ListView {
        id: list_id_of(login, file.path),
        file_id: Some(file.file_id),
        kdl: file.content,
        local_version: repo.version,
        pending_changes: Seq::empty(),
    }
}

/// The user record of a download, where it is the user document.
pub open spec fn user_filter(login: Seq<char>, repo: RepositoryView) -> spec_fn(
    DownloadView,
) -> Option<UserView> {
    |file: DownloadView|
        if is_user_path(file.path) {
            Some(installed_user(login, repo, file))
        } else {
            None
        }
}

/// The list record of a download, where it is a list document.
pub open spec fn list_filter(login: Seq<char>, repo: RepositoryView) -> spec_fn(
    DownloadView,
) -> Option<ListView> {
    |file: DownloadView|
        if is_user_path(file.path) {
            None
        } else {
            Some(installed_list(login, repo, file))
        }
}

/// The content of a download, where it is the user document.
pub open spec fn user_content_filter() -> spec_fn(DownloadView) -> Option<Seq<char>> {
    |file: DownloadView|
        if is_user_path(file.path) {
            Some(file.content)
        } else {
            None
        }
}

/// The id of the list that a changed file takes away: one for each removed
/// file that is not the user document.
pub open spec fn removal_filter(login: Seq<char>) -> spec_fn(ChangedFileView) -> Option<
    ListIdView,
> {
    |file: ChangedFileView|
        if file.status == ChangedFileStatus::Removed && !is_user_path(file.path) {
            Some(list_id_of(login, file.path))
        } else {
            None
        }
}

/// What a first install writes: a user record for each user document and a
/// list record for each other document, all stamped with the remote version.
pub open spec fn install_changes(
    login: Seq<char>,
    repo: RepositoryView,
    downloads: Seq<DownloadView>,
) -> ChangeSetView {
    ChangeSetView {
        users: downloads.filter_map(user_filter(login, repo)),
        lists: downloads.filter_map(list_filter(login, repo)),
        removed_lists: Seq::empty(),
    }
}

/// The user document after an update: the last one fetched, or the local
/// one where none was.
pub open spec fn updated_content(local: Seq<char>, downloads: Seq<DownloadView>) -> Seq<char> {
    let fetched = downloads.filter_map(user_content_filter());
    if fetched.len() > 0 {
        fetched.last()
    } else {
        local
    }
}

/// The user record after an update: the document refreshed where it was
/// fetched, and both versions set to the remote one.
pub open spec fn updated_user(
    user: UserView,
    repo: RepositoryView,
    downloads: Seq<DownloadView>,
) -> UserView {
    UserView {
        login: user.login,
        file_id: user.file_id,
        kdl: updated_content(user.kdl, downloads),
        root_tree_id: user.root_tree_id,
        local_version: repo.version,
        remote_version: repo.version,
    }
}

/// What an update writes: the user record at the remote version, a list
/// record for each list document fetched, and the ids of the lists whose
/// documents were removed.
pub open spec fn update_changes(
    user: UserView,
    repo: RepositoryView,
    downloads: Seq<DownloadView>,
    changed: Seq<ChangedFileView>,
) -> ChangeSetView {
    ChangeSetView {
        users: seq![updated_user(user, repo, downloads)],
        lists: downloads.filter_map(list_filter(user.login, repo)),
        removed_lists: changed.filter_map(removal_filter(user.login)),
    }
}

/// Every file of the sequence has a path that names a file.
pub open spec fn files_are_named(files: Seq<RemoteFileView>) -> bool {
    forall|i: int| 0 <= i < files.len() ==> names_file((#[trigger] files[i]).path)
}

/// Every download of the sequence has a path that names a file.
pub open spec fn downloads_are_named(downloads: Seq<DownloadView>) -> bool {
    forall|i: int| 0 <= i < downloads.len() ==> names_file((#[trigger] downloads[i]).path)
}

/// Every changed file of the sequence has a path that names a file.
pub open spec fn changes_are_named(changed: Seq<ChangedFileView>) -> bool {
    forall|i: int| 0 <= i < changed.len() ==> names_file((#[trigger] changed[i]).path)
}

/// The documents of a tree have paths that name files.
pub proof fn lemma_documents_are_named(entries: Seq<TreeEntryView>)
    ensures
        files_are_named(documents(entries)),
{
    let files = documents(entries);
    assert forall|k: int| 0 <= k < files.len() implies names_file((#[trigger] files[k]).path) by {
        lemma_filter_map_origin(entries, document_filter(), k);
        let i = choose|i: int|
            0 <= i < entries.len() && document_filter()(#[trigger] entries[i]) == Some(files[k]);
        lemma_document_names_file(entries[i].path);
    }
}

/// The files to fetch among changed files whose paths name files have paths
/// that name files.
pub proof fn lemma_downloadable_are_named(changed: Seq<ChangedFileView>)
    requires
        changes_are_named(changed),
    ensures
        files_are_named(downloadable(changed)),
{
    let files = downloadable(changed);
    assert forall|k: int| 0 <= k < files.len() implies names_file((#[trigger] files[k]).path) by {
        lemma_filter_map_origin(changed, download_filter(), k);
        let i = choose|i: int|
            0 <= i < changed.len() && download_filter()(#[trigger] changed[i]) == Some(files[k]);
        assert(names_file(changed[i].path));
    }
}

/// Whether every changed file has a path that names a file.
pub fn all_changes_are_named(changed: &Vec<ChangedFile>) -> (res: bool)
    ensures
        res == changes_are_named(changed.deep_view()),
{
    let mut i: usize = 0;
    while i < changed.len()
        invariant
            i <= changed.len(),
            forall|j: int| 0 <= j < i ==> names_file((#[trigger] changed.deep_view()[j]).path),
        decreases changed.len() - i,
    {
        if !has_file_name(changed[i].path.as_str()) {
            assert(!names_file(changed.deep_view()[i as int].path));
            return false;
        }
        i = i + 1;
    }
    true
}

/// Picks the documents out of the entries of a tree.
pub fn scan_tree(entries: &Vec<TreeEntry>) -> (res: Vec<RemoteFile>)
    ensures
        res.deep_view() == documents(entries.deep_view()),
{
    let mut files: Vec<RemoteFile> = Vec::new();
    let mut i: usize = 0;
    while i < entries.len()
        invariant
            i <= entries.len(),
            files.deep_view() == documents(entries.deep_view().take(i as int)),
        decreases entries.len() - i,
    {
        proof {
            entries.deep_view().lemma_filter_map_take_succ(document_filter(), i as int);
        }
        let entry = &entries[i];
        if !entry.is_tree && names_document(entry.path.as_str()) {
            files.push(RemoteFile { path: entry.path.clone(), file_id: entry.id.clone() });
            assert(files.deep_view() =~= documents(entries.deep_view().take(i as int)) + seq![
                document_of(entry@).unwrap(),
            ]);
        }
        i = i + 1;
    }
    assert(entries.deep_view().take(i as int) =~= entries.deep_view());
    files
}

/// Picks the files to fetch out of the changed ones.
pub fn downloads_for(changed: &Vec<ChangedFile>) -> (res: Vec<RemoteFile>)
    ensures
        res.deep_view() == downloadable(changed.deep_view()),
{
    let mut files: Vec<RemoteFile> = Vec::new();
    let mut i: usize = 0;
    while i < changed.len()
        invariant
            i <= changed.len(),
            files.deep_view() == downloadable(changed.deep_view().take(i as int)),
        decreases changed.len() - i,
    {
        proof {
            changed.deep_view().lemma_filter_map_take_succ(download_filter(), i as int);
        }
        let file = &changed[i];
        if file.status.needs_download() {
            files.push(RemoteFile { path: file.path.clone(), file_id: file.file_id.clone() });
            assert(files.deep_view() =~= downloadable(changed.deep_view().take(i as int)) + seq![
                download_of(file@).unwrap(),
            ]);
        }
        i = i + 1;
    }
    assert(changed.deep_view().take(i as int) =~= changed.deep_view());
    files
}

/// The list record of a list document.
fn list_record(login: &str, repo: &RepositoryMetadata, file: &Download) -> (res: List)
    requires
        names_file(file@.path),
    ensures
        res@ == installed_list(login@, repo@, file@),
{
    let res = List {
        id: ListId::from_path(login, file.path.as_str()),
        file_id: Some(file.file_id.clone()),
        kdl: file.content.clone(),
        local_version: repo.version.clone(),
        pending_changes: Vec::new(),
    };
    assert(res@.pending_changes =~= Seq::empty());
    res
}

/// The list records of the list documents among the downloads.
fn list_records(login: &str, repo: &RepositoryMetadata, downloads: &Vec<Download>) -> (res: Vec<
    List,
>)
    requires
        downloads_are_named(downloads.deep_view()),
    ensures
        res.deep_view() == downloads.deep_view().filter_map(list_filter(login@, repo@)),
{
    let ghost f = list_filter(login@, repo@);
    let mut lists: Vec<List> = Vec::new();
    let mut i: usize = 0;
    while i < downloads.len()
        invariant
            downloads_are_named(downloads.deep_view()),
            i <= downloads.len(),
            f == list_filter(login@, repo@),
            lists.deep_view() == downloads.deep_view().take(i as int).filter_map(f),
        decreases downloads.len() - i,
    {
        proof {
            downloads.deep_view().lemma_filter_map_take_succ(f, i as int);
        }
        let file = &downloads[i];
        if !names_user_file(file.path.as_str()) {
            assert(names_file(downloads.deep_view()[i as int].path));
            lists.push(list_record(login, repo, file));
            assert(lists.deep_view() =~= downloads.deep_view().take(i as int).filter_map(f)
                + seq![installed_list(login@, repo@, file@)]);
        }
        i = i + 1;
    }
    assert(downloads.deep_view().take(i as int) =~= downloads.deep_view());
    lists
}

/// Builds what a first install writes. Every download has to have a path
/// that names a file.
pub fn install(login: &str, repo: &RepositoryMetadata, downloads: &Vec<Download>) -> (res:
    ChangeSet)
    requires
        downloads_are_named(downloads.deep_view()),
    ensures
        res@ == install_changes(login@, repo@, downloads.deep_view()),
{
    let ghost f = user_filter(login@, repo@);
    let mut users: Vec<User> = Vec::new();
    let mut i: usize = 0;
    while i < downloads.len()
        invariant
            i <= downloads.len(),
            f == user_filter(login@, repo@),
            users.deep_view() == downloads.deep_view().take(i as int).filter_map(f),
        decreases downloads.len() - i,
    {
        proof {
            downloads.deep_view().lemma_filter_map_take_succ(f, i as int);
        }
        let file = &downloads[i];
        if names_user_file(file.path.as_str()) {
            users.push(
                User {
                    login: login.to_owned(),
                    file_id: Some(file.file_id.clone()),
                    kdl: file.content.clone(),
                    root_tree_id: repo.tree_id.clone(),
                    local_version: repo.version.clone(),
                    remote_version: repo.version.clone(),
                },
            );
            assert(users.deep_view() =~= downloads.deep_view().take(i as int).filter_map(f)
                + seq![installed_user(login@, repo@, file@)]);
        }
        i = i + 1;
    }
    assert(downloads.deep_view().take(i as int) =~= downloads.deep_view());
    let lists = list_records(login, repo, downloads);
    let res = ChangeSet { users, lists, removed_lists: Vec::new() };
    assert(res@.removed_lists =~= Seq::empty());
    res
}

/// Builds what an update writes. Every download and every changed file has
/// to have a path that names a file.
pub fn update(
    user: &User,
    repo: &RepositoryMetadata,
    downloads: &Vec<Download>,
    changed: &Vec<ChangedFile>,
) -> (res: ChangeSet)
    requires
        downloads_are_named(downloads.deep_view()),
        changes_are_named(changed.deep_view()),
    ensures
        res@ == update_changes(user@, repo@, downloads.deep_view(), changed.deep_view()),
{
    let ghost c = user_content_filter();
    let mut kdl = user.kdl.clone();
    let mut i: usize = 0;
    while i < downloads.len()
        invariant
            i <= downloads.len(),
            c == user_content_filter(),
            kdl@ == updated_content(user.kdl@, downloads.deep_view().take(i as int)),
        decreases downloads.len() - i,
    {
        proof {
            downloads.deep_view().lemma_filter_map_take_succ(c, i as int);
        }
        let file = &downloads[i];
        if names_user_file(file.path.as_str()) {
            kdl = file.content.clone();
        }
        i = i + 1;
    }
    assert(downloads.deep_view().take(i as int) =~= downloads.deep_view());
    let ghost r = removal_filter(user.login@);
    let mut removed: Vec<ListId> = Vec::new();
    let mut j: usize = 0;
    while j < changed.len()
        invariant
            changes_are_named(changed.deep_view()),
            j <= changed.len(),
            r == removal_filter(user.login@),
            removed.deep_view() == changed.deep_view().take(j as int).filter_map(r),
        decreases changed.len() - j,
    {
        proof {
            changed.deep_view().lemma_filter_map_take_succ(r, j as int);
        }
        let file = &changed[j];
        if file.status == ChangedFileStatus::Removed && !names_user_file(file.path.as_str()) {
            assert(names_file(changed.deep_view()[j as int].path));
            removed.push(ListId::from_path(user.login.as_str(), file.path.as_str()));
            assert(removed.deep_view() =~= changed.deep_view().take(j as int).filter_map(r)
                + seq![list_id_of(user.login@, file.path@)]);
        }
        j = j + 1;
    }
    assert(changed.deep_view().take(j as int) =~= changed.deep_view());
    let lists = list_records(user.login.as_str(), repo, downloads);
    let record = User {
        login: user.login.clone(),
        file_id: crate::records::clone_text_option(&user.file_id),
        kdl,
        root_tree_id: user.root_tree_id.clone(),
        local_version: repo.version.clone(),
        remote_version: repo.version.clone(),
    };
    let mut users: Vec<User> = Vec::new();
    users.push(record);
    let res = ChangeSet { users, lists, removed_lists: removed };
    assert(res@.users =~= seq![updated_user(user@, repo@, downloads.deep_view())]);
    res
}

/// How many of the downloads are user documents.
pub open spec fn count_user_documents(downloads: Seq<DownloadView>) -> nat {
    downloads.filter_map(user_content_filter()).len()
}

/// The list records that a synchronisation makes of the downloads.
pub open spec fn fetched_lists(
    login: Seq<char>,
    repo: RepositoryView,
    downloads: Seq<DownloadView>,
) -> Seq<ListView> {
    downloads.filter_map(list_filter(login, repo))
}

/// The ids of the lists that the changed files take away.
pub open spec fn removed_ids(login: Seq<char>, changed: Seq<ChangedFileView>) -> Seq<ListIdView> {
    changed.filter_map(removal_filter(login))
}

/// The download at `i` is the only list document among the downloads that
/// gives its list id.
pub open spec fn sole_document(login: Seq<char>, downloads: Seq<DownloadView>, i: int) -> bool {
    forall|j: int|
        0 <= j < downloads.len() && !is_user_path(downloads[j].path) && list_id_of(
            login,
            #[trigger] downloads[j].path,
        ) == list_id_of(login, downloads[i].path) ==> downloads[j] == downloads[i]
}

/// What one synchronisation writes, given the local user record and what the
/// remote handed out.
pub open spec fn sync_changes(
    local: Option<UserView>,
    login: Seq<char>,
    repo: RepositoryView,
    downloads: Seq<DownloadView>,
    changed: Seq<ChangedFileView>,
) -> ChangeSetView {
    match plan_for(local, repo) {
        SyncPlan::Install => install_changes(login, repo, downloads),
        SyncPlan::Update => update_changes(local.unwrap(), repo, downloads, changed),
        SyncPlan::UpToDate => ChangeSetView {
            users: Seq::empty(),
            lists: Seq::empty(),
            removed_lists: Seq::empty(),
        },
    }
}

/// Every list record made of the downloads stands at the remote version, has
/// no pending changes, and holds the content of a list document among them.
pub proof fn lemma_fetched_lists(
    login: Seq<char>,
    repo: RepositoryView,
    downloads: Seq<DownloadView>,
    k: int,
)
    requires
        0 <= k < fetched_lists(login, repo, downloads).len(),
    ensures
        fetched_lists(login, repo, downloads)[k].local_version == repo.version,
        fetched_lists(login, repo, downloads)[k].pending_changes.len() == 0,
        exists|i: int|
            0 <= i < downloads.len() && !is_user_path(downloads[i].path) && fetched_lists(
                login,
                repo,
                downloads,
            )[k] == installed_list(login, repo, #[trigger] downloads[i]),
{
    lemma_filter_map_origin(downloads, list_filter(login, repo), k);
    let i = choose|i: int|
        0 <= i < downloads.len() && list_filter(login, repo)(#[trigger] downloads[i]) == Some(
            fetched_lists(login, repo, downloads)[k],
        );
    assert(fetched_lists(login, repo, downloads)[k] == installed_list(login, repo, downloads[i]));
}

/// A first install into an empty store, from a tree whose list documents
/// give different ids, leaves exactly one list record for each list document,
/// in the tree's order, and one user record where the tree holds a user
/// document; each record stands at the remote version.
pub proof fn lemma_install_complete(
    login: Seq<char>,
    repo: RepositoryView,
    downloads: Seq<DownloadView>,
)
    requires
        list_ids(fetched_lists(login, repo, downloads)).no_duplicates(),
    ensures
        ({
            let after = StoreView::empty().apply(install_changes(login, repo, downloads));
            &&& after.wf()
            &&& after.lists == fetched_lists(login, repo, downloads)
            &&& after.lists.len() == downloads.len() - count_user_documents(downloads)
            &&& forall|k: int|
                0 <= k < after.lists.len() ==> (#[trigger] after.lists[k]).local_version
                    == repo.version
            &&& after.users.len() == if count_user_documents(downloads) > 0 {
                1nat
            } else {
                0nat
            }
            &&& forall|k: int|
                0 <= k < after.users.len() ==> (#[trigger] after.users[k]).login == login
                    && after.users[k].local_version == repo.version
        }),
{
    let changes = install_changes(login, repo, downloads);
    let empty = StoreView::empty();
    let with_users = empty.put_users(changes.users);
    let with_lists = with_users.put_lists(changes.lists);
    assert(logins(empty.users) =~= Seq::<Seq<char>>::empty());
    assert(list_ids(empty.lists) =~= Seq::<ListIdView>::empty());
    lemma_apply(empty, changes);
    lemma_filter_map_same_len(downloads, user_filter(login, repo), user_content_filter());
    lemma_filter_map_split(downloads, list_filter(login, repo), user_content_filter());
    assert forall|k: int| 0 <= k < changes.users.len() implies (#[trigger] changes.users[k]).login
        == login && changes.users[k].local_version == repo.version by {
        lemma_filter_map_origin(downloads, user_filter(login, repo), k);
    }
    if changes.users.len() > 0 {
        lemma_put_users_one_login(changes.users, login);
    }
    assert(with_users.lists =~= Seq::<ListView>::empty());
    assert(list_ids(with_users.lists) =~= Seq::<ListIdView>::empty());
    assert(logins(with_users.users).no_duplicates());
    lemma_put_lists_fresh(with_users, changes.lists);
    assert(with_lists.lists =~= changes.lists);
    assert(with_lists.delete_lists(changes.removed_lists) == with_lists);
    assert forall|k: int| 0 <= k < changes.lists.len() implies (#[trigger] changes.lists[k]).local_version
        == repo.version by {
        lemma_fetched_lists(login, repo, downloads, k);
    }
}

/// What an update leaves in the store. The user record stands at the remote
/// version, with the user document refreshed where it was fetched. No record
/// is left of a list whose document was removed. A list whose document was
/// fetched, once, and not removed has a record with the fetched content at
/// the remote version. Every other user and list is as it was.
pub proof fn lemma_update_applied(
    store: StoreView,
    user: UserView,
    repo: RepositoryView,
    downloads: Seq<DownloadView>,
    changed: Seq<ChangedFileView>,
)
    requires
        store.wf(),
    ensures
        ({
            let after = store.apply(update_changes(user, repo, downloads, changed));
            let removed = removed_ids(user.login, changed);
            let fetched = fetched_lists(user.login, repo, downloads);
            &&& after.wf()
            &&& after.user(user.login) == Some(updated_user(user, repo, downloads))
            &&& after.user(user.login).unwrap().local_version == repo.version
            &&& forall|login: Seq<char>|
                login != user.login ==> #[trigger] after.user(login) == store.user(login)
            &&& forall|i: int|
                0 <= i < changed.len() && (#[trigger] changed[i]).status
                    == ChangedFileStatus::Removed && !is_user_path(changed[i].path) ==> after.list(
                    list_id_of(user.login, changed[i].path),
                ) is None
            &&& forall|i: int|
                0 <= i < downloads.len() && !is_user_path((#[trigger] downloads[i]).path)
                    && !removed.contains(list_id_of(user.login, downloads[i].path))
                    && sole_document(user.login, downloads, i) ==> after.list(
                    list_id_of(user.login, downloads[i].path),
                ) == Some(installed_list(user.login, repo, downloads[i]))
            &&& forall|id: ListIdView|
                !removed.contains(id) && !list_ids(fetched).contains(id) ==> #[trigger] after.list(
                    id,
                ) == store.list(id)
        }),
{
    let changes = update_changes(user, repo, downloads, changed);
    let after = store.apply(changes);
    let removed = removed_ids(user.login, changed);
    let fetched = fetched_lists(user.login, repo, downloads);
    lemma_apply(store, changes);
    assert(logins(changes.users) =~= seq![user.login]);
    assert forall|login: Seq<char>| true implies last_index_of(logins(changes.users), login) == if login
        == user.login {
        0int
    } else {
        -1int
    } by {
        lemma_last_index_of(logins(changes.users), login);
        if last_index_of(logins(changes.users), login) >= 0 {
            assert(logins(changes.users)[last_index_of(logins(changes.users), login)] == login);
        } else {
            assert(logins(changes.users)[0] != login);
        }
    }
    assert(after.user(user.login) == Some(changes.users[0]));
    assert forall|login: Seq<char>| login != user.login implies #[trigger] after.user(login)
        == store.user(login) by {
        assert(last_index_of(logins(changes.users), login) == -1);
    }
    assert forall|i: int|
        0 <= i < changed.len() && (#[trigger] changed[i]).status == ChangedFileStatus::Removed
            && !is_user_path(changed[i].path) implies after.list(
        list_id_of(user.login, changed[i].path),
    ) is None by {
        lemma_filter_map_holds(changed, removal_filter(user.login), i);
    }
    assert forall|i: int|
        0 <= i < downloads.len() && !is_user_path((#[trigger] downloads[i]).path)
            && !removed.contains(list_id_of(user.login, downloads[i].path)) && sole_document(
            user.login,
            downloads,
            i,
        ) implies after.list(list_id_of(user.login, downloads[i].path)) == Some(
        installed_list(user.login, repo, downloads[i]),
    ) by {
        let id = list_id_of(user.login, downloads[i].path);
        lemma_filter_map_holds(downloads, list_filter(user.login, repo), i);
        let record = installed_list(user.login, repo, downloads[i]);
        let at = choose|at: int| 0 <= at < fetched.len() && fetched[at] == record;
        assert(list_ids(fetched)[at] == id);
        lemma_holds_contains(list_ids(fetched), id);
        lemma_last_index_of(list_ids(fetched), id);
        let k = last_index_of(list_ids(fetched), id);
        assert(list_ids(fetched)[k] == id);
        lemma_fetched_lists(user.login, repo, downloads, k);
        let j = choose|j: int|
            0 <= j < downloads.len() && !is_user_path(downloads[j].path) && fetched[k]
                == installed_list(user.login, repo, #[trigger] downloads[j]);
        assert(list_id_of(user.login, downloads[j].path) == id);
        assert(downloads[j] == downloads[i]);
    }
    assert forall|id: ListIdView|
        !removed.contains(id) && !list_ids(fetched).contains(id) implies #[trigger] after.list(id)
        == store.list(id) by {
        lemma_holds_contains(list_ids(fetched), id);
    }
}

/// Once what a synchronisation writes is in the store, the store is up to
/// date with the remote version, provided that it has a record of the user
/// then: the next synchronisation at the same remote version plans nothing
/// and leaves every record as it is, whatever the remote hands out.
pub proof fn lemma_sync_settles(
    store: StoreView,
    login: Seq<char>,
    repo: RepositoryView,
    downloads: Seq<DownloadView>,
    changed: Seq<ChangedFileView>,
    next_downloads: Seq<DownloadView>,
    next_changed: Seq<ChangedFileView>,
)
    requires
        store.wf(),
        store.user(login) is Some || count_user_documents(downloads) > 0,
    ensures
        ({
            let after = store.apply(
                sync_changes(store.user(login), login, repo, downloads, changed),
            );
            &&& after.wf()
            &&& plan_for(after.user(login), repo) == SyncPlan::UpToDate
            &&& after.apply(
                sync_changes(after.user(login), login, repo, next_downloads, next_changed),
            ) == after
        }),
{
    let local = store.user(login);
    let changes = sync_changes(local, login, repo, downloads, changed);
    let after = store.apply(changes);
    lemma_apply(store, changes);
    lemma_found_has_key(store, login, ListIdView { owner: login, id: login });
    match plan_for(local, repo) {
        SyncPlan::Install => {
            lemma_filter_map_same_len(downloads, user_filter(login, repo), user_content_filter());
            let users = changes.users;
            assert forall|k: int| 0 <= k < users.len() implies (#[trigger] users[k]).login == login
                && users[k].local_version == repo.version by {
                lemma_filter_map_origin(downloads, user_filter(login, repo), k);
            }
            assert(logins(users)[users.len() - 1] == login);
            lemma_holds_contains(logins(users), login);
            lemma_last_index_of(logins(users), login);
            assert(after.user(login) == Some(users[last_index_of(logins(users), login)]));
        },
        SyncPlan::Update => {
            lemma_update_applied(store, local.unwrap(), repo, downloads, changed);
        },
        SyncPlan::UpToDate => {
            assert(after == store);
        },
    }
}

/// Synchronising twice against a remote that has not changed leaves the
/// store after the second run as it was after the first: every record, with
/// its content and its version. Where the first run installs from a tree
/// without a user document, its list documents have to give different ids.
pub proof fn lemma_sync_is_idempotent(
    store: StoreView,
    login: Seq<char>,
    repo: RepositoryView,
    downloads: Seq<DownloadView>,
    changed: Seq<ChangedFileView>,
)
    requires
        store.wf(),
        store.user(login) is Some || count_user_documents(downloads) > 0 || list_ids(
            fetched_lists(login, repo, downloads),
        ).no_duplicates(),
    ensures
        ({
            let once = store.apply(
                sync_changes(store.user(login), login, repo, downloads, changed),
            );
            let twice = once.apply(sync_changes(once.user(login), login, repo, downloads, changed));
            twice == once
        }),
{
    let first = sync_changes(store.user(login), login, repo, downloads, changed);
    let once = store.apply(first);
    if store.user(login) is Some || count_user_documents(downloads) > 0 {
        lemma_sync_settles(store, login, repo, downloads, changed, downloads, changed);
    } else {
        let lists = fetched_lists(login, repo, downloads);
        lemma_filter_map_same_len(downloads, user_filter(login, repo), user_content_filter());
        lemma_apply(store, first);
        assert(first.users =~= Seq::<UserView>::empty());
        assert(once.user(login) == store.user(login));
        assert forall|i: int| 0 <= i < lists.len() implies once.list((#[trigger] lists[i]).id)
            == Some(lists[i]) by {
            let id = lists[i].id;
            assert(list_ids(lists)[i] == id);
            lemma_last_index_of(list_ids(lists), id);
            let k = last_index_of(list_ids(lists), id);
            if k < i {
                assert(list_ids(lists)[i] == id);
            }
            assert(list_ids(lists)[k] == id);
            assert(k == i);
        }
        lemma_put_same_lists(once, lists);
    }
}

} // verus!
