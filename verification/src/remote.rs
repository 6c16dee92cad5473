//! What the remote repository host hands out: repository metadata, the
//! entries of a file tree, the files changed between two commits, and the
//! kind of document that a path names.
use vstd::prelude::*;
use vstd::string::*;
use crate::list_id::{ListId, ListIdView};
use crate::search::{last_index_of, lemma_last_index_of};
use crate::text::{ends_with, file_name, file_stem, has_suffix, names_file, text_eq};

verus! {

/// The name of the repository that holds a user's data.
pub const USER_DATA_REPO_NAME: &'static str = "wishlist-app-data";

/// The topic that marks such a repository.
pub const DATA_REPO_TOPIC: &'static str = "wishlist-app-data";

/// The path of the user document in the repository.
pub const USER_FILE_PATH: &'static str = "user.kdl";

/// The extension of every document in the repository.
pub const DOCUMENT_EXTENSION: &'static str = ".kdl";

/// A repository at one commit.
#[derive(Debug)]
pub struct RepositoryMetadata {
    pub owner: String,
    pub name: String,
    /// The current commit.
    pub version: String,
    /// The tree that lists the files of that commit.
    pub tree_id: String,
}

/// Repository metadata as plain text.
pub struct RepositoryView {
    pub owner: Seq<char>,
    pub name: Seq<char>,
    pub version: Seq<char>,
    pub tree_id: Seq<char>,
}

impl View for RepositoryMetadata {
    type V = RepositoryView;

    open spec fn view(&self) -> RepositoryView {
        RepositoryView {
            owner: self.owner@,
            name: self.name@,
            version: self.version@,
            tree_id: self.tree_id@,
        }
    }
}

impl DeepView for RepositoryMetadata {
    type V = RepositoryView;

    open spec fn deep_view(&self) -> RepositoryView {
        self@
    }
}

impl Clone for RepositoryMetadata {
    fn clone(&self) -> (res: Self)
        ensures
            res@ == self@,
    {
        RepositoryMetadata {
            owner: self.owner.clone(),
            name: self.name.clone(),
            version: self.version.clone(),
            tree_id: self.tree_id.clone(),
        }
    }
}

/// One entry of a file tree.
#[derive(Debug)]
pub struct TreeEntry {
    pub path: String,
    /// The remote identifier of the file.
    pub id: String,
    /// Whether the entry is a directory.
    pub is_tree: bool,
}

/// A tree entry as plain values.
pub struct TreeEntryView {
    pub path: Seq<char>,
    pub id: Seq<char>,
    pub is_tree: bool,
}

impl View for TreeEntry {
    type V = TreeEntryView;

    open spec fn view(&self) -> TreeEntryView {
        TreeEntryView { path: self.path@, id: self.id@, is_tree: self.is_tree }
    }
}

impl DeepView for TreeEntry {
    type V = TreeEntryView;

    open spec fn deep_view(&self) -> TreeEntryView {
        self@
    }
}

/// What happened to a file between two commits.
#[derive(Clone, Copy, Debug, PartialEq, Eq, Structural)]
pub enum ChangedFileStatus {
    Added,
    Modified,
    Renamed,
    Copied,
    Changed,
    Removed,
    Unchanged,
}

impl ChangedFileStatus {
    /// Whether the file's content at the later commit has to be fetched.
    pub open spec fn spec_needs_download(self) -> bool {
        self != ChangedFileStatus::Removed && self != ChangedFileStatus::Unchanged
    }

    /// Whether the file's content at the later commit has to be fetched:
    /// so for every status but `Removed` and `Unchanged`.
    #[verifier::when_used_as_spec(spec_needs_download)]
    pub fn needs_download(self) -> (res: bool)
        ensures
            res == self.spec_needs_download(),
    {
        match self {
            ChangedFileStatus::Added
            | ChangedFileStatus::Modified
            | ChangedFileStatus::Renamed
            | ChangedFileStatus::Copied
            | ChangedFileStatus::Changed => true,
            ChangedFileStatus::Removed | ChangedFileStatus::Unchanged => false,
        }
    }
}

/// A file that differs between two commits.
#[derive(Debug)]
pub struct ChangedFile {
    pub path: String,
    /// The remote identifier of the file at the later commit.
    pub file_id: String,
    pub status: ChangedFileStatus,
}

/// A changed file as plain values.
pub struct ChangedFileView {
    pub path: Seq<char>,
    pub file_id: Seq<char>,
    pub status: ChangedFileStatus,
}

impl View for ChangedFile {
    type V = ChangedFileView;

    open spec fn view(&self) -> ChangedFileView {
        ChangedFileView { path: self.path@, file_id: self.file_id@, status: self.status }
    }
}

impl DeepView for ChangedFile {
    type V = ChangedFileView;

    open spec fn deep_view(&self) -> ChangedFileView {
        self@
    }
}

/// A search for repositories by name among those of one user.
#[derive(Debug)]
pub struct SearchRepositoriesParams {
    /// The user whose repositories are searched; `@me` is the signed-in one.
    pub user: String,
    /// What the repository's name has to hold.
    pub name: String,
    /// How many results are asked for.
    pub page_size: usize,
}

/// A repository search as plain values.
pub struct SearchView {
    pub user: Seq<char>,
    pub name: Seq<char>,
    pub page_size: usize,
}

impl View for SearchRepositoriesParams {
    type V = SearchView;

    open spec fn view(&self) -> SearchView {
        SearchView { user: self.user@, name: self.name@, page_size: self.page_size }
    }
}

/// The text of a repository search, as the host reads it.
pub open spec fn search_text(search: SearchView) -> Seq<char> {
    "user:"@ + search.user + " "@ + search.name + " in:name"@
}

impl SearchRepositoriesParams {
    /// The text of the search, as the host reads it: the user qualifier, the
    /// name, and the qualifier that restricts the match to names.
    pub fn query(&self) -> (res: String)
        ensures
            res@ == search_text(self@),
    {
        "user:".to_owned().concat(self.user.as_str()).concat(" ").concat(self.name.as_str()).concat(
            " in:name",
        )
    }
}

/// A request to create a repository for the signed-in user.
#[derive(Debug)]
pub struct CreateRepository {
    pub name: String,
    pub private: bool,
}

/// A request to create a repository as plain values.
pub struct CreateRepositoryView {
    pub name: Seq<char>,
    pub private: bool,
}

impl View for CreateRepository {
    type V = CreateRepositoryView;

    open spec fn view(&self) -> CreateRepositoryView {
        CreateRepositoryView { name: self.name@, private: self.private }
    }
}

/// A request to set the topics of a repository.
#[derive(Debug)]
pub struct SetTopics {
    pub owner: String,
    pub repository: String,
    pub topics: Vec<String>,
}

/// A request to set topics as plain text.
pub struct SetTopicsView {
    pub owner: Seq<char>,
    pub repository: Seq<char>,
    pub topics: Seq<Seq<char>>,
}

impl View for SetTopics {
    type V = SetTopicsView;

    open spec fn view(&self) -> SetTopicsView {
        SetTopicsView {
            owner: self.owner@,
            repository: self.repository@,
            topics: self.topics.deep_view(),
        }
    }
}

/// A request to create a file in a repository, or to replace the one with
/// the given identifier; it makes a new commit.
#[derive(Debug)]
pub struct FileWrite {
    pub owner: String,
    pub repository: String,
    pub path: String,
    /// The commit message.
    pub message: String,
    pub content: String,
    /// The identifier of the file to replace, if it exists already.
    pub file_id: Option<String>,
}

/// A file write as plain text.
pub struct FileWriteView {
    pub owner: Seq<char>,
    pub repository: Seq<char>,
    pub path: Seq<char>,
    pub message: Seq<char>,
    pub content: Seq<char>,
    pub file_id: Option<Seq<char>>,
}

impl View for FileWrite {
    type V = FileWriteView;

    open spec fn view(&self) -> FileWriteView {
        FileWriteView {
            owner: self.owner@,
            repository: self.repository@,
            path: self.path@,
            message: self.message@,
            content: self.content@,
            file_id: self.file_id.deep_view(),
        }
    }
}

/// The kind of document that a path names.
#[derive(Debug)]
pub enum FileKind {
    /// The user document.
    UserFile,
    /// The document of the list with this id.
    ListFile(ListId),
}

/// A file kind as plain values.
pub enum FileKindView {
    UserFile,
    ListFile(ListIdView),
}

impl View for FileKind {
    type V = FileKindView;

    open spec fn view(&self) -> FileKindView {
        match self {
            FileKind::UserFile => FileKindView::UserFile,
            FileKind::ListFile(id) => FileKindView::ListFile(id@),
        }
    }
}

/// Whether a path is that of the user document: the reserved path itself,
/// not a path that merely ends like it.
pub open spec fn is_user_path(path: Seq<char>) -> bool {
    path == USER_FILE_PATH@
}

/// Whether a path names a document at all.
pub open spec fn is_document_path(path: Seq<char>) -> bool {
    has_suffix(path, DOCUMENT_EXTENSION@)
}

/// The id of the list whose document `owner` keeps at `path`.
pub open spec fn list_id_of(owner: Seq<char>, path: Seq<char>) -> ListIdView {
    ListIdView { owner, id: file_stem(path) }
}

/// The kind of the document that `owner` keeps at `path`.
pub open spec fn file_kind(owner: Seq<char>, path: Seq<char>) -> FileKindView {
    if is_user_path(path) {
        FileKindView::UserFile
    } else {
        FileKindView::ListFile(list_id_of(owner, path))
    }
}

/// A path that names a document names a file: its name ends in the
/// extension of documents.
pub proof fn lemma_document_names_file(path: Seq<char>)
    requires
        is_document_path(path),
    ensures
        names_file(path),
{
    reveal_strlit(".kdl");
    let n = path.len() as int;
    let tail = path.subrange(n - 4, n);
    assert(DOCUMENT_EXTENSION@.len() == 4);
    assert(tail == DOCUMENT_EXTENSION@);
    assert(forall|k: int| 0 <= k < 4 ==> path[n - 4 + k] == tail[k]);
    assert(tail[0] == '.' && tail[1] == 'k' && tail[2] == 'd' && tail[3] == 'l');
    lemma_last_index_of(path, '/');
    let p = last_index_of(path, '/');
    if p >= n - 4 {
        assert(path[p] == tail[p - (n - 4)]);
    }
    let name = file_name(path);
    assert(name.len() >= 4);
}

/// The path of the user document names a file.
pub proof fn lemma_user_path_names_file(path: Seq<char>)
    requires
        is_user_path(path),
    ensures
        names_file(path),
        is_document_path(path),
{
    reveal_strlit("user.kdl");
    reveal_strlit(".kdl");
    assert(path.subrange(path.len() - 4, path.len() as int) =~= DOCUMENT_EXTENSION@);
    lemma_document_names_file(path);
}

/// Whether `path` is that of the user document.
pub fn names_user_file(path: &str) -> (res: bool)
    ensures
        res == is_user_path(path@),
{
    text_eq(path, USER_FILE_PATH)
}

/// Whether `path` names a document.
pub fn names_document(path: &str) -> (res: bool)
    ensures
        res == is_document_path(path@),
{
    ends_with(path, DOCUMENT_EXTENSION)
}

/// The path of the document of the list with the slug `id`.
pub open spec fn list_path(id: Seq<char>) -> Seq<char> {
    id + DOCUMENT_EXTENSION@
}

/// The path of a list's document leads back to the list: it names a file,
/// and the stem of that file is the slug, for every slug that is not empty
/// and holds no `/`.
pub proof fn lemma_list_path_round_trip(owner: Seq<char>, id: Seq<char>)
    requires
        id.len() > 0,
        !id.contains('/'),
    ensures
        names_file(list_path(id)),
        !is_user_path(list_path(id)) ==> file_kind(owner, list_path(id)) == FileKindView::ListFile(
            ListIdView { owner, id },
        ),
        list_id_of(owner, list_path(id)) == (ListIdView { owner, id }),
{
    reveal_strlit(".kdl");
    let path = list_path(id);
    let n = id.len() as int;
    assert(DOCUMENT_EXTENSION@.len() == 4);
    assert(path.len() == n + 4);
    assert(path[n] == '.' && path[n + 1] == 'k' && path[n + 2] == 'd' && path[n + 3] == 'l');
    assert forall|j: int| 0 <= j < path.len() implies path[j] != '/' by {
        if j < n {
            assert(path[j] == id[j]);
            assert(id.contains(id[j]));
        }
    }
    crate::search::lemma_last_index_is(path, '/', -1);
    assert(file_name(path) =~= path);
    crate::search::lemma_last_index_is(path, '.', n);
    assert(path.subrange(0, n) =~= id);
}

/// The path of the document of the list with the slug `id`.
pub fn list_file_path(id: &str) -> (res: String)
    ensures
        res@ == list_path(id@),
{
    id.to_owned().concat(DOCUMENT_EXTENSION)
}

impl FileKind {
    /// Tells from a path which document it names: the user document where the
    /// path is the reserved one, else the list whose slug is the file's stem.
    /// The path has to name a file.
    pub fn from_path(owner: &str, path: &str) -> (res: FileKind)
        requires
            names_file(path@),
        ensures
            res@ == file_kind(owner@, path@),
    {
        if names_user_file(path) {
            FileKind::UserFile
        } else {
            FileKind::ListFile(ListId::from_path(owner, path))
        }
    }
}

} // verus!
