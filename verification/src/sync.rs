//! The reconciliation engine: a state machine that is told what the remote
//! host and the local store answered, and says what to ask next. It ends by
//! handing out the change set that brings the local store to the remote
//! version.
use vstd::prelude::*;
use vstd::string::*;
use crate::reconcile::{
    all_changes_are_named,
    changes_are_named,
    documents,
    downloadable,
    downloads_are_named,
    downloads_for,
    files_are_named,
    install,
    install_changes,
    lemma_documents_are_named,
    lemma_downloadable_are_named,
    plan,
    plan_for,
    scan_tree,
    update,
    update_changes,
    Download,
    DownloadView,
    RemoteFile,
    RemoteFileView,
    SyncPlan,
};
use crate::records::{User, UserView};
use crate::bootstrap::{
    data_repository_search,
    seed_write,
    topics_of,
    GenerateDataRepo,
    GenerateDataRepoResponse,
    GenerateDataRepoResponseView,
    QueryViewer,
    VIEWER,
};
use crate::remote::{
    ChangedFile,
    ChangedFileView,
    CreateRepository,
    CreateRepositoryView,
    FileWrite,
    FileWriteView,
    RepositoryMetadata,
    RepositoryView,
    SearchRepositoriesParams,
    SearchView,
    SetTopics,
    SetTopicsView,
    TreeEntry,
    TreeEntryView,
    USER_DATA_REPO_NAME,
};
use crate::status::{advanced, fresh_stage, Progress, StageView, Status};
use crate::store::{ChangeSet, ChangeSetView, StoreError};

verus! {

/// The title of the stage that identifies the signed-in user.
pub const STAGE_AUTHENTICATION: &'static str = "Checking authentiation";

/// The title of the stage that looks for the user's repository.
pub const STAGE_FIND_OWNERS: &'static str = "Finding module owners";

/// The title of the stage that creates the user's repository.
pub const STAGE_GENERATE: &'static str = "Generating user data storage";

/// The title of the stage that lists the remote tree.
pub const STAGE_SCAN: &'static str = "Scanning Storage";

/// The title of the stage that fetches every document.
pub const STAGE_DOWNLOAD: &'static str = "Downloading Storage";

/// The title of the stage that fetches what changed.
pub const STAGE_UPDATE: &'static str = "Downloading Updates";

/// The title of the stage that writes into the local store.
pub const STAGE_INSTALL: &'static str = "Installing Downloaded Files";

/// What the engine says of a repository that cannot be found after it was
/// created.
pub const EMPTY_METADATA: &'static str = "Empty repository metadata";

/// What the engine says of a changed file whose path names no file.
pub const UNNAMED_FILE: &'static str = "Changed file without a name";

/// What the engine says of an answer that it did not ask for.
pub const UNEXPECTED_EVENT: &'static str = "Unexpected event";

/// What the engine can be asked to do.
#[derive(Clone, Copy, Debug, PartialEq, Eq, Structural)]
pub enum Request {
    /// Bring the local store to the remote version.
    UpdateLists,
}

/// Where a synchronisation stands.
#[derive(Clone, Copy, Debug, PartialEq, Eq, Structural)]
pub enum Phase {
    /// Nothing has been asked yet.
    Idle,
    /// Waits for the signed-in user and the user's repository.
    AwaitViewer,
    /// Waits for the repository to be created.
    AwaitRepository,
    /// Waits for the topic to be set.
    AwaitTopics,
    /// Waits for the seed document to be written.
    AwaitSeed,
    /// Waits for the metadata of the repository just created.
    AwaitMetadata,
    /// Waits for the local user record.
    AwaitUser,
    /// Waits for the entries of the remote tree.
    AwaitTree,
    /// Waits for the files changed since the local version.
    AwaitChanges,
    /// Waits for the content of a file.
    AwaitContent,
    /// Waits for the local store to take the change set.
    AwaitCommit,
    /// The synchronisation is through.
    Done,
    /// The synchronisation was given up.
    Failed,
}

/// Why a synchronisation was given up.
#[derive(Debug)]
pub enum SyncError {
    /// The local store failed.
    LocalStore(StoreError),
    /// The remote host failed; the text is its message.
    RemoteHost(String),
    /// The remote host answered what the engine cannot use.
    InvalidResponse(String),
}

/// A synchronisation error as plain values.
pub enum SyncErrorView {
    LocalStore(StoreError),
    RemoteHost(Seq<char>),
    InvalidResponse(Seq<char>),
}

impl View for SyncError {
    type V = SyncErrorView;

    open spec fn view(&self) -> SyncErrorView {
        match self {
            SyncError::LocalStore(e) => SyncErrorView::LocalStore(*e),
            SyncError::RemoteHost(m) => SyncErrorView::RemoteHost(m@),
            SyncError::InvalidResponse(m) => SyncErrorView::InvalidResponse(m@),
        }
    }
}

/// What the engine is told.
#[derive(Debug)]
pub enum Event {
    /// A synchronisation was asked for.
    Start,
    /// The signed-in user, and what the search for the user's data
    /// repository returned.
    Viewer { login: String, repositories: Vec<RepositoryMetadata> },
    /// The repository was created for this owner.
    RepositoryCreated { owner: String },
    /// The topic was set.
    TopicsSet,
    /// A file was written and the repository stands at a new version.
    FileWritten { file_id: String, version: String },
    /// What the search for the repository just created returned.
    RepositoryFound(Vec<RepositoryMetadata>),
    /// The local record of the user, if there is one.
    UserLoaded(Option<User>),
    /// The entries of the remote tree.
    Tree(Vec<TreeEntry>),
    /// The files changed between the two versions.
    Changes(Vec<ChangedFile>),
    /// The content of the file that was asked for.
    FileContent(String),
    /// The local store took the change set.
    Committed,
    /// The remote host failed.
    RemoteFailed(String),
    /// The local store failed.
    StoreFailed(StoreError),
}

/// An event as plain values.
pub enum EventView {
    Start,
    Viewer { login: Seq<char>, repositories: Seq<RepositoryView> },
    RepositoryCreated { owner: Seq<char> },
    TopicsSet,
    FileWritten { file_id: Seq<char>, version: Seq<char> },
    RepositoryFound(Seq<RepositoryView>),
    UserLoaded(Option<UserView>),
    Tree(Seq<TreeEntryView>),
    Changes(Seq<ChangedFileView>),
    FileContent(Seq<char>),
    Committed,
    RemoteFailed(Seq<char>),
    StoreFailed(StoreError),
}

impl View for Event {
    type V = EventView;

    open spec fn view(&self) -> EventView {
        match self {
            Event::Start => EventView::Start,
            Event::Viewer { login, repositories } => EventView::Viewer {
                login: login@,
                repositories: repositories.deep_view(),
            },
            Event::RepositoryCreated { owner } => EventView::RepositoryCreated { owner: owner@ },
            Event::TopicsSet => EventView::TopicsSet,
            Event::FileWritten { file_id, version } => EventView::FileWritten {
                file_id: file_id@,
                version: version@,
            },
            Event::RepositoryFound(found) => EventView::RepositoryFound(found.deep_view()),
            Event::UserLoaded(user) => EventView::UserLoaded(user.deep_view()),
            Event::Tree(entries) => EventView::Tree(entries.deep_view()),
            Event::Changes(changed) => EventView::Changes(changed.deep_view()),
            Event::FileContent(content) => EventView::FileContent(content@),
            Event::Committed => EventView::Committed,
            Event::RemoteFailed(message) => EventView::RemoteFailed(message@),
            Event::StoreFailed(error) => EventView::StoreFailed(*error),
        }
    }
}

/// What the engine asks for.
#[derive(Debug)]
pub enum Action {
    /// Identify the signed-in user and search that user's repositories.
    QueryViewer(SearchRepositoriesParams),
    /// Create a repository for the signed-in user.
    CreateRepository(CreateRepository),
    /// Set the topics of a repository.
    SetTopics(SetTopics),
    /// Write a file.
    WriteFile(FileWrite),
    /// Search for the repository just created.
    FindRepository(SearchRepositoriesParams),
    /// Read the local record of a user.
    LoadUser { login: String },
    /// List the top level of a tree.
    GetTree { owner: String, repository: String, tree_id: String },
    /// List the files changed between two versions.
    Compare { owner: String, repository: String, from: String, to: String },
    /// Fetch the content of a file at a version.
    GetFileContent { owner: String, repository: String, path: String, version: String },
    /// Write the change set into the local store, as one transaction.
    Commit(ChangeSet),
    /// Nothing is left to do.
    Done,
    /// The synchronisation is given up.
    Failed(SyncError),
}

/// An action as plain values.
pub enum ActionView {
    QueryViewer(SearchView),
    CreateRepository(CreateRepositoryView),
    SetTopics(SetTopicsView),
    WriteFile(FileWriteView),
    FindRepository(SearchView),
    LoadUser { login: Seq<char> },
    GetTree { owner: Seq<char>, repository: Seq<char>, tree_id: Seq<char> },
    Compare { owner: Seq<char>, repository: Seq<char>, from: Seq<char>, to: Seq<char> },
    GetFileContent { owner: Seq<char>, repository: Seq<char>, path: Seq<char>, version: Seq<char> },
    Commit(ChangeSetView),
    Done,
    Failed(SyncErrorView),
}

impl View for Action {
    type V = ActionView;

    open spec fn view(&self) -> ActionView {
        match self {
            Action::QueryViewer(search) => ActionView::QueryViewer(search@),
            Action::CreateRepository(request) => ActionView::CreateRepository(request@),
            Action::SetTopics(request) => ActionView::SetTopics(request@),
            Action::WriteFile(write) => ActionView::WriteFile(write@),
            Action::FindRepository(search) => ActionView::FindRepository(search@),
            Action::LoadUser { login } => ActionView::LoadUser { login: login@ },
            Action::GetTree { owner, repository, tree_id } => ActionView::GetTree {
                owner: owner@,
                repository: repository@,
                tree_id: tree_id@,
            },
            Action::Compare { owner, repository, from, to } => ActionView::Compare {
                owner: owner@,
                repository: repository@,
                from: from@,
                to: to@,
            },
            Action::GetFileContent { owner, repository, path, version } => {
                ActionView::GetFileContent {
                    owner: owner@,
                    repository: repository@,
                    path: path@,
                    version: version@,
                }
            },
            Action::Commit(changes) => ActionView::Commit(changes@),
            Action::Done => ActionView::Done,
            Action::Failed(error) => ActionView::Failed(error@),
        }
    }
}

/// The state of a synchronisation as plain values.
pub struct SyncView {
    pub phase: Phase,
    /// What this run does, once the local user record is known.
    pub plan: SyncPlan,
    /// The user document that a new repository is seeded with.
    pub seed: Seq<char>,
    /// The signed-in user.
    pub login: Seq<char>,
    /// The repository, as far as it is known.
    pub repo: RepositoryView,
    /// What creating the repository came to, where it had to be created.
    pub created: Option<GenerateDataRepoResponseView>,
    /// The local user record of an update.
    pub user: Option<UserView>,
    /// The files to fetch.
    pub files: Seq<RemoteFileView>,
    /// The files changed since the local version.
    pub changed: Seq<ChangedFileView>,
    /// The files fetched so far.
    pub downloads: Seq<DownloadView>,
}

/// The stages that are open in each phase: what the progress display shows
/// is a function of where the synchronisation stands.
pub open spec fn status_of(s: SyncView) -> Seq<StageView> {
    match s.phase {
        Phase::AwaitViewer => seq![
            fresh_stage(STAGE_AUTHENTICATION@, None),
            fresh_stage(STAGE_FIND_OWNERS@, None),
        ],
        Phase::AwaitRepository | Phase::AwaitTopics | Phase::AwaitSeed | Phase::AwaitMetadata => seq![
            fresh_stage(STAGE_GENERATE@, None),
        ],
        Phase::AwaitTree => seq![fresh_stage(STAGE_SCAN@, None)],
        Phase::AwaitChanges => seq![fresh_stage(STAGE_UPDATE@, None)],
        Phase::AwaitContent => if s.plan == SyncPlan::Install {
            seq![
                StageView {
                    title: STAGE_DOWNLOAD@,
                    progress: Some(
                        Progress {
                            max: s.files.len() as usize,
                            progress: s.downloads.len() as usize,
                        },
                    ),
                },
            ]
        } else {
            seq![fresh_stage(STAGE_UPDATE@, None)]
        },
        Phase::AwaitCommit => seq![fresh_stage(STAGE_INSTALL@, None)],
        Phase::Idle | Phase::AwaitUser | Phase::Done | Phase::Failed => Seq::empty(),
    }
}

/// The download made of a file and its content.
pub open spec fn download_of_file(file: RemoteFileView, content: Seq<char>) -> DownloadView {
    DownloadView { path: file.path, file_id: file.file_id, content }
}

/// The state and the action of a synchronisation that is given up.
pub open spec fn give_up(s: SyncView, error: SyncErrorView) -> (SyncView, ActionView) {
    (SyncView { phase: Phase::Failed, ..s }, ActionView::Failed(error))
}

/// The change set of a run whose files are all fetched.
pub open spec fn changes_of(s: SyncView) -> ChangeSetView {
    if s.plan == SyncPlan::Install {
        install_changes(s.login, s.repo, s.downloads)
    } else {
        update_changes(s.user.unwrap(), s.repo, s.downloads, s.changed)
    }
}

/// The next step once a file may be left to fetch: ask for the next one, or
/// hand out the change set, or be done where nothing is to be written.
pub open spec fn fetch_or_finish(s: SyncView) -> (SyncView, ActionView) {
    if s.downloads.len() < s.files.len() {
        (
            SyncView { phase: Phase::AwaitContent, ..s },
            ActionView::GetFileContent {
                owner: s.repo.owner,
                repository: s.repo.name,
                path: s.files[s.downloads.len() as int].path,
                version: s.repo.version,
            },
        )
    } else if changes_of(s).is_empty() {
        (SyncView { phase: Phase::Done, ..s }, ActionView::Done)
    } else {
        (SyncView { phase: Phase::AwaitCommit, ..s }, ActionView::Commit(changes_of(s)))
    }
}

/// The next step once the repository is known: read the local user record.
pub open spec fn load_user(s: SyncView) -> (SyncView, ActionView) {
    (SyncView { phase: Phase::AwaitUser, ..s }, ActionView::LoadUser { login: s.login })
}

/// Whether the engine waits for an answer.
pub open spec fn is_waiting(phase: Phase) -> bool {
    phase != Phase::Idle && phase != Phase::Done && phase != Phase::Failed
}

/// The state that follows an event, and the action that the engine asks for.
pub open spec fn transition(s: SyncView, e: EventView) -> (SyncView, ActionView) {
    match (s.phase, e) {
        (Phase::Idle, EventView::Start)
        | (Phase::Done, EventView::Start)
        | (Phase::Failed, EventView::Start) => (
            SyncView {
                phase: Phase::AwaitViewer,
                created: None,
                user: None,
                files: Seq::empty(),
                changed: Seq::empty(),
                downloads: Seq::empty(),
                ..s
            },
            ActionView::QueryViewer(data_repository_search(VIEWER@)),
        ),
        (Phase::AwaitViewer, EventView::Viewer { login, repositories }) => if repositories.len()
            > 0 {
            load_user(SyncView { login, repo: repositories.last(), ..s })
        } else {
            (
                SyncView { phase: Phase::AwaitRepository, login, ..s },
                ActionView::CreateRepository(
                    CreateRepositoryView { name: USER_DATA_REPO_NAME@, private: false },
                ),
            )
        },
        (Phase::AwaitRepository, EventView::RepositoryCreated { owner }) => (
            SyncView {
                phase: Phase::AwaitTopics,
                repo: RepositoryView {
                    owner,
                    name: USER_DATA_REPO_NAME@,
                    version: Seq::empty(),
                    tree_id: Seq::empty(),
                },
                ..s
            },
            ActionView::SetTopics(topics_of(owner)),
        ),
        (Phase::AwaitTopics, EventView::TopicsSet) => (
            SyncView { phase: Phase::AwaitSeed, ..s },
            ActionView::WriteFile(seed_write(s.repo.owner, s.seed)),
        ),
        (Phase::AwaitSeed, EventView::FileWritten { file_id, version }) => (
            SyncView {
                phase: Phase::AwaitMetadata,
                created: Some(
                    GenerateDataRepoResponseView {
                        owner: s.repo.owner,
                        name: USER_DATA_REPO_NAME@,
                        user_file_id: file_id,
                        user_content: s.seed,
                        remote_version: version,
                    },
                ),
                ..s
            },
            ActionView::FindRepository(
                SearchView { user: s.repo.owner, name: USER_DATA_REPO_NAME@, page_size: 1 },
            ),
        ),
        (Phase::AwaitMetadata, EventView::RepositoryFound(found)) => match s.created.unwrap().metadata(
            found,
        ) {
            Some(repo) => load_user(SyncView { repo, ..s }),
            None => give_up(s, SyncErrorView::InvalidResponse(EMPTY_METADATA@)),
        },
        (Phase::AwaitUser, EventView::UserLoaded(local)) => match plan_for(local, s.repo) {
            SyncPlan::Install => (
                SyncView { phase: Phase::AwaitTree, plan: SyncPlan::Install, ..s },
                ActionView::GetTree {
                    owner: s.repo.owner,
                    repository: s.repo.name,
                    tree_id: s.repo.tree_id,
                },
            ),
            SyncPlan::Update => (
                SyncView { phase: Phase::AwaitChanges, plan: SyncPlan::Update, user: local, ..s },
                ActionView::Compare {
                    owner: s.repo.owner,
                    repository: s.repo.name,
                    from: local.unwrap().local_version,
                    to: s.repo.version,
                },
            ),
            SyncPlan::UpToDate => (
                SyncView { phase: Phase::Done, plan: SyncPlan::UpToDate, ..s },
                ActionView::Done,
            ),
        },
        (Phase::AwaitTree, EventView::Tree(entries)) => fetch_or_finish(
            SyncView { files: documents(entries), downloads: Seq::empty(), ..s },
        ),
        (Phase::AwaitChanges, EventView::Changes(changed)) => if changes_are_named(changed) {
            fetch_or_finish(
                SyncView { files: downloadable(changed), changed, downloads: Seq::empty(), ..s },
            )
        } else {
            give_up(s, SyncErrorView::InvalidResponse(UNNAMED_FILE@))
        },
        (Phase::AwaitContent, EventView::FileContent(content)) => fetch_or_finish(
            SyncView {
                downloads: s.downloads.push(
                    download_of_file(s.files[s.downloads.len() as int], content),
                ),
                ..s
            },
        ),
        (Phase::AwaitCommit, EventView::Committed) => (
            SyncView { phase: Phase::Done, ..s },
            ActionView::Done,
        ),
        (_, EventView::RemoteFailed(message)) => if is_waiting(s.phase) {
            give_up(s, SyncErrorView::RemoteHost(message))
        } else {
            give_up(s, SyncErrorView::InvalidResponse(UNEXPECTED_EVENT@))
        },
        (_, EventView::StoreFailed(error)) => if is_waiting(s.phase) {
            give_up(s, SyncErrorView::LocalStore(error))
        } else {
            give_up(s, SyncErrorView::InvalidResponse(UNEXPECTED_EVENT@))
        },
        _ => give_up(s, SyncErrorView::InvalidResponse(UNEXPECTED_EVENT@)),
    }
}

/// A synchronisation of the local store with the remote repository.
#[derive(Debug)]
pub struct Reconciler {
    phase: Phase,
    plan: SyncPlan,
    generate: GenerateDataRepo,
    login: String,
    repo: RepositoryMetadata,
    created: Option<GenerateDataRepoResponse>,
    user: Option<User>,
    files: Vec<RemoteFile>,
    changed: Vec<ChangedFile>,
    downloads: Vec<Download>,
    status: Status,
}

impl View for Reconciler {
    type V = SyncView;

    closed spec fn view(&self) -> SyncView {
        SyncView {
            phase: self.phase,
            plan: self.plan,
            seed: self.generate.seed@,
            login: self.login@,
            repo: self.repo@,
            created: match self.created {
                Some(response) => Some(response@),
                None => None,
            },
            user: self.user.deep_view(),
            files: self.files.deep_view(),
            changed: self.changed.deep_view(),
            downloads: self.downloads.deep_view(),
        }
    }
}

impl SyncView {
    /// The files to fetch and the files fetched have paths that name files,
    /// and so have the changed files of an update.
    pub open spec fn paths_are_named(self) -> bool {
        &&& files_are_named(self.files)
        &&& downloads_are_named(self.downloads)
        &&& self.plan != SyncPlan::Install ==> changes_are_named(self.changed)
    }

    /// What holds of every state that the engine reaches: a tree is asked
    /// for by an install only and changes by an update only, an update has
    /// its user record, and while the engine waits for a file, one is left
    /// to fetch and every path in hand names a file.
    pub open spec fn wf(self) -> bool {
        &&& self.phase == Phase::AwaitContent ==> self.paths_are_named()
        &&& self.phase == Phase::AwaitMetadata ==> self.created is Some
        &&& self.phase == Phase::AwaitTree ==> self.plan == SyncPlan::Install
        &&& self.phase == Phase::AwaitChanges ==> self.plan != SyncPlan::Install
        &&& self.phase == Phase::AwaitContent ==> self.downloads.len() < self.files.len()
        &&& (self.phase == Phase::AwaitContent || self.phase == Phase::AwaitChanges)
            && self.plan != SyncPlan::Install ==> self.user is Some
    }
}

impl Reconciler {
    /// The stages that the engine has open.
    pub closed spec fn stages(&self) -> Seq<StageView> {
        self.status@
    }

    /// The state is one that the engine reaches, and the progress display
    /// shows the stages of its phase.
    pub open spec fn wf(&self) -> bool {
        self@.wf() && self.stages() == status_of(self@)
    }

    /// An engine that has not been asked anything. The seed is the user
    /// document that a repository is given when it has to be created.
    pub fn new(seed: String) -> (res: Reconciler)
        ensures
            res.wf(),
            res@ == (SyncView {
                phase: Phase::Idle,
                plan: SyncPlan::UpToDate,
                seed: seed@,
                login: Seq::empty(),
                repo: RepositoryView {
                    owner: Seq::empty(),
                    name: Seq::empty(),
                    version: Seq::empty(),
                    tree_id: Seq::empty(),
                },
                created: None,
                user: None,
                files: Seq::empty(),
                changed: Seq::empty(),
                downloads: Seq::empty(),
            }),
    {
        let res = Reconciler {
            phase: Phase::Idle,
            plan: SyncPlan::UpToDate,
            generate: GenerateDataRepo { seed },
            login: String::new(),
            repo: RepositoryMetadata {
                owner: String::new(),
                name: String::new(),
                version: String::new(),
                tree_id: String::new(),
            },
            created: None,
            user: None,
            files: Vec::new(),
            changed: Vec::new(),
            downloads: Vec::new(),
            status: Status::new(),
        };
        assert(res@.files =~= Seq::empty());
        assert(res@.changed =~= Seq::empty());
        assert(res@.downloads =~= Seq::empty());
        res
    }

    /// Where the synchronisation stands.
    pub fn phase(&self) -> (res: Phase)
        ensures
            res == self@.phase,
    {
        self.phase
    }

    /// The progress display.
    pub fn status(&self) -> (res: &Status)
        ensures
            res@ == self.stages(),
    {
        &self.status
    }

    /// Closes every open stage.
    fn close_stages(&mut self)
        ensures
            final(self)@ == old(self)@,
            final(self).stages() == Seq::<StageView>::empty(),
    {
        while self.status.is_active()
            invariant
                self@ == old(self)@,
            decreases self.status@.len(),
        {
            self.status.pop_stage();
        }
        assert(self.status@ =~= Seq::<StageView>::empty());
    }

    /// Gives the synchronisation up.
    fn fail(&mut self, error: SyncError) -> (action: Action)
        ensures
            final(self).wf(),
            (final(self)@, action@) == give_up(old(self)@, error@),
    {
        self.close_stages();
        self.phase = Phase::Failed;
        Action::Failed(error)
    }

    /// Gives the synchronisation up over an answer that was not asked for.
    fn unexpected(&mut self) -> (action: Action)
        ensures
            final(self).wf(),
            (final(self)@, action@) == give_up(
                old(self)@,
                SyncErrorView::InvalidResponse(UNEXPECTED_EVENT@),
            ),
    {
        self.fail(SyncError::InvalidResponse(UNEXPECTED_EVENT.to_owned()))
    }

    /// Asks for the local user record.
    fn ask_user(&mut self) -> (action: Action)
        requires
            old(self).stages() == Seq::<StageView>::empty(),
        ensures
            final(self).wf(),
            (final(self)@, action@) == load_user(old(self)@),
    {
        self.phase = Phase::AwaitUser;
        Action::LoadUser { login: self.login.clone() }
    }

    /// Asks for the next file, or hands out the change set. The stage of the
    /// downloads is open, and closed here once no file is left.
    fn proceed(&mut self) -> (action: Action)
        requires
            old(self)@.plan != SyncPlan::Install ==> old(self)@.user is Some,
            old(self)@.paths_are_named(),
            old(self)@.downloads.len() <= old(self)@.files.len(),
            old(self).stages() == status_of(
                SyncView { phase: Phase::AwaitContent, ..old(self)@ },
            ),
        ensures
            final(self).wf(),
            (final(self)@, action@) == fetch_or_finish(old(self)@),
    {
        if self.downloads.len() < self.files.len() {
            self.phase = Phase::AwaitContent;
            Action::GetFileContent {
                owner: self.repo.owner.clone(),
                repository: self.repo.name.clone(),
                path: self.files[self.downloads.len()].path.clone(),
                version: self.repo.version.clone(),
            }
        } else {
            self.status.pop_stage();
            assert(self.status@ =~= Seq::<StageView>::empty());
            let changes = match &self.user {
                Some(user) => if self.plan == SyncPlan::Install {
                    install(self.login.as_str(), &self.repo, &self.downloads)
                } else {
                    update(user, &self.repo, &self.downloads, &self.changed)
                },
                None => install(self.login.as_str(), &self.repo, &self.downloads),
            };
            if changes.is_empty() {
                self.phase = Phase::Done;
                Action::Done
            } else {
                self.status.push_stage(STAGE_INSTALL, None);
                self.phase = Phase::AwaitCommit;
                assert(self.status@ =~= status_of(self@));
                Action::Commit(changes)
            }
        }
    }

    /// A synchronisation was asked for.
    fn on_start(&mut self) -> (action: Action)
        requires
            old(self).wf(),
        ensures
            final(self).wf(),
            (final(self)@, action@) == transition(old(self)@, EventView::Start),
    {
        match self.phase {
            Phase::Idle | Phase::Done | Phase::Failed => {
                self.created = None;
                self.user = None;
                self.files = Vec::new();
                self.changed = Vec::new();
                self.downloads = Vec::new();
                self.status.push_stage(STAGE_AUTHENTICATION, None);
                self.status.push_stage(STAGE_FIND_OWNERS, None);
                self.phase = Phase::AwaitViewer;
                assert(self@.files =~= Seq::empty());
                assert(self@.changed =~= Seq::empty());
                assert(self@.downloads =~= Seq::empty());
                assert(self.status@ =~= status_of(self@));
                Action::QueryViewer(QueryViewer::search())
            },
            _ => self.unexpected(),
        }
    }

    /// The signed-in user is known, and the repository if there is one.
    fn on_viewer(&mut self, login: String, repositories: Vec<RepositoryMetadata>) -> (action:
        Action)
        requires
            old(self).wf(),
        ensures
            final(self).wf(),
            (final(self)@, action@) == transition(
                old(self)@,
                EventView::Viewer { login: login@, repositories: repositories.deep_view() },
            ),
    {
        match self.phase {
            Phase::AwaitViewer => {
                self.status.pop_stage();
                self.status.pop_stage();
                assert(self.status@ =~= Seq::<StageView>::empty());
                let (login, repository) = QueryViewer::resolve(login, repositories);
                self.login = login;
                match repository {
                    Some(repo) => {
                        self.repo = repo;
                        self.ask_user()
                    },
                    None => {
                        self.status.push_stage(STAGE_GENERATE, None);
                        self.phase = Phase::AwaitRepository;
                        assert(self.status@ =~= status_of(self@));
                        Action::CreateRepository(self.generate.create_repository())
                    },
                }
            },
            _ => self.unexpected(),
        }
    }

    /// The repository was created.
    fn on_repository_created(&mut self, owner: String) -> (action: Action)
        requires
            old(self).wf(),
        ensures
            final(self).wf(),
            (final(self)@, action@) == transition(
                old(self)@,
                EventView::RepositoryCreated { owner: owner@ },
            ),
    {
        match self.phase {
            Phase::AwaitRepository => {
                let request = self.generate.set_topics(owner.as_str());
                self.repo = RepositoryMetadata {
                    owner,
                    name: USER_DATA_REPO_NAME.to_owned(),
                    version: String::new(),
                    tree_id: String::new(),
                };
                self.phase = Phase::AwaitTopics;
                Action::SetTopics(request)
            },
            _ => self.unexpected(),
        }
    }

    /// The topic was set.
    fn on_topics_set(&mut self) -> (action: Action)
        requires
            old(self).wf(),
        ensures
            final(self).wf(),
            (final(self)@, action@) == transition(old(self)@, EventView::TopicsSet),
    {
        match self.phase {
            Phase::AwaitTopics => {
                self.phase = Phase::AwaitSeed;
                Action::WriteFile(self.generate.write_seed(self.repo.owner.as_str()))
            },
            _ => self.unexpected(),
        }
    }

    /// A file was written.
    fn on_file_written(&mut self, file_id: String, version: String) -> (action: Action)
        requires
            old(self).wf(),
        ensures
            final(self).wf(),
            (final(self)@, action@) == transition(
                old(self)@,
                EventView::FileWritten { file_id: file_id@, version: version@ },
            ),
    {
        match self.phase {
            Phase::AwaitSeed => {
                let response = self.generate.response(self.repo.owner.clone(), file_id, version);
                let search = response.search();
                self.created = Some(response);
                self.phase = Phase::AwaitMetadata;
                Action::FindRepository(search)
            },
            _ => self.unexpected(),
        }
    }

    /// The search for the new repository has ended.
    fn on_repository_found(&mut self, found: Vec<RepositoryMetadata>) -> (action: Action)
        requires
            old(self).wf(),
        ensures
            final(self).wf(),
            (final(self)@, action@) == transition(
                old(self)@,
                EventView::RepositoryFound(found.deep_view()),
            ),
    {
        match self.phase {
            Phase::AwaitMetadata => {
                let metadata = match &self.created {
                    Some(response) => response.metadata(&found),
                    None => None,
                };
                match metadata {
                    Some(repo) => {
                        self.status.pop_stage();
                        assert(self.status@ =~= Seq::<StageView>::empty());
                        self.repo = repo;
                        self.ask_user()
                    },
                    None => self.fail(SyncError::InvalidResponse(EMPTY_METADATA.to_owned())),
                }
            },
            _ => self.unexpected(),
        }
    }

    /// The local user record was read.
    fn on_user_loaded(&mut self, local: Option<User>) -> (action: Action)
        requires
            old(self).wf(),
        ensures
            final(self).wf(),
            (final(self)@, action@) == transition(
                old(self)@,
                EventView::UserLoaded(local.deep_view()),
            ),
    {
        match self.phase {
            Phase::AwaitUser => match plan(&local, &self.repo) {
                SyncPlan::Install => {
                    self.status.push_stage(STAGE_SCAN, None);
                    self.plan = SyncPlan::Install;
                    self.phase = Phase::AwaitTree;
                    assert(self.status@ =~= status_of(self@));
                    Action::GetTree {
                        owner: self.repo.owner.clone(),
                        repository: self.repo.name.clone(),
                        tree_id: self.repo.tree_id.clone(),
                    }
                },
                SyncPlan::Update => {
                    let from = match &local {
                        Some(user) => user.local_version.clone(),
                        None => String::new(),
                    };
                    self.status.push_stage(STAGE_UPDATE, None);
                    self.plan = SyncPlan::Update;
                    self.user = local;
                    self.phase = Phase::AwaitChanges;
                    assert(self.status@ =~= status_of(self@));
                    Action::Compare {
                        owner: self.repo.owner.clone(),
                        repository: self.repo.name.clone(),
                        from,
                        to: self.repo.version.clone(),
                    }
                },
                SyncPlan::UpToDate => {
                    self.plan = SyncPlan::UpToDate;
                    self.phase = Phase::Done;
                    Action::Done
                },
            },
            _ => self.unexpected(),
        }
    }

    /// The remote tree was listed.
    fn on_tree(&mut self, entries: Vec<TreeEntry>) -> (action: Action)
        requires
            old(self).wf(),
        ensures
            final(self).wf(),
            (final(self)@, action@) == transition(old(self)@, EventView::Tree(entries.deep_view())),
    {
        match self.phase {
            Phase::AwaitTree => {
                self.files = scan_tree(&entries);
                self.downloads = Vec::new();
                assert(self@.downloads =~= Seq::empty());
                proof {
                    lemma_documents_are_named(entries.deep_view());
                }
                self.status.pop_stage();
                self.status.push_stage(STAGE_DOWNLOAD, Some(self.files.len()));
                assert(self.status@ =~= status_of(
                    SyncView { phase: Phase::AwaitContent, ..self@ },
                ));
                self.proceed()
            },
            _ => self.unexpected(),
        }
    }

    /// The changed files were listed.
    fn on_changes(&mut self, changed: Vec<ChangedFile>) -> (action: Action)
        requires
            old(self).wf(),
        ensures
            final(self).wf(),
            (final(self)@, action@) == transition(
                old(self)@,
                EventView::Changes(changed.deep_view()),
            ),
    {
        match self.phase {
            Phase::AwaitChanges => {
                if !all_changes_are_named(&changed) {
                    return self.fail(SyncError::InvalidResponse(UNNAMED_FILE.to_owned()));
                }
                proof {
                    lemma_downloadable_are_named(changed.deep_view());
                }
                self.files = downloads_for(&changed);
                self.changed = changed;
                self.downloads = Vec::new();
                assert(self@.downloads =~= Seq::empty());
                self.proceed()
            },
            _ => self.unexpected(),
        }
    }

    /// The content of the file asked for has come.
    fn on_content(&mut self, content: String) -> (action: Action)
        requires
            old(self).wf(),
        ensures
            final(self).wf(),
            (final(self)@, action@) == transition(old(self)@, EventView::FileContent(content@)),
    {
        match self.phase {
            Phase::AwaitContent => {
                let file = &self.files[self.downloads.len()];
                let download = Download {
                    path: file.path.clone(),
                    file_id: file.file_id.clone(),
                    content,
                };
                self.downloads.push(download);
                self.status.increment_progress();
                proof {
                    let before = status_of(old(self)@);
                    assert(before.len() == 1);
                    assert(self.status@ == before.update(0, advanced(before[0])));
                    assert(self@.downloads =~= old(self)@.downloads.push(
                        download_of_file(
                            old(self)@.files[old(self)@.downloads.len() as int],
                            content@,
                        ),
                    ));
                    let after = status_of(SyncView { phase: Phase::AwaitContent, ..self@ });
                    assert(self@.downloads.len() == self.downloads.len());
                    assert(old(self)@.downloads.len() == old(self).downloads.len());
                    assert(self@.files.len() == self.files.len());
                    assert(advanced(before[0]) == after[0]);
                    assert(self.status@ =~= after);
                }
                self.proceed()
            },
            _ => self.unexpected(),
        }
    }

    /// The local store took the change set.
    fn on_committed(&mut self) -> (action: Action)
        requires
            old(self).wf(),
        ensures
            final(self).wf(),
            (final(self)@, action@) == transition(old(self)@, EventView::Committed),
    {
        match self.phase {
            Phase::AwaitCommit => {
                self.status.pop_stage();
                assert(self.status@ =~= Seq::<StageView>::empty());
                self.phase = Phase::Done;
                Action::Done
            },
            _ => self.unexpected(),
        }
    }

    /// The remote host or the local store failed.
    fn on_failure(&mut self, error: SyncError) -> (action: Action)
        requires
            old(self).wf(),
            !(error is InvalidResponse),
        ensures
            final(self).wf(),
            (final(self)@, action@) == (if is_waiting(old(self)@.phase) {
                give_up(old(self)@, error@)
            } else {
                give_up(old(self)@, SyncErrorView::InvalidResponse(UNEXPECTED_EVENT@))
            }),
    {
        match self.phase {
            Phase::Idle | Phase::Done | Phase::Failed => self.unexpected(),
            _ => self.fail(error),
        }
    }

    /// Takes a request. While a run is under way the request is covered by
    /// that run, and nothing comes back; else a run starts.
    pub fn submit(&mut self, request: Request) -> (action: Option<Action>)
        requires
            old(self).wf(),
        ensures
            final(self).wf(),
            is_waiting(old(self)@.phase) ==> action is None && final(self)@ == old(self)@,
            !is_waiting(old(self)@.phase) ==> action is Some && (final(self)@, action.unwrap()@)
                == transition(old(self)@, EventView::Start),
    {
        match request {
            Request::UpdateLists => match self.phase {
                Phase::Idle | Phase::Done | Phase::Failed => Some(self.on_start()),
                _ => None,
            },
        }
    }

    /// Takes what was answered and says what to ask next. An answer that the
    /// engine did not ask for ends the synchronisation, as a failure of the
    /// remote host or of the local store does; every stage is closed then.
    pub fn step(&mut self, event: Event) -> (action: Action)
        requires
            old(self).wf(),
        ensures
            final(self).wf(),
            (final(self)@, action@) == transition(old(self)@, event@),
    {
        match event {
            Event::Start => self.on_start(),
            Event::Viewer { login, repositories } => self.on_viewer(login, repositories),
            Event::RepositoryCreated { owner } => self.on_repository_created(owner),
            Event::TopicsSet => self.on_topics_set(),
            Event::FileWritten { file_id, version } => self.on_file_written(file_id, version),
            Event::RepositoryFound(found) => self.on_repository_found(found),
            Event::UserLoaded(local) => self.on_user_loaded(local),
            Event::Tree(entries) => self.on_tree(entries),
            Event::Changes(changed) => self.on_changes(changed),
            Event::FileContent(content) => self.on_content(content),
            Event::Committed => self.on_committed(),
            Event::RemoteFailed(message) => self.on_failure(SyncError::RemoteHost(message)),
            Event::StoreFailed(error) => self.on_failure(SyncError::LocalStore(error)),
        }
    }
}

/// The state of the engine after it was told a sequence of events.
pub open spec fn state_after(s: SyncView, events: Seq<EventView>) -> SyncView
    decreases events.len(),
{
    if events.len() == 0 {
        s
    } else {
        transition(state_after(s, events.drop_last()), events.last()).0
    }
}

/// What the engine asks for when it was told the last of a sequence of
/// events. Meant for a sequence that is not empty.
pub open spec fn last_action(s: SyncView, events: Seq<EventView>) -> ActionView {
    transition(state_after(s, events.drop_last()), events.last()).1
}

/// The events that hand the engine one content after the other.
pub open spec fn content_events(contents: Seq<Seq<char>>) -> Seq<EventView> {
    contents.map_values(|content: Seq<char>| EventView::FileContent(content))
}

/// The downloads made of files and contents, one of each pair.
pub open spec fn paired(files: Seq<RemoteFileView>, contents: Seq<Seq<char>>) -> Seq<DownloadView> {
    Seq::new(contents.len(), |i: int| download_of_file(files[i], contents[i]))
}

/// The state once every file of a run is fetched.
pub open spec fn finished(s: SyncView) -> SyncView {
    SyncView {
        phase: if changes_of(s).is_empty() {
            Phase::Done
        } else {
            Phase::AwaitCommit
        },
        ..s
    }
}

/// An engine that waits for a file pairs each content that it is handed
/// with the file that it asked for, in order. While files are left it keeps
/// waiting; with the content of the last file it hands out the change set
/// made of all the downloads, or is done where that set is empty.
pub proof fn lemma_contents_are_paired(s: SyncView, contents: Seq<Seq<char>>)
    requires
        s.phase == Phase::AwaitContent,
        s.downloads.len() < s.files.len(),
        s.downloads.len() + contents.len() <= s.files.len(),
    ensures
        ({
            let fetched = SyncView {
                downloads: s.downloads + paired(
                    s.files.skip(s.downloads.len() as int),
                    contents,
                ),
                ..s
            };
            &&& state_after(s, content_events(contents)) == if fetched.downloads.len()
                < s.files.len() {
                fetched
            } else {
                finished(fetched)
            }
            &&& contents.len() > 0 && fetched.downloads.len() == s.files.len() ==> last_action(
                s,
                content_events(contents),
            ) == if changes_of(fetched).is_empty() {
                ActionView::Done
            } else {
                ActionView::Commit(changes_of(fetched))
            }
        }),
    decreases contents.len(),
{
    let rest = s.files.skip(s.downloads.len() as int);
    if contents.len() == 0 {
        assert(s.downloads + paired(rest, contents) =~= s.downloads);
        assert(content_events(contents) =~= Seq::<EventView>::empty());
    } else {
        let front = contents.drop_last();
        let events = content_events(contents);
        assert(events.drop_last() =~= content_events(front));
        assert(events.last() == EventView::FileContent(contents.last()));
        lemma_contents_are_paired(s, front);
        let before = SyncView { downloads: s.downloads + paired(rest, front), ..s };
        assert(state_after(s, content_events(front)) == before);
        let at = before.downloads.len() as int;
        assert(s.files[at] == rest[front.len() as int]);
        assert(before.downloads.push(download_of_file(s.files[at], contents.last()))
            =~= s.downloads + paired(rest, contents));
    }
}

/// A run that finds no local user record installs: told the entries of the
/// tree and then the content of each of its documents, in the tree's order,
/// the engine hands out the change set of a first install made of these
/// documents and contents, or is done where the tree holds no document.
pub proof fn lemma_install_run(s: SyncView, entries: Seq<TreeEntryView>, contents: Seq<Seq<char>>)
    requires
        s.phase == Phase::AwaitUser,
        contents.len() == documents(entries).len(),
    ensures
        ({
            let events = seq![EventView::UserLoaded(None), EventView::Tree(entries)]
                + content_events(contents);
            let changes = install_changes(s.login, s.repo, paired(documents(entries), contents));
            last_action(s, events) == if changes.is_empty() {
                ActionView::Done
            } else {
                ActionView::Commit(changes)
            }
        }),
{
    let head = seq![EventView::UserLoaded(None), EventView::Tree(entries)];
    let events = head + content_events(contents);
    let asked = transition(s, EventView::UserLoaded(None)).0;
    let listed = SyncView { files: documents(entries), downloads: Seq::empty(), ..asked };
    let started = transition(asked, EventView::Tree(entries)).0;
    assert(head.drop_last() =~= seq![EventView::UserLoaded(None)]);
    assert(seq![EventView::UserLoaded(None)].drop_last() =~= Seq::<EventView>::empty());
    assert(state_after(s, Seq::<EventView>::empty()) == s);
    assert(seq![EventView::UserLoaded(None)].last() == EventView::UserLoaded(None));
    assert(state_after(s, seq![EventView::UserLoaded(None)]) == asked);
    assert(head.last() == EventView::Tree(entries));
    assert(state_after(s, head) == started);
    assert(listed.files.skip(0) =~= listed.files);
    if contents.len() == 0 {
        assert(events =~= head);
        assert(paired(documents(entries), contents) =~= Seq::<DownloadView>::empty());
    } else {
        let waiting = SyncView { phase: Phase::AwaitContent, ..listed };
        assert(started == waiting);
        lemma_state_after_appended(s, head, content_events(contents));
        lemma_contents_are_paired(waiting, contents);
        assert(waiting.downloads + paired(waiting.files.skip(0), contents) =~= paired(
            documents(entries),
            contents,
        ));
    }
}

/// A run that finds the local user record at another version than the
/// remote one updates: told the changed files, whose paths all name files,
/// and then the content of each file to fetch, in their order, the engine
/// hands out the change set of an update made of the user record, these
/// downloads and the changed files.
pub proof fn lemma_update_run(
    s: SyncView,
    user: UserView,
    changed: Seq<ChangedFileView>,
    contents: Seq<Seq<char>>,
)
    requires
        s.phase == Phase::AwaitUser,
        user.local_version != s.repo.version,
        changes_are_named(changed),
        contents.len() == downloadable(changed).len(),
    ensures
        ({
            let events = seq![EventView::UserLoaded(Some(user)), EventView::Changes(changed)]
                + content_events(contents);
            last_action(s, events) == ActionView::Commit(
                update_changes(user, s.repo, paired(downloadable(changed), contents), changed),
            )
        }),
{
    let first = EventView::UserLoaded(Some(user));
    let head = seq![first, EventView::Changes(changed)];
    let events = head + content_events(contents);
    let asked = transition(s, first).0;
    let listed = SyncView {
        files: downloadable(changed),
        changed,
        downloads: Seq::empty(),
        ..asked
    };
    let started = transition(asked, EventView::Changes(changed)).0;
    assert(head.drop_last() =~= seq![first]);
    assert(seq![first].drop_last() =~= Seq::<EventView>::empty());
    assert(state_after(s, Seq::<EventView>::empty()) == s);
    assert(seq![first].last() == first);
    assert(state_after(s, seq![first]) == asked);
    assert(head.last() == EventView::Changes(changed));
    assert(state_after(s, head) == started);
    assert(listed.files.skip(0) =~= listed.files);
    if contents.len() == 0 {
        assert(events =~= head);
        assert(paired(downloadable(changed), contents) =~= Seq::<DownloadView>::empty());
    } else {
        let waiting = SyncView { phase: Phase::AwaitContent, ..listed };
        assert(started == waiting);
        lemma_state_after_appended(s, head, content_events(contents));
        lemma_contents_are_paired(waiting, contents);
        assert(waiting.downloads + paired(waiting.files.skip(0), contents) =~= paired(
            downloadable(changed),
            contents,
        ));
    }
}

/// A run that finds the local user record at the remote version asks for
/// nothing more and writes nothing.
pub proof fn lemma_up_to_date_run(s: SyncView, user: UserView)
    requires
        s.phase == Phase::AwaitUser,
        user.local_version == s.repo.version,
    ensures
        transition(s, EventView::UserLoaded(Some(user))).1 == ActionView::Done,
        transition(s, EventView::UserLoaded(Some(user))).0.phase == Phase::Done,
{
}

/// Telling the engine two sequences of events one after the other is
/// telling it the first and then, in the state reached, the second.
pub proof fn lemma_state_after_appended(s: SyncView, first: Seq<EventView>, second: Seq<EventView>)
    ensures
        state_after(s, first + second) == state_after(state_after(s, first), second),
        second.len() > 0 ==> last_action(s, first + second) == last_action(
            state_after(s, first),
            second,
        ),
    decreases second.len(),
{
    if second.len() == 0 {
        assert(first + second =~= first);
    } else {
        assert((first + second).drop_last() =~= first + second.drop_last());
        assert((first + second).last() == second.last());
        lemma_state_after_appended(s, first, second.drop_last());
    }
}

/// No stage is open unless the engine waits for an answer of the remote
/// host or for the local store to commit.
pub proof fn lemma_stages_are_closed_at_rest(s: SyncView)
    ensures
        !is_waiting(s.phase) || s.phase == Phase::AwaitUser ==> status_of(s).len() == 0,
        is_waiting(s.phase) && s.phase != Phase::AwaitUser ==> 1 <= status_of(s).len() <= 2,
{
}

} // verus!
