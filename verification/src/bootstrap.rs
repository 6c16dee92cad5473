//! Finding the data repository of the signed-in user, and creating it where
//! the user has none: the repository is created, tagged with a topic and
//! seeded with a user document.
use vstd::prelude::*;
use vstd::string::*;
use crate::remote::{
    CreateRepository,
    CreateRepositoryView,
    FileWrite,
    FileWriteView,
    RepositoryMetadata,
    RepositoryView,
    SearchRepositoriesParams,
    SearchView,
    SetTopics,
    SetTopicsView,
    DATA_REPO_TOPIC,
    USER_DATA_REPO_NAME,
    USER_FILE_PATH,
};

verus! {

/// The user qualifier that stands for the signed-in user.
pub const VIEWER: &'static str = "@me";

/// The commit message of the seed document.
pub const SEED_MESSAGE: &'static str = "Initialize user data";

/// The search for the data repository of a user.
pub open spec fn data_repository_search(user: Seq<char>) -> SearchView {
    SearchView { user, name: USER_DATA_REPO_NAME@, page_size: 1 }
}

/// The question who is signed in and whether that user has a data
/// repository.
#[derive(Clone, Copy, Debug, Default)]
pub struct QueryViewer;

impl QueryViewer {
    /// The search that answers the question: the signed-in user's
    /// repositories with the reserved name, one result.
    pub fn search() -> (res: SearchRepositoriesParams)
        ensures
            res@ == data_repository_search(VIEWER@),
    {
        SearchRepositoriesParams {
            user: VIEWER.to_owned(),
            name: USER_DATA_REPO_NAME.to_owned(),
            page_size: 1,
        }
    }

    /// The answer, from what the search returned: the signed-in user, and
    /// the last repository found, if any was.
    pub fn resolve(login: String, repositories: Vec<RepositoryMetadata>) -> (res: (
        String,
        Option<RepositoryMetadata>,
    ))
        ensures
            res.0@ == login@,
            res.1.deep_view() == if repositories.deep_view().len() > 0 {
                Some(repositories.deep_view().last())
            } else {
                None
            },
    {
        let mut repositories = repositories;
        let found = repositories.pop();
        (login, found)
    }
}

/// What creating a data repository came to.
#[derive(Debug)]
pub struct GenerateDataRepoResponse {
    pub owner: String,
    pub name: String,
    /// The remote identifier of the seed document.
    pub user_file_id: String,
    /// The seed document.
    pub user_content: String,
    /// The version of the repository after the seed was written.
    pub remote_version: String,
}

/// The outcome of creating a data repository as plain text.
pub struct GenerateDataRepoResponseView {
    pub owner: Seq<char>,
    pub name: Seq<char>,
    pub user_file_id: Seq<char>,
    pub user_content: Seq<char>,
    pub remote_version: Seq<char>,
}

impl View for GenerateDataRepoResponse {
    type V = GenerateDataRepoResponseView;

    open spec fn view(&self) -> GenerateDataRepoResponseView {
        GenerateDataRepoResponseView {
            owner: self.owner@,
            name: self.name@,
            user_file_id: self.user_file_id@,
            user_content: self.user_content@,
            remote_version: self.remote_version@,
        }
    }
}

impl GenerateDataRepoResponseView {
    /// The metadata of the new repository, from what a search for it
    /// returned: owner, name and version are those of the creation, and the
    /// tree is that of the first repository found. Nothing where the search
    /// found none.
    pub open spec fn metadata(self, found: Seq<RepositoryView>) -> Option<RepositoryView> {
        if found.len() > 0 {
            Some(
                RepositoryView {
                    owner: self.owner,
                    name: self.name,
                    version: self.remote_version,
                    tree_id: found[0].tree_id,
                },
            )
        } else {
            None
        }
    }
}

impl GenerateDataRepoResponse {
    /// The search that finds the new repository, whose tree the creation
    /// does not tell.
    pub fn search(&self) -> (res: SearchRepositoriesParams)
        ensures
            res@ == (SearchView { user: self@.owner, name: self@.name, page_size: 1 }),
    {
        SearchRepositoriesParams {
            user: self.owner.clone(),
            name: self.name.clone(),
            page_size: 1,
        }
    }

    /// The metadata of the new repository, from what the search returned.
    pub fn metadata(&self, found: &Vec<RepositoryMetadata>) -> (res: Option<RepositoryMetadata>)
        ensures
            res.deep_view() == self@.metadata(found.deep_view()),
    {
        if found.len() > 0 {
            Some(
                RepositoryMetadata {
                    owner: self.owner.clone(),
                    name: self.name.clone(),
                    version: self.remote_version.clone(),
                    tree_id: found[0].tree_id.clone(),
                },
            )
        } else {
            None
        }
    }
}

/// The creation of the data repository of the signed-in user.
#[derive(Debug)]
pub struct GenerateDataRepo {
    /// The user document that the repository is seeded with.
    pub seed: String,
}

/// The request that writes the seed document into the repository of
/// `owner`.
pub open spec fn seed_write(owner: Seq<char>, seed: Seq<char>) -> FileWriteView {
    FileWriteView {
        owner,
        repository: USER_DATA_REPO_NAME@,
        path: USER_FILE_PATH@,
        message: SEED_MESSAGE@,
        content: seed,
        file_id: None,
    }
}

/// The request that tags the repository of `owner`.
pub open spec fn topics_of(owner: Seq<char>) -> SetTopicsView {
    SetTopicsView { owner, repository: USER_DATA_REPO_NAME@, topics: seq![DATA_REPO_TOPIC@] }
}

impl GenerateDataRepo {
    /// The first request: create the repository, public, under the reserved
    /// name.
    pub fn create_repository(&self) -> (res: CreateRepository)
        ensures
            res@ == (CreateRepositoryView { name: USER_DATA_REPO_NAME@, private: false }),
    {
        CreateRepository { name: USER_DATA_REPO_NAME.to_owned(), private: false }
    }

    /// The second request: tag the repository with the reserved topic.
    pub fn set_topics(&self, owner: &str) -> (res: SetTopics)
        ensures
            res@ == topics_of(owner@),
    {
        let mut topics: Vec<String> = Vec::new();
        topics.push(DATA_REPO_TOPIC.to_owned());
        assert(topics.deep_view() =~= seq![DATA_REPO_TOPIC@]);
        SetTopics { owner: owner.to_owned(), repository: USER_DATA_REPO_NAME.to_owned(), topics }
    }

    /// The third request: write the seed document as the user document.
    pub fn write_seed(&self, owner: &str) -> (res: FileWrite)
        ensures
            res@ == seed_write(owner@, self.seed@),
    {
        FileWrite {
            owner: owner.to_owned(),
            repository: USER_DATA_REPO_NAME.to_owned(),
            path: USER_FILE_PATH.to_owned(),
            message: SEED_MESSAGE.to_owned(),
            content: self.seed.clone(),
            file_id: None,
        }
    }

    /// What the creation came to, once the seed is written.
    pub fn response(&self, owner: String, file_id: String, version: String) -> (res:
        GenerateDataRepoResponse)
        ensures
            res@ == (GenerateDataRepoResponseView {
                owner: owner@,
                name: USER_DATA_REPO_NAME@,
                user_file_id: file_id@,
                user_content: self.seed@,
                remote_version: version@,
            }),
    {
        GenerateDataRepoResponse {
            owner,
            name: USER_DATA_REPO_NAME.to_owned(),
            user_file_id: file_id,
            user_content: self.seed.clone(),
            remote_version: version,
        }
    }
}

} // verus!
