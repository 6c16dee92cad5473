//! The write-back queue of one list: each edit is kept in the local store at
//! once and queued, and a flush pushes the queue to the remote repository,
//! oldest edit first, one commit per edit.
use vstd::prelude::*;
use vstd::string::*;
use crate::debounce::Debounce;
use crate::list_id::{ListId, ListIdView};
use crate::records::{clone_text_option, ListView, UserView};
use crate::remote::{list_file_path, list_path, FileWrite, FileWriteView, USER_DATA_REPO_NAME};
use crate::store::{lemma_found_has_key, lemma_put_list, lemma_put_user, RecordStore, StoreView};

verus! {

/// Why a flush did not start.
#[derive(Clone, Copy, Debug, PartialEq, Eq, Structural)]
pub enum QueueError {
    /// The local store has no record of the list: it was deleted meanwhile.
    ListMissing,
    /// The local store has no record of the signed-in user.
    UserMissing,
}

/// What a flush asks for next.
#[derive(Debug)]
pub enum FlushStep {
    /// Push this edit to the remote repository.
    Push(FileWrite),
    /// Nothing is queued: the flush is through.
    Idle,
    /// The call changes nothing: the timer counts no longer, a flush is
    /// under way already, or none is.
    Skipped,
    /// The flush cannot start.
    Failed(QueueError),
}

/// A flush step as plain values.
pub enum FlushStepView {
    Push(FileWriteView),
    Idle,
    Skipped,
    Failed(QueueError),
}

impl View for FlushStep {
    type V = FlushStepView;

    open spec fn view(&self) -> FlushStepView {
        match self {
            FlushStep::Push(write) => FlushStepView::Push(write@),
            FlushStep::Idle => FlushStepView::Idle,
            FlushStep::Skipped => FlushStepView::Skipped,
            FlushStep::Failed(error) => FlushStepView::Failed(*error),
        }
    }
}

/// A list record after an edit: the document is the edited one, and the edit
/// stands last in the queue.
pub open spec fn edited(list: ListView, message: Seq<char>, content: Seq<char>) -> ListView {
    ListView {
        kdl: content,
        pending_changes: list.pending_changes.push((message, content)),
        ..list
    }
}

/// The store after an edit of a list: the record is the edited one; where
/// the list has no record, nothing changes.
pub open spec fn store_edited(
    store: StoreView,
    id: ListIdView,
    message: Seq<char>,
    content: Seq<char>,
) -> StoreView {
    match store.list(id) {
        Some(list) => store.put_list(edited(list, message, content)),
        None => store,
    }
}

/// The push of the oldest queued edit of a list, into the repository of the
/// signed-in user.
pub open spec fn head_write(login: Seq<char>, list: ListView) -> FileWriteView {
    FileWriteView {
        owner: login,
        repository: USER_DATA_REPO_NAME@,
        path: list_path(list.id.id),
        message: list.pending_changes[0].0,
        content: list.pending_changes[0].1,
        file_id: list.file_id,
    }
}

/// A list record after its oldest queued edit was pushed: the edit has left
/// the queue, and file identifier and version are those of the new commit.
pub open spec fn pushed_list(list: ListView, file_id: Seq<char>, version: Seq<char>) -> ListView {
    ListView {
        file_id: Some(file_id),
        local_version: version,
        pending_changes: list.pending_changes.drop_first(),
        ..list
    }
}

/// A user record after a push: both versions are that of the new commit.
pub open spec fn pushed_user(user: UserView, version: Seq<char>) -> UserView {
    UserView { local_version: version, remote_version: version, ..user }
}

/// Whether the store has what a push needs: a record of the user, and a
/// record of the list with an edit queued.
pub open spec fn can_push(store: StoreView, login: Seq<char>, id: ListIdView) -> bool {
    store.user(login) is Some && store.list(id) is Some
        && store.list(id).unwrap().pending_changes.len() > 0
}

/// The store after the oldest queued edit of a list was pushed; where the
/// store lacks what a push needs, nothing changes.
pub open spec fn store_pushed(
    store: StoreView,
    login: Seq<char>,
    id: ListIdView,
    file_id: Seq<char>,
    version: Seq<char>,
) -> StoreView {
    if can_push(store, login, id) {
        store.put_user(pushed_user(store.user(login).unwrap(), version)).put_list(
            pushed_list(store.list(id).unwrap(), file_id, version),
        )
    } else {
        store
    }
}

/// The write-back state of one list as plain values.
pub struct WriteBackView {
    /// The signed-in user, who owns the repository.
    pub login: Seq<char>,
    /// The list.
    pub list: ListIdView,
    /// The tokens of the list's timers.
    pub debounce: Debounce,
    /// Whether a flush is under way.
    pub flushing: bool,
}

/// What starting a flush comes to: nothing while one is under way; a
/// failure where the user or the list has no record; nothing to do where no
/// edit is queued; else the push of the oldest edit.
pub open spec fn start_flush(w: WriteBackView, store: StoreView) -> (WriteBackView, FlushStepView) {
    if w.flushing {
        (w, FlushStepView::Skipped)
    } else if store.user(w.login) is None {
        (w, FlushStepView::Failed(QueueError::UserMissing))
    } else if store.list(w.list) is None {
        (w, FlushStepView::Failed(QueueError::ListMissing))
    } else if store.list(w.list).unwrap().pending_changes.len() == 0 {
        (w, FlushStepView::Idle)
    } else {
        (
            WriteBackView { flushing: true, ..w },
            FlushStepView::Push(head_write(w.login, store.list(w.list).unwrap())),
        )
    }
}

/// What a timer that comes back comes to: a flush starts if the timer
/// counts, and nothing happens if it does not.
pub open spec fn timer_step(w: WriteBackView, store: StoreView, token: u64) -> (
    WriteBackView,
    FlushStepView,
) {
    if w.debounce.fires(token) {
        start_flush(WriteBackView { debounce: w.debounce.fired(token), ..w }, store)
    } else {
        (w, FlushStepView::Skipped)
    }
}

/// What a forced flush comes to: the timer that counts is called off, and a
/// flush starts.
pub open spec fn forced_step(w: WriteBackView, store: StoreView) -> (WriteBackView, FlushStepView) {
    start_flush(WriteBackView { debounce: w.debounce.cancelled(), ..w }, store)
}

/// What follows a push that succeeded. With no flush under way nothing
/// happens. Where the store lacks what a push needs, the flush ends with
/// what starting one would come to. Else the store notes the push, and the
/// flush goes on with the next queued edit or ends.
pub open spec fn acknowledged(
    w: WriteBackView,
    store: StoreView,
    file_id: Seq<char>,
    version: Seq<char>,
) -> (WriteBackView, StoreView, FlushStepView) {
    let stopped = WriteBackView { flushing: false, ..w };
    if !w.flushing {
        (w, store, FlushStepView::Skipped)
    } else if !can_push(store, w.login, w.list) {
        (stopped, store, start_flush(stopped, store).1)
    } else {
        let after = store_pushed(store, w.login, w.list, file_id, version);
        if after.list(w.list) is Some && after.list(w.list).unwrap().pending_changes.len() > 0 {
            (w, after, FlushStepView::Push(head_write(w.login, after.list(w.list).unwrap())))
        } else {
            (stopped, after, FlushStepView::Idle)
        }
    }
}

/// The write-back state of one list.
#[derive(Debug)]
pub struct WriteBack {
    login: String,
    list: ListId,
    debounce: Debounce,
    flushing: bool,
}

impl View for WriteBack {
    type V = WriteBackView;

    closed spec fn view(&self) -> WriteBackView {
        WriteBackView {
            login: self.login@,
            list: self.list@,
            debounce: self.debounce,
            flushing: self.flushing,
        }
    }
}

/// Keeps an edit of a list in the store and queues it. Says whether the
/// list has a record; where it has none, nothing is written.
pub fn record_edit(store: &mut RecordStore, id: &ListId, message: &str, content: &str) -> (res:
    bool)
    requires
        old(store).wf(),
    ensures
        final(store).wf(),
        res == (old(store)@.list(id@) is Some),
        final(store)@ == store_edited(old(store)@, id@, message@, content@),
{
    match store.get_list(id) {
        None => false,
        Some(list) => {
            let ghost before = list@;
            let mut list = list;
            list.kdl = content.to_owned();
            list.pending_changes.push((message.to_owned(), content.to_owned()));
            assert(list@.pending_changes =~= before.pending_changes.push((message@, content@)));
            assert(list@ == edited(before, message@, content@));
            store.put_list(list);
            true
        },
    }
}

/// The push of the oldest queued edit of a list, if one is queued.
pub fn next_push(store: &RecordStore, login: &str, id: &ListId) -> (res: Option<FileWrite>)
    ensures
        res.is_some() == (store@.list(id@) is Some && store@.list(id@).unwrap().pending_changes.len()
            > 0),
        res.is_some() ==> res.unwrap()@ == head_write(login@, store@.list(id@).unwrap()),
{
    match store.get_list(id) {
        None => None,
        Some(list) => {
            if list.pending_changes.len() == 0 {
                None
            } else {
                let head = &list.pending_changes[0];
                assert(list.pending_changes.deep_view()[0] == (head.0@, head.1@));
                Some(
                    FileWrite {
                        owner: login.to_owned(),
                        repository: USER_DATA_REPO_NAME.to_owned(),
                        path: list_file_path(list.id.id.as_str()),
                        message: head.0.clone(),
                        content: head.1.clone(),
                        file_id: clone_text_option(&list.file_id),
                    },
                )
            }
        },
    }
}

/// Notes in the store that the oldest queued edit of a list was pushed: the
/// edit leaves the queue, the list record takes file identifier and version
/// of the new commit, and the user record takes the version. Says whether
/// the store had what a push needs; where it had not, nothing is written.
pub fn record_push(
    store: &mut RecordStore,
    login: &str,
    id: &ListId,
    file_id: String,
    version: String,
) -> (res: bool)
    requires
        old(store).wf(),
    ensures
        final(store).wf(),
        res == can_push(old(store)@, login@, id@),
        final(store)@ == store_pushed(old(store)@, login@, id@, file_id@, version@),
{
    let user = store.get_user(login);
    let list = store.get_list(id);
    match (user, list) {
        (Some(user), Some(list)) => {
            if list.pending_changes.len() == 0 {
                return false;
            }
            let ghost user_before = user@;
            let ghost list_before = list@;
            let mut user = user;
            let mut list = list;
            user.local_version = version.clone();
            user.remote_version = version.clone();
            list.file_id = Some(file_id);
            list.local_version = version;
            let _ = list.pending_changes.remove(0);
            assert(list@.pending_changes =~= list_before.pending_changes.drop_first());
            assert(user@ == pushed_user(user_before, version@));
            assert(list@ == pushed_list(list_before, file_id@, version@));
            proof {
                lemma_put_user(store@, user@);
            }
            store.put_user(user);
            store.put_list(list);
            true
        },
        _ => false,
    }
}

impl WriteBack {
    /// The tokens are in order.
    pub open spec fn wf(&self) -> bool {
        self@.debounce.wf()
    }

    /// The write-back state of a list that nothing has happened to yet.
    pub fn new(login: String, list: ListId) -> (res: WriteBack)
        ensures
            res.wf(),
            res@ == (WriteBackView {
                login: login@,
                list: list@,
                debounce: Debounce { issued: 0, live: None },
                flushing: false,
            }),
    {
        WriteBack { login, list, debounce: Debounce::new(), flushing: false }
    }

    /// The tokens of the list's timers.
    pub fn debounce(&self) -> (res: Debounce)
        ensures
            res == self@.debounce,
    {
        self.debounce
    }

    /// Whether a flush is under way.
    pub fn is_flushing(&self) -> (res: bool)
        ensures
            res == self@.flushing,
    {
        self.flushing
    }

    /// An edit of the list, with its commit message and the whole document
    /// after it. The edit is kept in the store and queued, and a token is
    /// taken for a timer of the quiet period, which replaces the timer that
    /// counted before. Where the list has no record, nothing happens.
    pub fn edit(&mut self, store: &mut RecordStore, message: &str, content: &str) -> (token:
        Option<u64>)
        requires
            old(self).wf(),
            old(store).wf(),
            old(self)@.debounce.issued < u64::MAX,
        ensures
            final(self).wf(),
            final(store).wf(),
            final(store)@ == store_edited(old(store)@, old(self)@.list, message@, content@),
            match old(store)@.list(old(self)@.list) {
                Some(_) => token == Some(old(self)@.debounce.issued) && final(self)@ == (
                WriteBackView { debounce: old(self)@.debounce.scheduled(), ..old(self)@ }),
                None => token is None && final(self)@ == old(self)@,
            },
    {
        if record_edit(store, &self.list, message, content) {
            Some(self.debounce.schedule())
        } else {
            None
        }
    }

    /// Starts a flush.
    fn start(&mut self, store: &RecordStore) -> (step: FlushStep)
        requires
            old(self).wf(),
        ensures
            final(self).wf(),
            (final(self)@, step@) == start_flush(old(self)@, store@),
    {
        if self.flushing {
            return FlushStep::Skipped;
        }
        if store.get_user(self.login.as_str()).is_none() {
            return FlushStep::Failed(QueueError::UserMissing);
        }
        if store.get_list(&self.list).is_none() {
            return FlushStep::Failed(QueueError::ListMissing);
        }
        match next_push(store, self.login.as_str(), &self.list) {
            Some(write) => {
                self.flushing = true;
                FlushStep::Push(write)
            },
            None => FlushStep::Idle,
        }
    }

    /// A timer came back with its token. If it still counts, a flush starts;
    /// if it was replaced or called off, nothing happens.
    pub fn timer_fired(&mut self, store: &RecordStore, token: u64) -> (step: FlushStep)
        requires
            old(self).wf(),
        ensures
            final(self).wf(),
            (final(self)@, step@) == timer_step(old(self)@, store@, token),
    {
        if self.debounce.fire(token) {
            self.start(store)
        } else {
            FlushStep::Skipped
        }
    }

    /// A flush was asked for at once: the timer that counts is called off
    /// and a flush starts.
    pub fn force_flush(&mut self, store: &RecordStore) -> (step: FlushStep)
        requires
            old(self).wf(),
        ensures
            final(self).wf(),
            (final(self)@, step@) == forced_step(old(self)@, store@),
    {
        self.debounce.cancel();
        self.start(store)
    }

    /// The push that the flush asked for has succeeded, with the file
    /// identifier and the version of the new commit. The store notes it, and
    /// the flush goes on with the next queued edit or ends. With no flush
    /// under way nothing happens.
    pub fn push_succeeded(
        &mut self,
        store: &mut RecordStore,
        file_id: String,
        version: String,
    ) -> (step: FlushStep)
        requires
            old(self).wf(),
            old(store).wf(),
        ensures
            final(self).wf(),
            final(store).wf(),
            (final(self)@, final(store)@, step@) == acknowledged(
                old(self)@,
                old(store)@,
                file_id@,
                version@,
            ),
    {
        if !self.flushing {
            return FlushStep::Skipped;
        }
        if !record_push(store, self.login.as_str(), &self.list, file_id, version) {
            self.flushing = false;
            return self.start(store);
        }
        match next_push(store, self.login.as_str(), &self.list) {
            Some(write) => FlushStep::Push(write),
            None => {
                self.flushing = false;
                FlushStep::Idle
            },
        }
    }

    /// The push that the flush asked for has failed: the flush ends, and
    /// what is queued stays queued for the next one.
    pub fn push_failed(&mut self)
        ensures
            final(self)@ == (WriteBackView { flushing: false, ..old(self)@ }),
    {
        self.flushing = false;
    }
}

/// The store after the edits of a list were recorded one after the other;
/// each edit is a commit message and the document after it.
pub open spec fn store_edited_all(
    store: StoreView,
    id: ListIdView,
    edits: Seq<(Seq<char>, Seq<char>)>,
) -> StoreView
    decreases edits.len(),
{
    if edits.len() == 0 {
        store
    } else {
        store_edited(store_edited_all(store, id, edits.drop_last()), id, edits.last().0, edits.last().1)
    }
}

/// The store after the pushes of a list's oldest queued edits succeeded one
/// after the other; each is answered with a file identifier and a version.
pub open spec fn store_pushed_all(
    store: StoreView,
    login: Seq<char>,
    id: ListIdView,
    answers: Seq<(Seq<char>, Seq<char>)>,
) -> StoreView
    decreases answers.len(),
{
    if answers.len() == 0 {
        store
    } else {
        store_pushed(
            store_pushed_all(store, login, id, answers.drop_last()),
            login,
            id,
            answers.last().0,
            answers.last().1,
        )
    }
}

/// Edits of a list that has a record are queued behind what was queued, in
/// the order in which they were made; the record holds the last document,
/// and nothing else in the store changes.
pub proof fn lemma_edits_are_queued_in_order(
    store: StoreView,
    id: ListIdView,
    edits: Seq<(Seq<char>, Seq<char>)>,
)
    requires
        store.wf(),
        store.list(id) is Some,
    ensures
        ({
            let after = store_edited_all(store, id, edits);
            let before = store.list(id).unwrap();
            &&& after.wf()
            &&& after.users == store.users
            &&& after.list(id) == Some(
                ListView {
                    kdl: if edits.len() > 0 {
                        edits.last().1
                    } else {
                        before.kdl
                    },
                    pending_changes: before.pending_changes + edits,
                    ..before
                },
            )
            &&& forall|other: ListIdView| other != id ==> #[trigger] after.list(other) == store.list(other)
        }),
    decreases edits.len(),
{
    let before = store.list(id).unwrap();
    lemma_found_has_key(store, Seq::empty(), id);
    if edits.len() == 0 {
        assert(before.pending_changes + edits =~= before.pending_changes);
    } else {
        let front = edits.drop_last();
        let middle = store_edited_all(store, id, front);
        lemma_edits_are_queued_in_order(store, id, front);
        let record = middle.list(id).unwrap();
        lemma_put_list(middle, edited(record, edits.last().0, edits.last().1));
        assert((before.pending_changes + front).push(edits.last()) =~= before.pending_changes
            + edits);
        let after = store_edited_all(store, id, edits);
        assert forall|other: ListIdView| other != id implies #[trigger] after.list(other)
            == store.list(other) by {
            assert(middle.list(other) == store.list(other));
        }
    }
}

/// A flush pushes in the order of the queue, and what it has not pushed
/// stays queued. After the first `answers.len()` pushes of a list's queue
/// have succeeded, exactly the later edits are queued, in their order; the
/// list record stands at the file identifier and the version of the last
/// answer, and the user record at that version. The push that comes next,
/// in this flush or in a later one, is that of the oldest edit left.
pub proof fn lemma_flush_is_first_in_first_out(
    store: StoreView,
    login: Seq<char>,
    id: ListIdView,
    answers: Seq<(Seq<char>, Seq<char>)>,
)
    requires
        store.wf(),
        store.user(login) is Some,
        store.list(id) is Some,
        answers.len() <= store.list(id).unwrap().pending_changes.len(),
    ensures
        ({
            let after = store_pushed_all(store, login, id, answers);
            let before = store.list(id).unwrap();
            let n = answers.len() as int;
            &&& after.wf()
            &&& after.user(login) is Some
            &&& after.list(id) is Some
            &&& after.list(id).unwrap().pending_changes == before.pending_changes.skip(n)
            &&& after.list(id).unwrap().kdl == before.kdl
            &&& n > 0 ==> after.list(id).unwrap().file_id == Some(answers.last().0)
                && after.list(id).unwrap().local_version == answers.last().1 && after.user(
                login,
            ).unwrap().local_version == answers.last().1
            &&& n < before.pending_changes.len() ==> head_write(login, after.list(id).unwrap()).message
                == before.pending_changes[n].0 && head_write(
                login,
                after.list(id).unwrap(),
            ).content == before.pending_changes[n].1
            &&& forall|other: ListIdView| other != id ==> #[trigger] after.list(other) == store.list(other)
        }),
    decreases answers.len(),
{
    let before = store.list(id).unwrap();
    lemma_found_has_key(store, login, id);
    if answers.len() == 0 {
        assert(before.pending_changes.skip(0) =~= before.pending_changes);
    } else {
        let front = answers.drop_last();
        let middle = store_pushed_all(store, login, id, front);
        lemma_flush_is_first_in_first_out(store, login, id, front);
        lemma_found_has_key(middle, login, id);
        let user = middle.user(login).unwrap();
        let record = middle.list(id).unwrap();
        assert(record.pending_changes.len() > 0);
        let with_user = middle.put_user(pushed_user(user, answers.last().1));
        lemma_put_user(middle, pushed_user(user, answers.last().1));
        assert(with_user.list(id) == middle.list(id));
        lemma_put_list(with_user, pushed_list(record, answers.last().0, answers.last().1));
        let after = store_pushed_all(store, login, id, answers);
        assert(after == with_user.put_list(
            pushed_list(record, answers.last().0, answers.last().1),
        ));
        assert(after.user(login) == with_user.user(login));
        assert(before.pending_changes.skip(front.len() as int).drop_first()
            =~= before.pending_changes.skip(answers.len() as int));
        assert forall|other: ListIdView| other != id implies #[trigger] after.list(other)
            == store.list(other) by {
            assert(with_user.list(other) == middle.list(other));
            assert(middle.list(other) == store.list(other));
        }
    }
}

/// Once a flush was forced, the timer that was running counts no longer:
/// when it comes back, with whatever token, nothing happens.
pub proof fn lemma_forced_flush_calls_timer_off(
    w: WriteBackView,
    store: StoreView,
    later: StoreView,
    token: u64,
)
    ensures
        timer_step(forced_step(w, store).0, later, token) == (
            forced_step(w, store).0,
            FlushStepView::Skipped,
        ),
{
}

/// A timer that was replaced by a later edit does nothing when it comes
/// back: after an edit took the token `issued`, a timer with any other token
/// leaves the write-back state as it is.
pub proof fn lemma_replaced_timer_is_skipped(w: WriteBackView, store: StoreView, token: u64)
    requires
        token != w.debounce.issued,
    ensures
        timer_step(WriteBackView { debounce: w.debounce.scheduled(), ..w }, store, token) == (
            WriteBackView { debounce: w.debounce.scheduled(), ..w },
            FlushStepView::Skipped,
        ),
{
}

} // verus!
