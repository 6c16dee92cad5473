//! The wishlist document: a list of entries, each a specific offer, an idea
//! or a bundle of entries, and the edits that add and remove entries.
use vstd::prelude::*;
use vstd::string::*;
use crate::kind::KindId;
use crate::list_id::ListId;
use crate::tags::TagSet;

verus! {

/// A document that can be read out of a record of the local store.
pub trait RecordData: Sized {
    /// The record that holds the document.
    type Record;

    /// Why a record cannot be read.
    type Error;

    /// Reads the document out of its record.
    fn parse_record(record: &Self::Record) -> Result<Self, Self::Error>;
}

/// The commit message of an entry added to the list.
pub const ADD_ITEM: &'static str = "Add item";

/// The commit message of an entry added to a bundle.
pub const ADD_ITEM_TO_BUNDLE: &'static str = "Add item to bundle";

/// The start of the commit message of an entry removed.
pub const REMOVE_ITEM: &'static str = "Remove item ";

/// What stands between the names in the commit message of an entry removed
/// from a bundle.
pub const FROM_BUNDLE: &'static str = " from bundle ";

/// A specific gift, which can be bought as it is offered.
#[derive(Debug, Default)]
pub struct Specific {
    pub image_url: Option<String>,
    pub offer_url: String,
    pub cost_per_unit: usize,
}

/// A specific gift as plain values.
pub struct SpecificView {
    pub image_url: Option<Seq<char>>,
    pub offer_url: Seq<char>,
    pub cost_per_unit: usize,
}

impl View for Specific {
    type V = SpecificView;

    open spec fn view(&self) -> SpecificView {
        SpecificView {
            image_url: self.image_url.deep_view(),
            offer_url: self.offer_url@,
            cost_per_unit: self.cost_per_unit,
        }
    }
}

/// An idea for a gift, which the giver has to find.
#[derive(Debug, Default)]
pub struct Idea {
    pub image_url: Option<String>,
    pub estimated_cost: usize,
    pub example_urls: Vec<String>,
}

/// An idea as plain values.
pub struct IdeaView {
    pub image_url: Option<Seq<char>>,
    pub estimated_cost: usize,
    pub example_urls: Seq<Seq<char>>,
}

impl View for Idea {
    type V = IdeaView;

    open spec fn view(&self) -> IdeaView {
        IdeaView {
            image_url: self.image_url.deep_view(),
            estimated_cost: self.estimated_cost,
            example_urls: self.example_urls.deep_view(),
        }
    }
}

/// Entries that should be bought together.
#[derive(Debug, Default)]
pub struct Bundle {
    pub entries: Vec<Entry>,
}

/// What an entry is.
#[derive(Debug)]
pub enum Kind {
    Specific(Specific),
    Idea(Idea),
    Bundle(Bundle),
}

/// A wish on a wishlist.
#[derive(Debug)]
pub struct Entry {
    pub name: String,
    pub description: String,
    /// How many of it can be reserved.
    pub quantity: usize,
    /// Who has reserved how many: one pair for each user who has reserved.
    pub reservations: Vec<(String, usize)>,
    pub tags: TagSet,
    pub kind: Kind,
}

/// What an entry is, as plain values.
pub enum KindView {
    Specific(SpecificView),
    Idea(IdeaView),
    Bundle(Seq<EntryView>),
}

/// An entry as plain values.
pub struct EntryView {
    pub name: Seq<char>,
    pub description: Seq<char>,
    pub quantity: usize,
    pub reservations: Seq<(Seq<char>, usize)>,
    pub tags: Seq<Seq<char>>,
    pub kind: KindView,
}

/// The entries of a sequence as plain values.
pub open spec fn entries_view(entries: Seq<Entry>) -> Seq<EntryView>
    decreases entries, 0nat,
{
    if entries.len() == 0 {
        Seq::empty()
    } else {
        entries_view(entries.drop_last()).push(entry_view(entries.last()))
    }
}

/// An entry as plain values.
pub open spec fn entry_view(entry: Entry) -> EntryView
    decreases entry, 1nat,
{
    EntryView {
        name: entry.name@,
        description: entry.description@,
        quantity: entry.quantity,
        reservations: entry.reservations.deep_view(),
        tags: entry.tags@,
        kind: kind_view(entry.kind),
    }
}

/// A kind as plain values.
pub open spec fn kind_view(kind: Kind) -> KindView
    decreases kind, 1nat,
{
    match kind {
        Kind::Specific(specific) => KindView::Specific(specific@),
        Kind::Idea(idea) => KindView::Idea(idea@),
        Kind::Bundle(bundle) => KindView::Bundle(entries_view(bundle.entries@)),
    }
}

impl View for Kind {
    type V = KindView;

    open spec fn view(&self) -> KindView {
        kind_view(*self)
    }
}

impl View for Entry {
    type V = EntryView;

    open spec fn view(&self) -> EntryView {
        entry_view(*self)
    }
}

/// The plain values of a sequence of entries are those of its entries, one
/// for one.
pub proof fn lemma_entries_view(entries: Seq<Entry>)
    ensures
        entries_view(entries).len() == entries.len(),
        forall|i: int| 0 <= i < entries.len() ==> entries_view(entries)[i] == entry_view(
            #[trigger] entries[i],
        ),
    decreases entries.len(),
{
    if entries.len() > 0 {
        lemma_entries_view(entries.drop_last());
        assert forall|i: int| 0 <= i < entries.len() implies entries_view(entries)[i]
            == entry_view(#[trigger] entries[i]) by {
            if i < entries.len() - 1 {
                assert(entries.drop_last()[i] == entries[i]);
            }
        }
    }
}

/// The kind with this identifier, with nothing filled in.
pub open spec fn blank_kind(id: KindId) -> KindView {
    match id {
        KindId::Specific => KindView::Specific(
            SpecificView { image_url: None, offer_url: Seq::empty(), cost_per_unit: 0 },
        ),
        KindId::Idea => KindView::Idea(
            IdeaView { image_url: None, estimated_cost: 0, example_urls: Seq::empty() },
        ),
        KindId::Bundle => KindView::Bundle(Seq::empty()),
    }
}

/// The identifier of a kind.
pub open spec fn kind_id(kind: KindView) -> KindId {
    match kind {
        KindView::Specific(_) => KindId::Specific,
        KindView::Idea(_) => KindId::Idea,
        KindView::Bundle(_) => KindId::Bundle,
    }
}

/// The addresses of the images of a sequence of entries, in its order.
pub open spec fn entries_image_urls(entries: Seq<EntryView>) -> Seq<Seq<char>>
    decreases entries, 0nat,
{
    if entries.len() == 0 {
        Seq::empty()
    } else {
        entries_image_urls(entries.drop_last()) + kind_image_urls(entries.last().kind)
    }
}

/// The addresses of the images of a kind: its own image, if it has one, or
/// the images of the entries of a bundle.
pub open spec fn kind_image_urls(kind: KindView) -> Seq<Seq<char>>
    decreases kind, 1nat,
{
    match kind {
        KindView::Specific(specific) => match specific.image_url {
            Some(url) => seq![url],
            None => Seq::empty(),
        },
        KindView::Idea(idea) => match idea.image_url {
            Some(url) => seq![url],
            None => Seq::empty(),
        },
        KindView::Bundle(entries) => entries_image_urls(entries),
    }
}

/// The addresses of the images of the first `upto` entries.
fn image_urls_of_entries(entries: &Vec<Entry>, upto: usize) -> (res: Vec<String>)
    requires
        upto <= entries.len(),
    ensures
        res.deep_view() == entries_image_urls(entries_view(entries@.take(upto as int))),
    decreases entries, upto,
{
    if upto == 0 {
        let urls: Vec<String> = Vec::new();
        assert(urls.deep_view() =~= Seq::empty());
        assert(entries@.take(0).len() == 0);
        assert(entries_view(entries@.take(0)) =~= Seq::empty());
        urls
    } else {
        proof {
            broadcast use vstd::std_specs::vec::axiom_vec_index_decreases;

            assert(decreases_to!(entries => entries[upto - 1]));
        }
        let mut urls = image_urls_of_entries(entries, upto - 1);
        let mut more = entries[upto - 1].kind.image_urls();
        proof {
            let taken = entries@.take(upto as int);
            assert(taken.drop_last() =~= entries@.take(upto - 1));
            assert(taken.last() == entries@[upto - 1]);
            let plain = entries_view(taken);
            assert(plain == entries_view(taken.drop_last()).push(entry_view(taken.last())));
            assert(plain.drop_last() =~= entries_view(taken.drop_last()));
            assert(plain.last().kind == kind_view(entries@[upto - 1].kind));
            assert(entries_image_urls(plain) == entries_image_urls(plain.drop_last())
                + kind_image_urls(plain.last().kind));
        }
        let ghost before = urls.deep_view();
        urls.append(&mut more);
        assert(urls.deep_view() =~= before + kind_image_urls(kind_view(entries@[upto - 1].kind)));
        urls
    }
}

impl Kind {
    /// The identifier of the kind.
    pub fn id(&self) -> (res: KindId)
        ensures
            res == kind_id(self@),
    {
        match self {
            Kind::Specific(_) => KindId::Specific,
            Kind::Idea(_) => KindId::Idea,
            Kind::Bundle(_) => KindId::Bundle,
        }
    }

    /// The kind with this identifier, with nothing filled in.
    pub fn from(id: KindId) -> (res: Kind)
        ensures
            res@ == blank_kind(id),
    {
        match id {
            KindId::Specific => Kind::Specific(
                Specific { image_url: None, offer_url: String::new(), cost_per_unit: 0 },
            ),
            KindId::Idea => {
                let idea = Idea { image_url: None, estimated_cost: 0, example_urls: Vec::new() };
                assert(idea@.example_urls =~= Seq::empty());
                Kind::Idea(idea)
            },
            KindId::Bundle => Kind::Bundle(Bundle { entries: Vec::new() }),
        }
    }

    /// The addresses of the images of the kind: its own image, if it has
    /// one, or the images of the entries of a bundle, in their order.
    pub fn image_urls(&self) -> (res: Vec<String>)
        ensures
            res.deep_view() == kind_image_urls(self@),
        decreases self, 0nat,
    {
        match self {
            Kind::Specific(specific) => {
                let mut urls: Vec<String> = Vec::new();
                match &specific.image_url {
                    Some(url) => {
                        urls.push(url.clone());
                        assert(urls.deep_view() =~= seq![url@]);
                    },
                    None => {
                        assert(urls.deep_view() =~= Seq::empty());
                    },
                }
                urls
            },
            Kind::Idea(idea) => {
                let mut urls: Vec<String> = Vec::new();
                match &idea.image_url {
                    Some(url) => {
                        urls.push(url.clone());
                        assert(urls.deep_view() =~= seq![url@]);
                    },
                    None => {
                        assert(urls.deep_view() =~= Seq::empty());
                    },
                }
                urls
            },
            Kind::Bundle(bundle) => {
                assert(bundle.entries@.take(bundle.entries.len() as int) =~= bundle.entries@);
                image_urls_of_entries(&bundle.entries, bundle.entries.len())
            },
        }
    }
}

impl Default for Kind {
    fn default() -> (res: Self)
        ensures
            res@ == blank_kind(KindId::Specific),
    {
        Kind::from(KindId::Specific)
    }
}

/// An entry with nothing filled in: one piece of a specific gift.
pub open spec fn blank_entry() -> EntryView {
    EntryView {
        name: Seq::empty(),
        description: Seq::empty(),
        quantity: 1,
        reservations: Seq::empty(),
        tags: Seq::empty(),
        kind: blank_kind(KindId::Specific),
    }
}

impl Default for Entry {
    fn default() -> (res: Self)
        ensures
            res@ == blank_entry(),
            res.tags.wf(),
    {
        let res = Entry {
            name: String::new(),
            description: String::new(),
            quantity: 1,
            reservations: Vec::new(),
            tags: TagSet::new(),
            kind: Kind::from(KindId::Specific),
        };
        assert(res@.reservations =~= Seq::empty());
        res
    }
}

/// What a user keeps besides the lists: the lists of others that the user
/// has been invited to.
#[derive(Debug, Default)]
pub struct User {
    pub external_lists: Vec<ListId>,
}

/// A wishlist.
#[derive(Debug, Default)]
pub struct List {
    pub name: String,
    /// The users who have been invited to the list.
    pub invitees: Vec<String>,
    pub entries: Vec<Entry>,
}

/// A wishlist as plain values.
pub struct DocumentView {
    pub name: Seq<char>,
    pub invitees: Seq<Seq<char>>,
    pub entries: Seq<EntryView>,
}

impl View for List {
    type V = DocumentView;

    open spec fn view(&self) -> DocumentView {
        DocumentView {
            name: self.name@,
            invitees: self.invitees.deep_view(),
            entries: entries_view(self.entries@),
        }
    }
}

/// The place of an entry in a list: the index of an entry of the list, and
/// for an entry of a bundle its index in the bundle at that place.
#[derive(Clone, Copy, Debug, PartialEq, Eq, Structural)]
pub struct EntryPath {
    pub root: usize,
    pub bundle_idx: Option<usize>,
}

/// The plain values of a sequence with one entry more are those of the
/// sequence with the plain values of that entry put in at the same place.
pub proof fn lemma_entries_view_insert(entries: Seq<Entry>, at: int, entry: Entry)
    requires
        0 <= at <= entries.len(),
    ensures
        entries_view(entries.insert(at, entry)) == entries_view(entries).insert(
            at,
            entry_view(entry),
        ),
{
    let longer = entries.insert(at, entry);
    lemma_entries_view(entries);
    lemma_entries_view(longer);
    assert forall|i: int| 0 <= i < longer.len() implies entries_view(longer)[i] == entries_view(
        entries,
    ).insert(at, entry_view(entry))[i] by {
        assert(entries_view(longer)[i] == entry_view(longer[i]));
        if i < at {
            assert(longer[i] == entries[i]);
        } else if i > at {
            assert(longer[i] == entries[i - 1]);
        }
    }
    assert(entries_view(longer) =~= entries_view(entries).insert(at, entry_view(entry)));
}

/// The plain values of a sequence with one entry less are those of the
/// sequence without the plain values at the same place.
pub proof fn lemma_entries_view_remove(entries: Seq<Entry>, at: int)
    requires
        0 <= at < entries.len(),
    ensures
        entries_view(entries.remove(at)) == entries_view(entries).remove(at),
{
    let shorter = entries.remove(at);
    lemma_entries_view(entries);
    lemma_entries_view(shorter);
    assert forall|i: int| 0 <= i < shorter.len() implies entries_view(shorter)[i] == entries_view(
        entries,
    ).remove(at)[i] by {
        assert(entries_view(shorter)[i] == entry_view(shorter[i]));
        if i < at {
            assert(shorter[i] == entries[i]);
        } else {
            assert(shorter[i] == entries[i + 1]);
        }
    }
    assert(entries_view(shorter) =~= entries_view(entries).remove(at));
}

/// The entry at a place of a list, if the place exists.
pub open spec fn entry_at(list: DocumentView, path: EntryPath) -> Option<EntryView> {
    if path.root < list.entries.len() {
        let entry = list.entries[path.root as int];
        match path.bundle_idx {
            None => Some(entry),
            Some(idx) => match entry.kind {
                KindView::Bundle(entries) => if idx < entries.len() {
                    Some(entries[idx as int])
                } else {
                    None
                },
                _ => None,
            },
        }
    } else {
        None
    }
}

/// The names on the way to a place of a list, each with the place that it
/// names: the list, the entry of the list, and the entry of the bundle where
/// the place is in one. Nothing where the place does not exist.
pub open spec fn crumbs_to(list: DocumentView, path: EntryPath) -> Option<
    Seq<(Seq<char>, Option<EntryPath>)>,
> {
    if entry_at(list, path) is Some {
        let outer = list.entries[path.root as int];
        let head = seq![
            (list.name, None::<EntryPath>),
            (outer.name, Some(EntryPath { root: path.root, bundle_idx: None })),
        ];
        match path.bundle_idx {
            None => Some(head),
            Some(idx) => Some(head.push((entry_at(list, path).unwrap().name, Some(path)))),
        }
    } else {
        None
    }
}

/// The names of crumbs as plain text.
pub open spec fn crumbs_view(crumbs: Seq<(String, Option<EntryPath>)>) -> Seq<
    (Seq<char>, Option<EntryPath>),
> {
    crumbs.map_values(|crumb: (String, Option<EntryPath>)| (crumb.0@, crumb.1))
}

/// The smaller of an index and a length: where an entry goes in that is
/// aimed at the index.
pub open spec fn clamped(idx: usize, len: nat) -> int {
    if idx < len {
        idx as int
    } else {
        len as int
    }
}

/// An entry with other entries in its bundle.
pub open spec fn with_bundle(entry: EntryView, entries: Seq<EntryView>) -> EntryView {
    EntryView { kind: KindView::Bundle(entries), ..entry }
}

/// A list after an entry was added at a place, and the commit message of
/// the edit. A place in the list takes the entry at its index, or at the end
/// where the index is beyond it; a place in a bundle likewise. Where the
/// place names a bundle that the list does not have, nothing happens.
pub open spec fn added(list: DocumentView, path: EntryPath, entry: EntryView) -> (
    DocumentView,
    Option<Seq<char>>,
) {
    match path.bundle_idx {
        None => (
            DocumentView {
                entries: list.entries.insert(clamped(path.root, list.entries.len()), entry),
                ..list
            },
            Some(ADD_ITEM@),
        ),
        Some(idx) => if path.root < list.entries.len() {
            let outer = list.entries[path.root as int];
            match outer.kind {
                KindView::Bundle(entries) => (
                    DocumentView {
                        entries: list.entries.update(
                            path.root as int,
                            with_bundle(outer, entries.insert(clamped(idx, entries.len()), entry)),
                        ),
                        ..list
                    },
                    Some(ADD_ITEM_TO_BUNDLE@),
                ),
                _ => (list, None),
            }
        } else {
            (list, None)
        },
    }
}

/// A list after the entry at a place was removed, and the commit message of
/// the edit, which names the entry and, for an entry of a bundle, the
/// bundle. Where the place does not exist, nothing happens.
pub open spec fn removed(list: DocumentView, path: EntryPath) -> (
    DocumentView,
    Option<Seq<char>>,
) {
    if entry_at(list, path) is Some {
        let outer = list.entries[path.root as int];
        match path.bundle_idx {
            None => (
                DocumentView { entries: list.entries.remove(path.root as int), ..list },
                Some(REMOVE_ITEM@ + outer.name),
            ),
            Some(idx) => (
                DocumentView {
                    entries: list.entries.update(
                        path.root as int,
                        with_bundle(outer, outer.kind->Bundle_0.remove(idx as int)),
                    ),
                    ..list
                },
                Some(
                    REMOVE_ITEM@ + entry_at(list, path).unwrap().name + FROM_BUNDLE@ + outer.name,
                ),
            ),
        }
    } else {
        (list, None)
    }
}

impl EntryPath {
    /// The place of the entry of a list at an index.
    pub fn root(idx: usize) -> (res: EntryPath)
        ensures
            res == (EntryPath { root: idx, bundle_idx: None }),
    {
        EntryPath { root: idx, bundle_idx: None }
    }

    /// The place at an index of the bundle at this place.
    pub fn bundled(&self, idx: usize) -> (res: EntryPath)
        ensures
            res == (EntryPath { root: self.root, bundle_idx: Some(idx) }),
    {
        EntryPath { root: self.root, bundle_idx: Some(idx) }
    }

    /// The entry at this place of a list, if the place exists.
    pub fn resolve_entry<'a>(&self, list: &'a List) -> (res: Option<&'a Entry>)
        ensures
            match res {
                Some(entry) => entry_at(list@, *self) == Some(entry@),
                None => entry_at(list@, *self) is None,
            },
    {
        proof {
            lemma_entries_view(list.entries@);
        }
        if self.root >= list.entries.len() {
            return None;
        }
        let entry = &list.entries[self.root];
        match self.bundle_idx {
            None => Some(entry),
            Some(idx) => match &entry.kind {
                Kind::Bundle(bundle) => {
                    proof {
                        lemma_entries_view(bundle.entries@);
                    }
                    if idx < bundle.entries.len() {
                        Some(&bundle.entries[idx])
                    } else {
                        None
                    }
                },
                _ => None,
            },
        }
    }

    /// The names on the way to this place of a list, each with the place
    /// that it names; nothing where the place does not exist.
    pub fn resolve_crumbs(&self, list: &List) -> (res: Option<Vec<(String, Option<EntryPath>)>>)
        ensures
            match res {
                Some(crumbs) => crumbs_to(list@, *self) == Some(crumbs_view(crumbs@)),
                None => crumbs_to(list@, *self) is None,
            },
    {
        proof {
            lemma_entries_view(list.entries@);
        }
        match self.resolve_entry(list) {
            None => None,
            Some(entry) => {
                let outer = &list.entries[self.root];
                let mut crumbs: Vec<(String, Option<EntryPath>)> = Vec::new();
                crumbs.push((list.name.clone(), None));
                crumbs.push((outer.name.clone(), Some(EntryPath::root(self.root))));
                match self.bundle_idx {
                    None => {},
                    Some(_) => {
                        crumbs.push((entry.name.clone(), Some(*self)));
                    },
                }
                assert(crumbs_view(crumbs@) =~= crumbs_to(list@, *self).unwrap());
                Some(crumbs)
            },
        }
    }
}

impl List {
    /// Adds an entry at a place and gives the commit message of the edit. A
    /// place in the list takes the entry at its index, or at the end where
    /// the index is beyond it; a place in a bundle likewise. Where the place
    /// names a bundle that the list does not have, nothing happens and no
    /// message comes back.
    pub fn add_entry(&mut self, dst_path: EntryPath, entry: Entry) -> (message: Option<String>)
        ensures
            (final(self)@, message.deep_view()) == added(old(self)@, dst_path, entry@),
    {
        proof {
            lemma_entries_view(self.entries@);
        }
        match dst_path.bundle_idx {
            None => {
                let at = if dst_path.root < self.entries.len() {
                    dst_path.root
                } else {
                    self.entries.len()
                };
                proof {
                    lemma_entries_view_insert(self.entries@, at as int, entry);
                }
                self.entries.insert(at, entry);
                Some(ADD_ITEM.to_owned())
            },
            Some(idx) => {
                if dst_path.root >= self.entries.len() {
                    return None;
                }
                proof {
                    lemma_entries_view_remove(self.entries@, dst_path.root as int);
                }
                let outer = self.entries.remove(dst_path.root);
                let ghost outer_view = outer@;
                let Entry { name, description, quantity, reservations, tags, kind } = outer;
                match kind {
                    Kind::Bundle(bundle) => {
                        let mut inner = bundle.entries;
                        let at = if idx < inner.len() {
                            idx
                        } else {
                            inner.len()
                        };
                        proof {
                            lemma_entries_view(inner@);
                            lemma_entries_view_insert(inner@, at as int, entry);
                        }
                        inner.insert(at, entry);
                        let changed = Entry {
                            name,
                            description,
                            quantity,
                            reservations,
                            tags,
                            kind: Kind::Bundle(Bundle { entries: inner }),
                        };
                        proof {
                            lemma_entries_view_insert(self.entries@, dst_path.root as int, changed);
                        }
                        self.entries.insert(dst_path.root, changed);
                        assert(self@.entries =~= old(self)@.entries.update(
                            dst_path.root as int,
                            changed@,
                        ));
                        Some(ADD_ITEM_TO_BUNDLE.to_owned())
                    },
                    other => {
                        let same = Entry {
                            name,
                            description,
                            quantity,
                            reservations,
                            tags,
                            kind: other,
                        };
                        proof {
                            lemma_entries_view_insert(self.entries@, dst_path.root as int, same);
                        }
                        self.entries.insert(dst_path.root, same);
                        assert(self@.entries =~= old(self)@.entries);
                        None
                    },
                }
            },
        }
    }

    /// Removes the entry at a place and gives the commit message of the
    /// edit, which names the entry and, for an entry of a bundle, the bundle.
    /// Where the place does not exist, nothing happens and no message comes
    /// back.
    pub fn remove_entry(&mut self, path: EntryPath) -> (message: Option<String>)
        ensures
            (final(self)@, message.deep_view()) == removed(old(self)@, path),
    {
        proof {
            lemma_entries_view(self.entries@);
        }
        if path.root >= self.entries.len() {
            return None;
        }
        proof {
            lemma_entries_view_remove(self.entries@, path.root as int);
        }
        let outer = self.entries.remove(path.root);
        assert(outer@ == old(self)@.entries[path.root as int]);
        match path.bundle_idx {
            None => {
                let message = REMOVE_ITEM.to_owned().concat(outer.name.as_str());
                assert(message@ == REMOVE_ITEM@ + outer@.name);
                Some(message)
            },
            Some(idx) => {
                let Entry { name, description, quantity, reservations, tags, kind } = outer;
                match kind {
                    Kind::Bundle(bundle) => {
                        let mut inner = bundle.entries;
                        proof {
                            lemma_entries_view(inner@);
                        }
                        let ghost inner_before = inner@;
                        let message = if idx < inner.len() {
                            proof {
                                lemma_entries_view_remove(inner@, idx as int);
                            }
                            let gone = inner.remove(idx);
                            assert(gone@ == entries_view(inner_before)[idx as int]);
                            Some(
                                REMOVE_ITEM.to_owned().concat(gone.name.as_str()).concat(
                                    FROM_BUNDLE,
                                ).concat(name.as_str()),
                            )
                        } else {
                            None
                        };
                        let changed = Entry {
                            name,
                            description,
                            quantity,
                            reservations,
                            tags,
                            kind: Kind::Bundle(Bundle { entries: inner }),
                        };
                        proof {
                            lemma_entries_view_insert(self.entries@, path.root as int, changed);
                        }
                        self.entries.insert(path.root, changed);
                        assert(self@.entries =~= old(self)@.entries.update(
                            path.root as int,
                            changed@,
                        ));
                        proof {
                            if message is None {
                                assert(changed@ == old(self)@.entries[path.root as int]);
                                assert(self@.entries =~= old(self)@.entries);
                            }
                        }
                        message
                    },
                    other => {
                        let same = Entry {
                            name,
                            description,
                            quantity,
                            reservations,
                            tags,
                            kind: other,
                        };
                        proof {
                            lemma_entries_view_insert(self.entries@, path.root as int, same);
                        }
                        self.entries.insert(path.root, same);
                        assert(self@.entries =~= old(self)@.entries);
                        None
                    },
                }
            },
        }
    }
}

} // verus!
