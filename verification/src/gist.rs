//! Documents kept as gists: their identifiers, their visibility, and the
//! descriptions by which the documents of this application are told apart.
use vstd::prelude::*;
use vstd::string::*;
use crate::text::{
    has_prefix,
    lemma_text_before_total,
    lemma_text_before_transitive,
    precedes,
    starts_with,
    text_before,
    text_eq,
};

verus! {

/// The address under which the host serves gists.
pub const GISTS_URL: &'static str = "https://api.github.com/gists/";

/// The endpoint of all gists.
pub const GISTS_ENDPOINT: &'static str = "/gists";

/// What separates the prefix of a description from the document's name.
pub const NAME_SEPARATOR: &'static str = " - ";

/// The identifier of a gist.
#[derive(Debug, Default)]
pub struct GistId(pub String);

impl View for GistId {
    type V = Seq<char>;

    open spec fn view(&self) -> Seq<char> {
        self.0@
    }
}

impl DeepView for GistId {
    type V = Seq<char>;

    open spec fn deep_view(&self) -> Seq<char> {
        self@
    }
}

impl Clone for GistId {
    fn clone(&self) -> (res: Self)
        ensures
            res@ == self@,
    {
        GistId(self.0.clone())
    }
}

impl GistId {
    /// The identifier with this text.
    pub fn from(value: String) -> (res: GistId)
        ensures
            res@ == value@,
    {
        GistId(value)
    }

    /// The identifier with this text.
    pub fn from_str(s: &str) -> (res: Result<GistId, ()>)
        ensures
            res.is_ok(),
            res.unwrap()@ == s@,
    {
        Ok(GistId(s.to_owned()))
    }

    /// The text of the identifier.
    pub fn as_str(&self) -> (res: &str)
        ensures
            res@ == self@,
    {
        self.0.as_str()
    }

    /// The text of the identifier.
    pub fn to_string(&self) -> (res: String)
        ensures
            res@ == self@,
    {
        self.0.clone()
    }

    /// The address of the gist at the host.
    pub fn get_url(&self) -> (res: String)
        ensures
            res@ == GISTS_URL@ + self@,
    {
        GISTS_URL.to_owned().concat(self.0.as_str())
    }

    /// The endpoint of the gist.
    pub fn endpoint(&self) -> (res: String)
        ensures
            res@ == GISTS_ENDPOINT@ + seq!['/'] + self@,
    {
        proof {
            reveal_strlit("/");
            assert("/"@ =~= seq!['/']);
        }
        GISTS_ENDPOINT.to_owned().concat("/").concat(self.0.as_str())
    }
}

/// The value of a public gist.
pub const PUBLIC: &'static str = "public";

/// The value of a private gist.
pub const PRIVATE: &'static str = "private";

/// How a public gist is described to its owner.
pub const PUBLIC_LABEL: &'static str = "Anyone with link";

/// How a private gist is described to its owner.
pub const PRIVATE_LABEL: &'static str = "Only me";

/// The style class of the tag of a public gist.
pub const TAG_INFO: &'static str = "is-info";

/// The first style class of the tag of a private gist.
pub const TAG_DANGER: &'static str = "is-danger";

/// The second style class of the tag of a private gist.
pub const TAG_LIGHT: &'static str = "is-light";

/// Who can see a gist.
#[derive(Clone, Copy, Debug, PartialEq, Eq, Structural)]
pub enum Visibility {
    Public,
    Private,
}

impl Default for Visibility {
    fn default() -> (res: Self)
        ensures
            res == Visibility::Private,
    {
        Visibility::Private
    }
}

/// The visibility that a value names, if it names one.
pub open spec fn visibility_named(s: Seq<char>) -> Option<Visibility> {
    if s == PUBLIC@ {
        Some(Visibility::Public)
    } else if s == PRIVATE@ {
        Some(Visibility::Private)
    } else {
        None
    }
}

impl Visibility {
    /// The value of a visibility.
    pub open spec fn spec_value(self) -> Seq<char> {
        match self {
            Visibility::Public => PUBLIC@,
            Visibility::Private => PRIVATE@,
        }
    }

    /// How a visibility is described to the owner.
    pub open spec fn spec_label(self) -> Seq<char> {
        match self {
            Visibility::Public => PUBLIC_LABEL@,
            Visibility::Private => PRIVATE_LABEL@,
        }
    }

    /// The visibility of a gist that is public, or not.
    pub fn from(public: bool) -> (res: Visibility)
        ensures
            res == if public {
                Visibility::Public
            } else {
                Visibility::Private
            },
    {
        if public {
            Visibility::Public
        } else {
            Visibility::Private
        }
    }

    /// Whether the gist is public.
    pub fn into(self) -> (res: bool)
        ensures
            res == (self == Visibility::Public),
    {
        match self {
            Visibility::Public => true,
            Visibility::Private => false,
        }
    }

    /// The value that names the visibility.
    pub fn value(&self) -> (res: &'static str)
        ensures
            res@ == self.spec_value(),
    {
        match self {
            Visibility::Public => PUBLIC,
            Visibility::Private => PRIVATE,
        }
    }

    /// The visibility that a value names, or an error where it names none.
    pub fn from_str(s: &str) -> (res: Result<Visibility, ()>)
        ensures
            res.ok() == visibility_named(s@),
    {
        if text_eq(s, PUBLIC) {
            Ok(Visibility::Public)
        } else if text_eq(s, PRIVATE) {
            Ok(Visibility::Private)
        } else {
            Err(())
        }
    }

    /// The style classes of the tag that shows the visibility.
    pub fn tag_classes(&self) -> (res: Vec<&'static str>)
        ensures
            res@.len() == if *self == Visibility::Public {
                1nat
            } else {
                2nat
            },
            *self == Visibility::Public ==> res@[0]@ == TAG_INFO@,
            *self == Visibility::Private ==> res@[0]@ == TAG_DANGER@ && res@[1]@ == TAG_LIGHT@,
    {
        let mut classes: Vec<&'static str> = Vec::new();
        match self {
            Visibility::Public => {
                classes.push(TAG_INFO);
            },
            Visibility::Private => {
                classes.push(TAG_DANGER);
                classes.push(TAG_LIGHT);
            },
        }
        classes
    }

    /// How the visibility is described to the owner.
    pub fn to_string(&self) -> (res: String)
        ensures
            res@ == self.spec_label(),
    {
        match self {
            Visibility::Public => PUBLIC_LABEL.to_owned(),
            Visibility::Private => PRIVATE_LABEL.to_owned(),
        }
    }
}

/// The value of a visibility names that visibility.
pub proof fn lemma_visibility_round_trip(visibility: Visibility)
    ensures
        visibility_named(visibility.spec_value()) == Some(visibility),
{
    reveal_strlit("public");
    reveal_strlit("private");
    assert(PUBLIC@.len() == 6);
    assert(PRIVATE@.len() == 7);
}

/// What a list of gists tells of one wishlist.
#[derive(Debug)]
pub struct GistInfo {
    pub id: GistId,
    pub title: String,
    pub owner_login: String,
    pub visibility: Visibility,
}

/// Gist information as plain values.
pub struct GistInfoView {
    pub id: Seq<char>,
    pub title: Seq<char>,
    pub owner_login: Seq<char>,
    pub visibility: Visibility,
}

impl View for GistInfo {
    type V = GistInfoView;

    open spec fn view(&self) -> GistInfoView {
        GistInfoView {
            id: self.id@,
            title: self.title@,
            owner_login: self.owner_login@,
            visibility: self.visibility,
        }
    }
}

impl Clone for GistInfo {
    fn clone(&self) -> (res: Self)
        ensures
            res@ == self@,
    {
        GistInfo {
            id: self.id.clone(),
            title: self.title.clone(),
            owner_login: self.owner_login.clone(),
            visibility: self.visibility,
        }
    }
}

impl DeepView for GistInfo {
    type V = GistInfoView;

    open spec fn deep_view(&self) -> GistInfoView {
        self@
    }
}

/// A document that is kept as a gist. The description of its gist is the
/// prefix of the document's type, a separator, and the document's name.
pub trait GistDocument {
    /// The prefix that marks the document's type in a description.
    spec fn spec_prefix() -> Seq<char>;

    /// The name of the document.
    spec fn spec_name(&self) -> Seq<char>;

    /// The prefix that marks the document's type in a description.
    fn prefix() -> (res: &'static str)
        ensures
            res@ == Self::spec_prefix(),
    ;

    /// The name of the document, for use in the description.
    fn name(&self) -> (res: &str)
        ensures
            res@ == self.spec_name(),
    ;
}

/// What stands before the name in a description: prefix and separator.
pub open spec fn spec_name_prefix<T: GistDocument>() -> Seq<char> {
    T::spec_prefix() + NAME_SEPARATOR@
}

/// The description of the gist of a document.
pub open spec fn spec_description<T: GistDocument>(document: &T) -> Seq<char> {
    spec_name_prefix::<T>() + document.spec_name()
}

/// What stands before the name in a description: prefix and separator.
pub fn name_prefix<T: GistDocument>() -> (res: String)
    ensures
        res@ == spec_name_prefix::<T>(),
{
    T::prefix().to_owned().concat(NAME_SEPARATOR)
}

/// The description of the gist of a document.
pub fn description<T: GistDocument>(document: &T) -> (res: String)
    ensures
        res@ == spec_description(document),
{
    name_prefix::<T>().concat(document.name())
}

/// The name in a description that begins with prefix and separator.
pub fn parse_name_from<T: GistDocument>(description: &str) -> (res: String)
    requires
        has_prefix(description@, spec_name_prefix::<T>()),
    ensures
        res@ == description@.skip(spec_name_prefix::<T>().len() as int),
{
    let prefix = name_prefix::<T>();
    let from: usize = prefix.as_str().unicode_len();
    let to: usize = description.unicode_len();
    let res = description.substring_char(from, to).to_owned();
    assert(res@ =~= description@.skip(spec_name_prefix::<T>().len() as int));
    res
}

/// The name of a document is read back from its description.
pub proof fn lemma_description_holds_name<T: GistDocument>(document: &T)
    ensures
        has_prefix(spec_description(document), spec_name_prefix::<T>()),
        spec_description(document).skip(spec_name_prefix::<T>().len() as int)
            == document.spec_name(),
{
    let prefix = spec_name_prefix::<T>();
    let whole = spec_description(document);
    assert(whole.subrange(0, prefix.len() as int) =~= prefix);
    assert(whole.skip(prefix.len() as int) =~= document.spec_name());
}

/// A document with what is known of its gist.
#[derive(Debug)]
pub struct Gist<T> {
    /// The identifier, once the gist exists.
    pub id: Option<GistId>,
    pub description: String,
    pub visibility: Visibility,
    pub owner_login: String,
    pub file: T,
}

impl<T: GistDocument> Gist<T> {
    /// A gist for a document that has none yet: private, without owner,
    /// described by the document's type and name.
    pub fn from(document: T) -> (res: Gist<T>)
        ensures
            res.id is None,
            res.description@ == spec_description(&document),
            res.visibility == Visibility::Private,
            res.owner_login@ == Seq::<char>::empty(),
            res.file == document,
    {
        let description = description(&document);
        Gist {
            id: None,
            description,
            visibility: Visibility::Private,
            owner_login: String::new(),
            file: document,
        }
    }

    /// The same gist with another visibility.
    pub fn with_visibility(self, value: Visibility) -> (res: Gist<T>)
        ensures
            res.visibility == value,
            res.id == self.id,
            res.description == self.description,
            res.owner_login == self.owner_login,
            res.file == self.file,
    {
        let mut gist = self;
        gist.visibility = value;
        gist
    }

    /// The same gist with another owner.
    pub fn with_owner(self, value: String) -> (res: Gist<T>)
        ensures
            res.owner_login == value,
            res.id == self.id,
            res.description == self.description,
            res.visibility == self.visibility,
            res.file == self.file,
    {
        let mut gist = self;
        gist.owner_login = value;
        gist
    }

    /// The endpoint that saves the gist: its own where it exists, that of
    /// all gists where it has to be created.
    pub fn save_endpoint(&self) -> (res: String)
        ensures
            res@ == match self.id {
                Some(id) => GISTS_ENDPOINT@ + seq!['/'] + id@,
                None => GISTS_ENDPOINT@,
            },
    {
        match &self.id {
            Some(id) => id.endpoint(),
            None => GISTS_ENDPOINT.to_owned(),
        }
    }
}

/// The prefix of the description of the user's private data.
pub const USER_DATA_PREFIX: &'static str = "wishlist::private";

/// The name of the user's private data.
pub const USER_DATA_NAME: &'static str = "App User Data";

/// The prefix of the description of a wishlist.
pub const LIST_PREFIX: &'static str = "wishlist::document";

/// What the application keeps of a user in a private gist.
#[derive(Clone, Copy, Debug, Default, PartialEq, Eq, Structural)]
pub struct AppUserData {}

impl GistDocument for AppUserData {
    open spec fn spec_prefix() -> Seq<char> {
        USER_DATA_PREFIX@
    }

    open spec fn spec_name(&self) -> Seq<char> {
        USER_DATA_NAME@
    }

    fn prefix() -> (res: &'static str) {
        USER_DATA_PREFIX
    }

    fn name(&self) -> (res: &str) {
        USER_DATA_NAME
    }
}

/// A wishlist kept as a gist.
#[derive(Debug, Default)]
pub struct List {
    pub name: String,
}

impl List {
    /// A wishlist with this name.
    pub fn new(name: String) -> (res: List)
        ensures
            res.name == name,
    {
        List { name }
    }
}

impl GistDocument for List {
    open spec fn spec_prefix() -> Seq<char> {
        LIST_PREFIX@
    }

    open spec fn spec_name(&self) -> Seq<char> {
        self.name@
    }

    fn prefix() -> (res: &'static str) {
        LIST_PREFIX
    }

    fn name(&self) -> (res: &str) {
        self.name.as_str()
    }
}

/// What the host lists of a gist.
#[derive(Debug)]
pub struct GistSummary {
    pub id: String,
    pub description: String,
    pub owner_login: String,
    pub public: bool,
}

/// What a listed gist is to the application.
#[derive(Debug)]
pub enum GistClass {
    /// The gist of the user's private data.
    UserData(GistId),
    /// The gist of a wishlist.
    Wishlist(GistInfo),
    /// A gist of something else.
    Other,
}

/// The answer to who is signed in.
#[derive(Clone, Copy, Debug, Default)]
pub struct FetchCurrentUser;

/// The question that the host is asked about the signed-in user.
pub const VIEWER_QUERY: &'static str = "query { viewer { login name avatarUrl } }";

impl FetchCurrentUser {
    /// The question that the host is asked.
    pub fn query() -> (res: &'static str)
        ensures
            res@ == VIEWER_QUERY@,
    {
        VIEWER_QUERY
    }
}

/// The gists of the signed-in user, read page by page.
#[derive(Clone, Copy, Debug, Default)]
pub struct FetchProfile;

/// How many gists are asked for at a time.
pub const ENTRIES_PER_PAGE: usize = 10;

impl FetchProfile {
    /// Whether a page with this many gists is the last one: a page that is
    /// not full.
    pub fn is_last_page(count: usize) -> (res: bool)
        ensures
            res == (count < ENTRIES_PER_PAGE),
    {
        count < ENTRIES_PER_PAGE
    }

    /// What a listed gist is to the application. The first gist described as
    /// private data is the user's; one described as a wishlist, with a name,
    /// is a wishlist under that name; anything else is left aside.
    pub fn classify(user_data_known: bool, gist: &GistSummary) -> (res: GistClass)
        ensures
            match res {
                GistClass::UserData(id) => !user_data_known && has_prefix(
                    gist.description@,
                    USER_DATA_PREFIX@,
                ) && id@ == gist.id@,
                GistClass::Wishlist(info) => !(!user_data_known && has_prefix(
                    gist.description@,
                    USER_DATA_PREFIX@,
                )) && has_prefix(gist.description@, spec_name_prefix::<List>()) && info@ == (
                GistInfoView {
                    id: gist.id@,
                    title: gist.description@.skip(spec_name_prefix::<List>().len() as int),
                    owner_login: gist.owner_login@,
                    visibility: if gist.public {
                        Visibility::Public
                    } else {
                        Visibility::Private
                    },
                }),
                GistClass::Other => !(!user_data_known && has_prefix(
                    gist.description@,
                    USER_DATA_PREFIX@,
                )) && !has_prefix(gist.description@, spec_name_prefix::<List>()),
            },
    {
        if !user_data_known && starts_with(gist.description.as_str(), USER_DATA_PREFIX) {
            GistClass::UserData(GistId::from(gist.id.clone()))
        } else if starts_with(gist.description.as_str(), name_prefix::<List>().as_str()) {
            GistClass::Wishlist(
                GistInfo {
                    id: GistId::from(gist.id.clone()),
                    title: parse_name_from::<List>(gist.description.as_str()),
                    owner_login: gist.owner_login.clone(),
                    visibility: Visibility::from(gist.public),
                },
            )
        } else {
            GistClass::Other
        }
    }
}

/// No title of the sequence comes before one that stands before it.
pub open spec fn ordered_by_title(lists: Seq<GistInfoView>) -> bool {
    forall|i: int, j: int|
        0 <= i < j < lists.len() ==> !text_before(lists[j].title, lists[i].title)
}

/// How many wishlists at the start of the sequence have a title that does
/// not come after `title`: the place behind the last of them, in a sequence
/// ordered by title.
pub open spec fn title_rank(lists: Seq<GistInfoView>, title: Seq<char>) -> int
    decreases lists.len(),
{
    if lists.len() > 0 && !text_before(title, lists[0].title) {
        1 + title_rank(lists.drop_first(), title)
    } else {
        0
    }
}

/// The wishlists ordered by title; those of one title keep their order.
pub open spec fn sorted_by_title(lists: Seq<GistInfoView>) -> Seq<GistInfoView>
    decreases lists.len(),
{
    if lists.len() == 0 {
        lists
    } else {
        let front = sorted_by_title(lists.drop_last());
        front.insert(title_rank(front, lists.last().title), lists.last())
    }
}

/// The rank of a title is in range; no title before it comes after the
/// title, and the title at it, if there is one, does.
pub proof fn lemma_title_rank(lists: Seq<GistInfoView>, title: Seq<char>)
    ensures
        0 <= title_rank(lists, title) <= lists.len(),
        forall|i: int|
            0 <= i < title_rank(lists, title) ==> !text_before(title, (#[trigger] lists[i]).title),
        title_rank(lists, title) < lists.len() ==> text_before(
            title,
            lists[title_rank(lists, title)].title,
        ),
    decreases lists.len(),
{
    if lists.len() > 0 && !text_before(title, lists[0].title) {
        let rest = lists.drop_first();
        lemma_title_rank(rest, title);
        assert forall|i: int| 0 <= i < title_rank(lists, title) implies !text_before(
            title,
            (#[trigger] lists[i]).title,
        ) by {
            if i > 0 {
                assert(lists[i] == rest[i - 1]);
            }
        }
        if title_rank(lists, title) < lists.len() {
            assert(lists[title_rank(lists, title)] == rest[title_rank(rest, title)]);
        }
    }
}

/// A place before which no title comes after `title`, and at which one
/// does, is the rank of `title`.
pub proof fn lemma_title_rank_is(lists: Seq<GistInfoView>, title: Seq<char>, at: int)
    requires
        0 <= at <= lists.len(),
        forall|i: int| 0 <= i < at ==> !text_before(title, (#[trigger] lists[i]).title),
        at < lists.len() ==> text_before(title, lists[at].title),
    ensures
        title_rank(lists, title) == at,
{
    lemma_title_rank(lists, title);
    let r = title_rank(lists, title);
    if r < at {
        assert(!text_before(title, lists[r].title));
    }
    if at < r {
        assert(!text_before(title, lists[at].title));
    }
}

/// Of three titles of which none comes before the one ahead of it, the last
/// does not come before the first.
pub proof fn lemma_not_before_transitive(a: Seq<char>, b: Seq<char>, c: Seq<char>)
    requires
        !text_before(b, a),
        !text_before(c, b),
    ensures
        !text_before(c, a),
{
    lemma_text_before_total(a, b);
    if text_before(c, a) {
        if a == b {
        } else {
            lemma_text_before_transitive(c, a, b);
        }
    }
}

/// The wishlists ordered by title are ordered by title, and are the same
/// wishlists, each as often as before.
pub proof fn lemma_sorted_by_title(lists: Seq<GistInfoView>)
    ensures
        ordered_by_title(sorted_by_title(lists)),
        sorted_by_title(lists).len() == lists.len(),
        sorted_by_title(lists).to_multiset() == lists.to_multiset(),
    decreases lists.len(),
{
    if lists.len() == 0 {
    } else {
        let front = sorted_by_title(lists.drop_last());
        let last = lists.last();
        let r = title_rank(front, last.title);
        let out = front.insert(r, last);
        lemma_sorted_by_title(lists.drop_last());
        lemma_title_rank(front, last.title);
        assert forall|i: int, j: int| 0 <= i < j < out.len() implies !text_before(
            out[j].title,
            out[i].title,
        ) by {
            let i0 = if i < r { i } else { i - 1 };
            let j0 = if j < r { j } else { j - 1 };
            if j == r {
                assert(out[i] == front[i]);
            } else if i == r {
                assert(out[j] == front[j0]);
                crate::text::lemma_text_before_asymmetric(last.title, front[r].title);
                if j0 > r {
                    lemma_not_before_transitive(last.title, front[r].title, front[j0].title);
                }
            } else {
                assert(out[i] == front[i0] && out[j] == front[j0]);
            }
        }
        vstd::seq_lib::to_multiset_insert(front, r, last);
        vstd::seq_lib::to_multiset_build(lists.drop_last(), last);
        assert(lists.drop_last().push(last) =~= lists);
    }
}

impl FetchProfile {
    /// Orders wishlists by title; those of one title keep their order.
    pub fn sort_by_title(lists: &Vec<GistInfo>) -> (res: Vec<GistInfo>)
        ensures
            res.deep_view() == sorted_by_title(lists.deep_view()),
    {
        let mut sorted: Vec<GistInfo> = Vec::new();
        let mut n: usize = 0;
        assert(lists.deep_view().take(0) =~= Seq::<GistInfoView>::empty());
        while n < lists.len()
            invariant
                n <= lists.len(),
                sorted.len() == n,
                sorted.deep_view() == sorted_by_title(lists.deep_view().take(n as int)),
            decreases lists.len() - n,
        {
            let next = lists[n].clone();
            let mut at: usize = 0;
            while at < sorted.len() && !precedes(next.title.as_str(), sorted[at].title.as_str())
                invariant
                    at <= sorted.len(),
                    forall|i: int|
                        0 <= i < at ==> !text_before(
                            next.title@,
                            (#[trigger] sorted.deep_view()[i]).title,
                        ),
                decreases sorted.len() - at,
            {
                at = at + 1;
            }
            proof {
                lemma_title_rank_is(sorted.deep_view(), next.title@, at as int);
                let taken = lists.deep_view().take(n + 1);
                assert(taken.drop_last() =~= lists.deep_view().take(n as int));
                assert(taken.last() == next@);
            }
            let ghost before = sorted.deep_view();
            sorted.insert(at, next);
            assert(sorted.deep_view() =~= before.insert(at as int, next@));
            n = n + 1;
        }
        assert(lists.deep_view().take(n as int) =~= lists.deep_view());
        sorted
    }
}

} // verus!
