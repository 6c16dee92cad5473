//! The identity of a wishlist: its owner's login and the list's slug.
use vstd::prelude::*;
use vstd::string::*;
use vstd::std_specs::cmp::PartialEqSpecImpl;
use crate::search::{first_index_of, lemma_first_index_of};
use crate::text::{file_stem, find_char, names_file, path_stem};

verus! {

/// The composite key of a list: the owner's login and the slug, which is the
/// stem of the list's file in the owner's repository.
#[derive(Debug, Default)]
pub struct ListId {
    pub owner: String,
    pub id: String,
}

/// A list id as plain text: owner and slug.
pub struct ListIdView {
    pub owner: Seq<char>,
    pub id: Seq<char>,
}

impl View for ListId {
    type V = ListIdView;

    open spec fn view(&self) -> ListIdView {
        ListIdView { owner: self.owner@, id: self.id@ }
    }
}

impl DeepView for ListId {
    type V = ListIdView;

    open spec fn deep_view(&self) -> ListIdView {
        self@
    }
}

impl ListIdView {
    /// The text form of an id: owner, a slash, slug.
    pub open spec fn key(self) -> Seq<char> {
        self.owner + seq!['/'] + self.id
    }
}

impl Clone for ListId {
    fn clone(&self) -> (res: Self)
        ensures
            res@ == self@,
    {
        ListId { owner: self.owner.clone(), id: self.id.clone() }
    }
}

impl PartialEq for ListId {
    fn eq(&self, other: &Self) -> (res: bool) {
        self.owner == other.owner && self.id == other.id
    }
}

impl PartialEqSpecImpl for ListId {
    open spec fn obeys_eq_spec() -> bool {
        true
    }

    open spec fn eq_spec(&self, other: &Self) -> bool {
        self.owner@ == other.owner@ && self.id@ == other.id@
    }
}

/// Why a text is no list id.
#[derive(Debug)]
pub enum ListIdParserError {
    /// The text holds no owner segment.
    MissingOwner(String),
    /// The text holds no slash, so no slug follows the owner.
    MissingName(String),
}

/// What stands in `s` before its first slash: the owner segment.
pub open spec fn owner_segment(s: Seq<char>) -> Seq<char> {
    s.subrange(0, first_index_of(s, '/'))
}

/// What stands in `s` between its first slash and the next one, or the end.
/// Meant for a text that holds a slash.
pub open spec fn name_segment(s: Seq<char>) -> Seq<char> {
    let rest = s.subrange(first_index_of(s, '/') + 1, s.len() as int);
    rest.subrange(0, first_index_of(rest, '/'))
}

impl ListId {
    /// Whether two ids name the same list.
    pub fn same(&self, other: &ListId) -> (res: bool)
        ensures
            res == (self@ == other@),
    {
        self.owner == other.owner && self.id == other.id
    }

    /// The text form `owner/slug`.
    pub fn to_string(&self) -> (res: String)
        ensures
            res@ == self@.key(),
    {
        proof {
            reveal_strlit("/");
            assert("/"@ =~= seq!['/']);
        }
        self.owner.clone().concat("/").concat(self.id.as_str())
    }

    /// Reads the text form: the first two segments between slashes are owner
    /// and slug, and a text without a slash is refused for want of a slug.
    pub fn from_str(s: &str) -> (res: Result<ListId, ListIdParserError>)
        ensures
            match res {
                Ok(id) => first_index_of(s@, '/') < s@.len() && id@.owner == owner_segment(s@)
                    && id@.id == name_segment(s@),
                Err(ListIdParserError::MissingName(text)) => first_index_of(s@, '/') == s@.len()
                    && text@ == s@,
                Err(ListIdParserError::MissingOwner(_)) => false,
            },
    {
        let n: usize = s.unicode_len();
        match find_char(s, '/') {
            None => Err(ListIdParserError::MissingName(s.to_owned())),
            Some(first) => {
                let owner = s.substring_char(0, first);
                let rest = s.substring_char(first + 1, n);
                let m: usize = rest.unicode_len();
                proof {
                    lemma_first_index_of(rest@, '/');
                }
                let end: usize = match find_char(rest, '/') {
                    Some(i) => i,
                    None => m,
                };
                let id = rest.substring_char(0, end);
                Ok(ListId { owner: owner.to_owned(), id: id.to_owned() })
            },
        }
    }

    /// The id of the list that `owner` keeps in the file at `path`: the slug
    /// is the file's stem. The path has to name a file: the empty path, a
    /// path that ends in `/` and a path that ends in `.` or `..` name none,
    /// and `has_file_name` tells.
    pub fn from_path(owner: &str, path: &str) -> (res: ListId)
        requires
            names_file(path@),
        ensures
            res@.owner == owner@,
            res@.id == file_stem(path@),
    {
        ListId { owner: owner.to_owned(), id: path_stem(path) }
    }
}

} // verus!
