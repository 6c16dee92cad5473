//! Fresh ids for new lists: a random slug that no list of the owner has yet.
use vstd::prelude::*;
use vstd::string::*;
use crate::list_id::{ListId, ListIdView};
use crate::store::{RecordStore, StoreView};

verus! {

/// How many characters the slug of a new list has.
pub const LIST_SLUG_LENGTH: usize = 10;

/// The longest text that can be asked for.
pub const MAX_TEXT_LENGTH: usize = 0x7fff_ffff;

/// Whether a character may stand in a slug: a letter or a digit of ASCII, a
/// hyphen or an underscore.
pub open spec fn is_slug_char(c: char) -> bool {
    c == '_' || c == '-' || ('0' as u32 <= c as u32 <= '9' as u32) || ('a' as u32 <= c as u32
        <= 'z' as u32) || ('A' as u32 <= c as u32 <= 'Z' as u32)
}

/// Whether a text is made of slug characters only.
pub open spec fn is_slug(s: Seq<char>) -> bool {
    forall|i: int| 0 <= i < s.len() ==> is_slug_char(#[trigger] s[i])
}

/// Whether a text can be the slug of a new list: `LIST_SLUG_LENGTH` slug
/// characters.
pub open spec fn is_new_slug(s: Seq<char>) -> bool {
    s.len() == LIST_SLUG_LENGTH && is_slug(s)
}

/// Whether a store has no list of `owner` under any slug that a new list
/// can get: whichever slug chance picks, it is free.
pub open spec fn every_new_slug_is_free(store: StoreView, owner: Seq<char>) -> bool {
    forall|slug: Seq<char>| #[trigger]
        is_new_slug(slug) ==> store.list(ListIdView { owner, id: slug }) is None
}

/// A random text of `size` characters. Calls `nanoid::format` with the
/// generator `nanoid::rngs::default` and the alphabet
/// `nanoid::alphabet::SAFE`, whose 64 characters are the letters and digits
/// of ASCII, the hyphen and the underscore: the generator hands back `size`
/// bytes, and each of them picks one character of the alphabet. Which
/// characters come is left to chance, so nothing more is claimed.
#[verifier::external_body]
fn random_text(size: usize) -> (res: String)
    requires
        size <= MAX_TEXT_LENGTH,
    ensures
        res@.len() == size,
        is_slug(res@),
{
    nanoid::format(nanoid::rngs::default, &nanoid::alphabet::SAFE, size)
}

/// The id of a new list of `owner` with this slug, unless the store has a
/// list with that id already.
pub fn claim_list_id(store: &RecordStore, owner: &str, slug: String) -> (res: Option<ListId>)
    ensures
        res.is_some() == (store@.list(ListIdView { owner: owner@, id: slug@ }) is None),
        res.is_some() ==> res.unwrap()@ == (ListIdView { owner: owner@, id: slug@ }),
{
    let id = ListId { owner: owner.to_owned(), id: slug };
    if store.get_list(&id).is_some() {
        None
    } else {
        Some(id)
    }
}

impl RecordStore {
    /// Tries one random slug for a new list of `owner`. The id that comes
    /// back belongs to `owner`, has a slug of `LIST_SLUG_LENGTH` slug
    /// characters, and is not taken in the store. Nothing comes back only
    /// where chance hit upon a slug that is taken, under which the store
    /// then has a list of `owner`: the caller tries again. So an id always
    /// comes back where every slug that a new list can get is free, as in a
    /// store without lists of `owner`.
    pub fn new_list_id(&self, owner: &str) -> (res: Option<ListId>)
        ensures
            res.is_some() ==> res.unwrap()@.owner == owner@ && is_new_slug(res.unwrap()@.id)
                && self@.list(res.unwrap()@) is None,
            res.is_none() ==> exists|slug: Seq<char>| #[trigger]
                is_new_slug(slug) && self@.list(ListIdView { owner: owner@, id: slug }) is Some,
            every_new_slug_is_free(self@, owner@) ==> res.is_some(),
    {
        let slug = random_text(LIST_SLUG_LENGTH);
        assert(is_new_slug(slug@));
        claim_list_id(self, owner, slug)
    }
}

} // verus!
