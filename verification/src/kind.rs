//! The kinds of entries that a wishlist holds.
use vstd::prelude::*;
use vstd::string::*;
use crate::text::text_eq;

verus! {

/// The name of the kind of specific offers.
pub const SPECIFIC: &'static str = "Specific";

/// The name of the kind of ideas.
pub const IDEA: &'static str = "Idea";

/// The name of the kind of bundles.
pub const BUNDLE: &'static str = "Bundle";

/// A kind of entry, by name.
#[derive(Clone, Copy, Debug, PartialEq, Eq, Structural)]
pub enum KindName {
    Specific,
    Idea,
    Bundle,
}

/// The kind that a text names, if it names one.
pub open spec fn kind_named(s: Seq<char>) -> Option<KindName> {
    if s == SPECIFIC@ {
        Some(KindName::Specific)
    } else if s == IDEA@ {
        Some(KindName::Idea)
    } else if s == BUNDLE@ {
        Some(KindName::Bundle)
    } else {
        None
    }
}

impl KindName {
    /// The name of a kind.
    pub open spec fn spec_value(self) -> Seq<char> {
        match self {
            KindName::Specific => SPECIFIC@,
            KindName::Idea => IDEA@,
            KindName::Bundle => BUNDLE@,
        }
    }

    /// Every kind, in the order in which they are offered.
    pub fn all() -> (res: [KindName; 3])
        ensures
            res@ == seq![KindName::Specific, KindName::Idea, KindName::Bundle],
    {
        let res = [KindName::Specific, KindName::Idea, KindName::Bundle];
        assert(res@ =~= seq![KindName::Specific, KindName::Idea, KindName::Bundle]);
        res
    }

    /// The name of the kind.
    pub fn value(self) -> (res: &'static str)
        ensures
            res@ == self.spec_value(),
    {
        match self {
            KindName::Specific => SPECIFIC,
            KindName::Idea => IDEA,
            KindName::Bundle => BUNDLE,
        }
    }

    /// The kind that a text names; the text has to name one.
    pub fn from(s: &str) -> (res: KindName)
        requires
            kind_named(s@) is Some,
        ensures
            Some(res) == kind_named(s@),
    {
        if text_eq(s, SPECIFIC) {
            KindName::Specific
        } else if text_eq(s, IDEA) {
            KindName::Idea
        } else {
            KindName::Bundle
        }
    }

    /// The kind that a text names, or an error where it names none.
    pub fn from_str(s: &str) -> (res: Result<KindName, ()>)
        ensures
            res.ok() == kind_named(s@),
    {
        if text_eq(s, SPECIFIC) {
            Ok(KindName::Specific)
        } else if text_eq(s, IDEA) {
            Ok(KindName::Idea)
        } else if text_eq(s, BUNDLE) {
            Ok(KindName::Bundle)
        } else {
            Err(())
        }
    }
}

/// The name of a kind names that kind.
pub proof fn lemma_kind_name_round_trip(kind: KindName)
    ensures
        kind_named(kind.spec_value()) == Some(kind),
{
    reveal_strlit("Specific");
    reveal_strlit("Idea");
    reveal_strlit("Bundle");
    assert(SPECIFIC@.len() == 8);
    assert(IDEA@.len() == 4);
    assert(BUNDLE@.len() == 6);
}

/// What is told about specific offers.
pub const HELP_SPECIFIC: &'static str =
    "A specific offer found at the provided url. If gifting this item, please purchase the one at the url provided below.";

/// What is told about ideas.
pub const HELP_IDEA: &'static str =
    "An idea for a gift. Example offers may be provided, but please use you're best judgement when purchasing an item. The item need not be one listed below, just something like these.";

/// What is told about bundles.
pub const HELP_BUNDLE: &'static str =
    "A set of items. If purchasing this, please purchase all of its contents together. Example: a picture (idea) and a specific frame.";

/// A kind of entry, as an identifier.
#[derive(Clone, Copy, Debug, PartialEq, Eq, Structural)]
pub enum KindId {
    Specific,
    Idea,
    Bundle,
}

/// A text that names no kind.
#[derive(Debug)]
pub struct InvalidEnumStr(pub String);

/// The kind that a text identifies, if it identifies one.
pub open spec fn kind_identified(s: Seq<char>) -> Option<KindId> {
    match kind_named(s) {
        Some(KindName::Specific) => Some(KindId::Specific),
        Some(KindName::Idea) => Some(KindId::Idea),
        Some(KindName::Bundle) => Some(KindId::Bundle),
        None => None,
    }
}

impl KindId {
    /// The text of an identifier.
    pub open spec fn spec_text(self) -> Seq<char> {
        match self {
            KindId::Specific => SPECIFIC@,
            KindId::Idea => IDEA@,
            KindId::Bundle => BUNDLE@,
        }
    }

    /// What is told about a kind.
    pub open spec fn spec_help_info(self) -> Seq<char> {
        match self {
            KindId::Specific => HELP_SPECIFIC@,
            KindId::Idea => HELP_IDEA@,
            KindId::Bundle => HELP_BUNDLE@,
        }
    }

    /// Every kind, in the order in which they are offered.
    pub fn all() -> (res: [KindId; 3])
        ensures
            res@ == seq![KindId::Specific, KindId::Idea, KindId::Bundle],
    {
        let res = [KindId::Specific, KindId::Idea, KindId::Bundle];
        assert(res@ =~= seq![KindId::Specific, KindId::Idea, KindId::Bundle]);
        res
    }

    /// The text of the identifier.
    pub fn to_string(&self) -> (res: String)
        ensures
            res@ == self.spec_text(),
    {
        match self {
            KindId::Specific => SPECIFIC.to_owned(),
            KindId::Idea => IDEA.to_owned(),
            KindId::Bundle => BUNDLE.to_owned(),
        }
    }

    /// The kind that a text identifies, or the text where it identifies
    /// none.
    pub fn from_str(s: &str) -> (res: Result<KindId, InvalidEnumStr>)
        ensures
            match res {
                Ok(kind) => kind_identified(s@) == Some(kind),
                Err(InvalidEnumStr(text)) => kind_identified(s@) is None && text@ == s@,
            },
    {
        if text_eq(s, SPECIFIC) {
            Ok(KindId::Specific)
        } else if text_eq(s, IDEA) {
            Ok(KindId::Idea)
        } else if text_eq(s, BUNDLE) {
            Ok(KindId::Bundle)
        } else {
            Err(InvalidEnumStr(s.to_owned()))
        }
    }

    /// A sentence that tells a giver what the kind asks of them.
    pub fn help_info(&self) -> (res: &'static str)
        ensures
            res@ == self.spec_help_info(),
    {
        match self {
            KindId::Specific => HELP_SPECIFIC,
            KindId::Idea => HELP_IDEA,
            KindId::Bundle => HELP_BUNDLE,
        }
    }
}

/// The text of an identifier identifies its kind.
pub proof fn lemma_kind_id_round_trip(kind: KindId)
    ensures
        kind_identified(kind.spec_text()) == Some(kind),
{
    lemma_kind_name_round_trip(KindName::Specific);
    lemma_kind_name_round_trip(KindName::Idea);
    lemma_kind_name_round_trip(KindName::Bundle);
}

} // verus!
