//! A set of tags: texts kept in their order, none twice. The set is a sorted
//! vector, so that the order in which the tags come out and what the set
//! holds after each call can be stated and proved.
use vstd::prelude::*;
use vstd::string::*;
use crate::text::{
    lemma_text_before_irreflexive,
    lemma_text_before_total,
    lemma_text_before_transitive,
    precedes,
    text_before,
    text_eq,
};

verus! {

/// Each text of the sequence comes before those behind it.
pub open spec fn ascending(tags: Seq<Seq<char>>) -> bool {
    forall|i: int, j: int| 0 <= i < j < tags.len() ==> text_before(tags[i], tags[j])
}

/// How many texts at the start of the sequence come before `tag`: the
/// place of `tag` in an ascending sequence.
pub open spec fn rank(tags: Seq<Seq<char>>, tag: Seq<char>) -> int
    decreases tags.len(),
{
    if tags.len() > 0 && text_before(tags[0], tag) {
        1 + rank(tags.drop_first(), tag)
    } else {
        0
    }
}

/// The sequence with `tag` at its place, unless it holds `tag` already.
pub open spec fn with_tag(tags: Seq<Seq<char>>, tag: Seq<char>) -> Seq<Seq<char>> {
    if tags.contains(tag) {
        tags
    } else {
        tags.insert(rank(tags, tag), tag)
    }
}

/// The sequence without `tag`.
pub open spec fn without_tag(tags: Seq<Seq<char>>, tag: Seq<char>) -> Seq<Seq<char>> {
    if tags.contains(tag) {
        tags.remove(rank(tags, tag))
    } else {
        tags
    }
}

/// The rank of a text is the first place whose text does not come before
/// it.
pub proof fn lemma_rank(tags: Seq<Seq<char>>, tag: Seq<char>)
    ensures
        0 <= rank(tags, tag) <= tags.len(),
        forall|i: int| 0 <= i < rank(tags, tag) ==> text_before(#[trigger] tags[i], tag),
        rank(tags, tag) < tags.len() ==> !text_before(tags[rank(tags, tag)], tag),
    decreases tags.len(),
{
    if tags.len() > 0 && text_before(tags[0], tag) {
        let rest = tags.drop_first();
        lemma_rank(rest, tag);
        assert forall|i: int| 0 <= i < rank(tags, tag) implies text_before(
            #[trigger] tags[i],
            tag,
        ) by {
            if i > 0 {
                assert(tags[i] == rest[i - 1]);
            }
        }
        if rank(tags, tag) < tags.len() {
            assert(tags[rank(tags, tag)] == rest[rank(rest, tag)]);
        }
    }
}

/// A place before which every text comes before `tag`, and at which none
/// does, is the rank of `tag`.
pub proof fn lemma_rank_is(tags: Seq<Seq<char>>, tag: Seq<char>, at: int)
    requires
        0 <= at <= tags.len(),
        forall|i: int| 0 <= i < at ==> text_before(#[trigger] tags[i], tag),
        at < tags.len() ==> !text_before(tags[at], tag),
    ensures
        rank(tags, tag) == at,
{
    lemma_rank(tags, tag);
    let r = rank(tags, tag);
    if r < at {
        assert(text_before(tags[r], tag));
    }
    if at < r {
        assert(text_before(tags[at], tag));
    }
}

/// In an ascending sequence a text stands at its rank, if it stands in the
/// sequence at all.
pub proof fn lemma_found_at_rank(tags: Seq<Seq<char>>, tag: Seq<char>)
    requires
        ascending(tags),
    ensures
        tags.contains(tag) == (rank(tags, tag) < tags.len() && tags[rank(tags, tag)] == tag),
{
    lemma_rank(tags, tag);
    let r = rank(tags, tag);
    if tags.contains(tag) {
        let k = choose|k: int| 0 <= k < tags.len() && tags[k] == tag;
        lemma_text_before_irreflexive(tag);
        if k < r {
            assert(text_before(tags[k], tag));
        }
        if r < k {
            assert(text_before(tags[r], tags[k]));
        }
    }
}

/// Putting a text into an ascending sequence keeps it ascending; the result
/// holds the text, and besides it what the sequence held.
pub proof fn lemma_with_tag(tags: Seq<Seq<char>>, tag: Seq<char>)
    requires
        ascending(tags),
    ensures
        ascending(with_tag(tags, tag)),
        with_tag(tags, tag).contains(tag),
        forall|other: Seq<char>|
            other != tag ==> with_tag(tags, tag).contains(other) == tags.contains(other),
{
    lemma_rank(tags, tag);
    lemma_found_at_rank(tags, tag);
    let r = rank(tags, tag);
    let out = with_tag(tags, tag);
    if !tags.contains(tag) {
        assert(out[r] == tag);
        assert forall|i: int, j: int| 0 <= i < j < out.len() implies text_before(
            out[i],
            out[j],
        ) by {
            let i0 = if i < r { i } else { i - 1 };
            let j0 = if j < r { j } else { j - 1 };
            if j == r {
                assert(out[i] == tags[i]);
            } else if i == r {
                assert(out[j] == tags[j0]);
                lemma_text_before_total(tags[r], tag);
                if j0 > r {
                    assert(text_before(tags[r], tags[j0]));
                    lemma_text_before_transitive(tag, tags[r], tags[j0]);
                }
            } else {
                assert(out[i] == tags[i0] && out[j] == tags[j0]);
            }
        }
        assert forall|other: Seq<char>| other != tag implies out.contains(other) == tags.contains(
            other,
        ) by {
            if tags.contains(other) {
                let k = choose|k: int| 0 <= k < tags.len() && tags[k] == other;
                let k1 = if k < r { k } else { k + 1 };
                assert(out[k1] == other);
            }
            if out.contains(other) {
                let k = choose|k: int| 0 <= k < out.len() && out[k] == other;
                let k0 = if k < r { k } else { k - 1 };
                assert(tags[k0] == other);
            }
        }
    }
}

/// Taking a text out of an ascending sequence keeps it ascending; the
/// result does not hold the text, and holds what else the sequence held.
pub proof fn lemma_without_tag(tags: Seq<Seq<char>>, tag: Seq<char>)
    requires
        ascending(tags),
    ensures
        ascending(without_tag(tags, tag)),
        !without_tag(tags, tag).contains(tag),
        forall|other: Seq<char>|
            other != tag ==> without_tag(tags, tag).contains(other) == tags.contains(other),
{
    lemma_rank(tags, tag);
    lemma_found_at_rank(tags, tag);
    let r = rank(tags, tag);
    let out = without_tag(tags, tag);
    if tags.contains(tag) {
        assert forall|i: int, j: int| 0 <= i < j < out.len() implies text_before(
            out[i],
            out[j],
        ) by {
            let i0 = if i < r { i } else { i + 1 };
            let j0 = if j < r { j } else { j + 1 };
            assert(out[i] == tags[i0] && out[j] == tags[j0]);
        }
        if out.contains(tag) {
            let k = choose|k: int| 0 <= k < out.len() && out[k] == tag;
            let k0 = if k < r { k } else { k + 1 };
            assert(tags[k0] == tag);
            lemma_text_before_irreflexive(tag);
            if k0 < r {
                assert(text_before(tags[k0], tags[r]));
            } else {
                assert(text_before(tags[r], tags[k0]));
            }
        }
        assert forall|other: Seq<char>| other != tag implies out.contains(other) == tags.contains(
            other,
        ) by {
            if tags.contains(other) {
                let k = choose|k: int| 0 <= k < tags.len() && tags[k] == other;
                let k1 = if k < r { k } else { k - 1 };
                assert(out[k1] == other);
            }
            if out.contains(other) {
                let k = choose|k: int| 0 <= k < out.len() && out[k] == other;
                let k0 = if k < r { k } else { k + 1 };
                assert(tags[k0] == other);
            }
        }
    }
}

/// The tags of an entry.
#[derive(Debug, Default)]
pub struct TagSet {
    tags: Vec<String>,
}

impl View for TagSet {
    type V = Seq<Seq<char>>;

    closed spec fn view(&self) -> Seq<Seq<char>> {
        self.tags.deep_view()
    }
}

impl Clone for TagSet {
    fn clone(&self) -> (res: Self)
        ensures
            res@ == self@,
    {
        let mut tags: Vec<String> = Vec::new();
        let mut i: usize = 0;
        while i < self.tags.len()
            invariant
                i <= self.tags.len(),
                tags.len() == i,
                forall|j: int| 0 <= j < i ==> tags[j]@ == self.tags[j]@,
            decreases self.tags.len() - i,
        {
            tags.push(self.tags[i].clone());
            i = i + 1;
        }
        let res = TagSet { tags };
        assert(res@ =~= self@);
        res
    }
}

impl TagSet {
    /// The tags stand in their order, none twice.
    pub open spec fn wf(&self) -> bool {
        ascending(self@)
    }

    /// No tags.
    pub fn new() -> (res: TagSet)
        ensures
            res.wf(),
            res@ == Seq::<Seq<char>>::empty(),
    {
        let res = TagSet { tags: Vec::new() };
        assert(res@ =~= Seq::<Seq<char>>::empty());
        res
    }

    /// How many tags there are.
    pub fn len(&self) -> (res: usize)
        ensures
            res == self@.len(),
    {
        self.tags.len()
    }

    /// The tags in their order.
    pub fn as_vec(&self) -> (res: &Vec<String>)
        ensures
            res.deep_view() == self@,
    {
        &self.tags
    }

    /// The place of a tag among the tags.
    fn position(&self, tag: &str) -> (at: usize)
        requires
            self.wf(),
        ensures
            at == rank(self@, tag@),
            at <= self@.len(),
    {
        let mut i: usize = 0;
        while i < self.tags.len() && precedes(self.tags[i].as_str(), tag)
            invariant
                i <= self.tags.len(),
                forall|j: int| 0 <= j < i ==> text_before(#[trigger] self@[j], tag@),
            decreases self.tags.len() - i,
        {
            i = i + 1;
        }
        proof {
            lemma_rank_is(self@, tag@, i as int);
        }
        i
    }

    /// Whether the tag is among the tags.
    pub fn contains(&self, tag: &str) -> (res: bool)
        requires
            self.wf(),
        ensures
            res == self@.contains(tag@),
    {
        let at = self.position(tag);
        proof {
            lemma_found_at_rank(self@, tag@);
        }
        at < self.tags.len() && text_eq(self.tags[at].as_str(), tag)
    }

    /// Puts a tag among the tags, at its place. Says whether it was new.
    pub fn insert(&mut self, tag: String) -> (res: bool)
        requires
            old(self).wf(),
        ensures
            final(self).wf(),
            res == !old(self)@.contains(tag@),
            final(self)@ == with_tag(old(self)@, tag@),
    {
        let at = self.position(tag.as_str());
        proof {
            lemma_found_at_rank(self@, tag@);
            lemma_with_tag(self@, tag@);
        }
        if at < self.tags.len() && text_eq(self.tags[at].as_str(), tag.as_str()) {
            false
        } else {
            self.tags.insert(at, tag);
            assert(self@ =~= old(self)@.insert(at as int, tag@));
            true
        }
    }

    /// Takes a tag from among the tags. Says whether it was there.
    pub fn remove(&mut self, tag: &str) -> (res: bool)
        requires
            old(self).wf(),
        ensures
            final(self).wf(),
            res == old(self)@.contains(tag@),
            final(self)@ == without_tag(old(self)@, tag@),
    {
        let at = self.position(tag);
        proof {
            lemma_found_at_rank(self@, tag@);
            lemma_without_tag(self@, tag@);
        }
        if at < self.tags.len() && text_eq(self.tags[at].as_str(), tag) {
            let _ = self.tags.remove(at);
            assert(self@ =~= old(self)@.remove(at as int));
            true
        } else {
            false
        }
    }
}

} // verus!
