//! Tag catalog: a read-only, in-memory index over a bundled immutable tag
//! dataset, built once at startup. It answers lookups, existence checks used
//! by the store engine for referential integrity, filtering in dataset
//! declaration order, and advisory co-occurrence hints.

use vstd::prelude::*;

use crate::lex::str_eq;
use crate::model::CoOccurrence;
use crate::model::Tag;
use crate::model::TagV;

verus! {

/// No two tags of the sequence share an identifier.
pub open spec fn tag_ids_unique(s: Seq<TagV>) -> bool {
    forall|i: int, j: int| 0 <= i < j < s.len() ==> s[i].id != s[j].id
}

/// Some tag of the sequence carries identifier `id`.
pub open spec fn seq_has_tag(s: Seq<TagV>, id: Seq<char>) -> bool {
    exists|i: int| 0 <= i < s.len() && s[i].id == id
}

/// The index of the tag carrying `id` (meaningful only when one exists).
pub open spec fn tag_index_of(s: Seq<TagV>, id: Seq<char>) -> int {
    choose|i: int| 0 <= i < s.len() && s[i].id == id
}

/// The sequence of tags read as a mapping from identifier to tag.
pub open spec fn tag_map_of(s: Seq<TagV>) -> Map<Seq<char>, TagV> {
    Map::new(|id: Seq<char>| seq_has_tag(s, id), |id: Seq<char>| s[tag_index_of(s, id)])
}

/// Whether a tag satisfies an optional category constraint and an optional
/// usage constraint.
pub open spec fn tag_matches(t: TagV, category: Option<Seq<char>>, usage: Option<Seq<char>>) -> bool {
    &&& (category matches Some(c) ==> t.category == c)
    &&& (usage matches Some(u) ==> t.usage == u)
}

/// The filter predicate as a value, so contracts and proofs name one term.
pub open spec fn tag_filter_pred(category: Option<Seq<char>>, usage: Option<Seq<char>>) -> spec_fn(
    TagV,
) -> bool {
    |t: TagV| tag_matches(t, category, usage)
}

/// The read-only tag catalog. It never changes after construction.
pub struct TagCatalog {
    tags: Vec<Tag>,
}

impl View for TagCatalog {
    type V = Map<Seq<char>, TagV>;

    closed spec fn view(&self) -> Map<Seq<char>, TagV> {
        tag_map_of(self.tag_seq())
    }
}

impl TagCatalog {
    /// The catalog's tags, in dataset declaration order.
    pub closed spec fn tag_seq(&self) -> Seq<TagV> {
        self.tags.deep_view()
    }

    /// Catalog integrity: tag identifiers are unique.
    pub closed spec fn wf(&self) -> bool {
        tag_ids_unique(self.tag_seq())
    }

    /// At a valid index, the identifier resolves back to that index.
    proof fn lemma_index_roundtrip(&self, i: int)
        requires
            self.wf(),
            0 <= i < self.tag_seq().len(),
        ensures
            seq_has_tag(self.tag_seq(), self.tag_seq()[i].id),
            tag_index_of(self.tag_seq(), self.tag_seq()[i].id) == i,
    {
        let s = self.tag_seq();
        assert(seq_has_tag(s, s[i].id));
        let j = tag_index_of(s, s[i].id);
        assert(0 <= j < s.len() && s[j].id == s[i].id);
    }

    /// Builds a catalog from a dataset, keeping declaration order. The
    /// dataset's tag identifiers must be unique, as the taxonomy promises;
    /// a dataset that breaks that promise is rejected.
    pub fn try_new(tags: Vec<Tag>) -> (r: Option<TagCatalog>)
        ensures
            match r {
                Some(c) => {
                    &&& tag_ids_unique(tags.deep_view())
                    &&& c.wf()
                    &&& c.tag_seq() == tags.deep_view()
                },
                None => !tag_ids_unique(tags.deep_view()),
            },
    {
        let n = tags.len();
        let mut i: usize = 0;
        while i < n
            invariant
                n == tags.len(),
                i <= n,
                forall|a: int, b: int|
                    0 <= a < b < n && a < i ==> tags.deep_view()[a].id != tags.deep_view()[b].id,
            decreases n - i,
        {
            let mut j: usize = i + 1;
            while j < n
                invariant
                    n == tags.len(),
                    i < n,
                    i < j <= n,
                    forall|b: int| i < b < j ==> tags.deep_view()[i as int].id != tags.deep_view()[b].id,
                decreases n - j,
            {
                if str_eq(tags[i].id.as_str(), tags[j].id.as_str()) {
                    assert(tags.deep_view()[i as int].id == tags.deep_view()[j as int].id);
                    return None;
                }
                j += 1;
            }
            i += 1;
        }
        Some(TagCatalog { tags })
    }

    /// Looks the tag with `id` up.
    pub fn get(&self, id: &str) -> (r: Option<&Tag>)
        requires
            self.wf(),
        ensures
            match r {
                Some(t) => self@.dom().contains(id@) && t@ == self@[id@],
                None => !self@.dom().contains(id@),
            },
    {
        let n = self.tags.len();
        let mut i: usize = 0;
        while i < n
            invariant
                n == self.tags.len(),
                i <= n,
                self.wf(),
                forall|k: int| 0 <= k < i ==> self.tag_seq()[k].id != id@,
            decreases n - i,
        {
            if str_eq(self.tags[i].id.as_str(), id) {
                proof {
                    self.lemma_index_roundtrip(i as int);
                }
                return Some(&self.tags[i]);
            }
            i += 1;
        }
        None
    }

    /// True iff the catalog holds a tag with `id`; the store engine uses it
    /// for referential checks.
    pub fn has_tag(&self, id: &str) -> (r: bool)
        requires
            self.wf(),
        ensures
            r == self@.dom().contains(id@),
    {
        self.get(id).is_some()
    }

    /// The advisory co-occurrence hints of the tag with `id`, if any.
    pub fn co_occurrence_hints(&self, id: &str) -> (r: Option<&CoOccurrence>)
        requires
            self.wf(),
        ensures
            match r {
                Some(c) => self@.dom().contains(id@) && self@[id@].co_occurrence == Some(c@),
                None => !self@.dom().contains(id@) || self@[id@].co_occurrence is None,
            },
    {
        match self.get(id) {
            Some(t) => t.co_occurrence.as_ref(),
            None => None,
        }
    }

    /// All tags that satisfy the optional category and usage constraints, in
    /// dataset declaration order.
    pub fn filter(&self, category: Option<&str>, usage: Option<&str>) -> (r: Vec<Tag>)
        ensures
            r.deep_view() == self.tag_seq().filter(
                tag_filter_pred(category.deep_view(), usage.deep_view()),
            ),
    {
        let ghost pred = tag_filter_pred(category.deep_view(), usage.deep_view());
        let n = self.tags.len();
        let mut r: Vec<Tag> = Vec::new();
        let mut i: usize = 0;
        proof {
            reveal(Seq::filter);
            assert(self.tag_seq().take(0) =~= Seq::<TagV>::empty());
        }
        while i < n
            invariant
                n == self.tags.len(),
                i <= n,
                pred == tag_filter_pred(category.deep_view(), usage.deep_view()),
                r.deep_view() == self.tag_seq().take(i as int).filter(pred),
            decreases n - i,
        {
            let cat_ok = match category {
                Some(c) => str_eq(self.tags[i].category.as_str(), c),
                None => true,
            };
            let use_ok = match usage {
                Some(u) => str_eq(self.tags[i].usage.as_str(), u),
                None => true,
            };
            proof {
                reveal(Seq::filter);
                let s = self.tag_seq();
                assert(s.take(i as int + 1).drop_last() =~= s.take(i as int));
                assert(s.take(i as int + 1).last() == s[i as int]);
            }
            if cat_ok && use_ok {
                let t = self.tags[i].clone();
                assert(t@ == self.tag_seq()[i as int]);
                r.push(t);
            }
            i += 1;
        }
        proof {
            assert(self.tag_seq().take(n as int) =~= self.tag_seq());
        }
        r
    }
}

/// The view of the one bundled sample tag.
pub open spec fn sample_pop_tag() -> TagV {
    TagV {
        id: "pop"@,
        name: "Pop"@,
        category: "genre"@,
        description: "Popular music genre with catchy melodies"@,
        usage: "style"@,
        synonyms: Some(seq!["pop music"@]),
        examples: None,
        co_occurrence: None,
        metadata: None,
    }
}

/// The bundled tag dataset. For now it holds a single sample entry; a full
/// dataset would be loaded from a bundled document at startup and handed to
/// [`TagCatalog::try_new`] in the same shape.
pub fn get_tags() -> (r: Vec<Tag>)
    ensures
        r.deep_view() =~= seq![sample_pop_tag()],
{
    let tag = Tag {
        id: "pop".to_owned(),
        name: "Pop".to_owned(),
        category: "genre".to_owned(),
        description: "Popular music genre with catchy melodies".to_owned(),
        usage: "style".to_owned(),
        synonyms: Some(vec!["pop music".to_owned()]),
        examples: None,
        co_occurrence: None,
        metadata: None,
    };
    let mut r: Vec<Tag> = Vec::new();
    proof {
        assert(tag.synonyms.deep_view() == Some(seq!["pop music"@])) by {
            assert(tag.synonyms.deep_view()->Some_0 =~= seq!["pop music"@]);
        }
        assert(tag@ == sample_pop_tag());
    }
    r.push(tag);
    proof {
        assert(r.deep_view() =~= seq![sample_pop_tag()]);
    }
    r
}

} // verus!
