//! The default-tag policy: a line-oriented list of `image:tag` mappings,
//! consulted to fill in tags for images that were written without one.

use vstd::prelude::*;
use vstd::string::StrSliceExecFns;

use crate::compose::{Image, spec_parse_image};
use crate::errors::Error;

verus! {

/// One mapping of the policy: images of this repository default to this tag.
#[derive(Debug, Clone, PartialEq)]
pub struct TagEntry {
    pub repo: String,
    pub tag: String,
}

/// The view of a `TagEntry`.
pub struct TagEntryV {
    pub repo: Seq<char>,
    pub tag: Seq<char>,
}

impl View for TagEntry {
    type V = TagEntryV;

    open spec fn view(&self) -> TagEntryV {
        TagEntryV { repo: self.repo@, tag: self.tag@ }
    }
}

/// The tag policy, in the order its lines were read.
#[derive(Debug, Clone, PartialEq)]
pub struct DefaultTags {
    pub entries: Vec<TagEntry>,
}

impl View for DefaultTags {
    type V = Seq<TagEntryV>;

    open spec fn view(&self) -> Seq<TagEntryV> {
        self.entries@.map_values(|e: TagEntry| e@)
    }
}

/// The mappings a run of policy lines holds: blank lines contribute
/// nothing, every other line must split into a repository and a tag, and
/// a line without a tag spoils the whole run (`None`).
pub open spec fn spec_tags_of_lines(ls: Seq<Seq<char>>) -> Option<Seq<TagEntryV>>
    decreases ls.len(),
{
    if ls.len() == 0 {
        Some(Seq::empty())
    } else {
        match spec_tags_of_lines(ls.drop_last()) {
            None => None,
            Some(front) => {
                let line = ls.last();
                if line.len() == 0 {
                    Some(front)
                } else {
                    let img = spec_parse_image(line);
                    match img.tag {
                        None => None,
                        Some(t) => Some(front.push(TagEntryV { repo: img.repo, tag: t })),
                    }
                }
            },
        }
    }
}

proof fn lemma_tags_none_extends(ls: Seq<Seq<char>>, j: int)
    requires
        0 <= j <= ls.len(),
        spec_tags_of_lines(ls.take(j)) is None,
    ensures
        spec_tags_of_lines(ls) is None,
    decreases ls.len() - j,
{
    if j == ls.len() {
        assert(ls.take(j) =~= ls);
    } else {
        assert(ls.take(j + 1).drop_last() =~= ls.take(j));
        assert(spec_tags_of_lines(ls.take(j + 1)) is None);
        lemma_tags_none_extends(ls, j + 1);
    }
}

/// The first tag the policy maps a repository to, if any.
pub open spec fn spec_tag_lookup(es: Seq<TagEntryV>, repo: Seq<char>) -> Option<Seq<char>>
    decreases es.len(),
{
    if es.len() == 0 {
        None
    } else if es[0].repo == repo {
        Some(es[0].tag)
    } else {
        spec_tag_lookup(es.drop_first(), repo)
    }
}

impl DefaultTags {
    /// Build the policy from the lines of its text source.  Blank lines
    /// are skipped; any other line must name an image with a tag, and a
    /// line without one fails the whole read.
    pub fn read(lines: &Vec<String>) -> (r: Result<DefaultTags, Error>)
        ensures
            match spec_tags_of_lines(lines.deep_view()) {
                Some(es) => r matches Ok(dt) && dt@ == es,
                None => r matches Err(e) && e is TransformFailure,
            },
    {
        let ghost ls = lines.deep_view();
        let mut entries: Vec<TagEntry> = Vec::new();
        let mut i: usize = 0;
        proof {
            assert(ls.take(0) =~= Seq::<Seq<char>>::empty());
        }
        while i < lines.len()
            invariant
                0 <= i <= lines@.len(),
                ls == lines.deep_view(),
                ls.len() == lines@.len(),
                spec_tags_of_lines(ls.take(i as int)) == Some(
                    entries@.map_values(|e: TagEntry| e@),
                ),
            decreases lines.len() - i,
        {
            let line = &lines[i];
            proof {
                assert(ls[i as int] == lines@[i as int]@);
                assert(ls.take(i + 1).drop_last() =~= ls.take(i as int));
                assert(ls.take(i + 1).last() == ls[i as int]);
            }
            if line.unicode_len() > 0 {
                let img = Image::parse(line.as_str());
                match img.tag {
                    Some(t) => {
                        let ghost pre = entries@.map_values(|e: TagEntry| e@);
                        entries.push(TagEntry { repo: img.repo, tag: t });
                        proof {
                            assert(entries@.map_values(|e: TagEntry| e@) =~= pre.push(
                                entries@.last()@,
                            ));
                        }
                    },
                    None => {
                        proof {
                            assert(spec_tags_of_lines(ls.take(i + 1)) is None);
                            lemma_tags_none_extends(ls, i + 1);
                        }
                        return Err(Error::TransformFailure { reason: line.clone() });
                    },
                }
            }
            i = i + 1;
        }
        proof {
            assert(ls.take(i as int) =~= ls);
        }
        Ok(DefaultTags { entries })
    }

    /// The tag the policy assigns to a repository, if any.
    pub fn tag_for(&self, repo: &str) -> (r: Option<String>)
        ensures
            match r {
                Some(t) => spec_tag_lookup(self@, repo@) == Some(t@),
                None => spec_tag_lookup(self@, repo@) is None,
            },
    {
        let mut i: usize = 0;
        proof {
            assert(self@.skip(0) =~= self@);
        }
        while i < self.entries.len()
            invariant
                0 <= i <= self.entries@.len(),
                self@.len() == self.entries@.len(),
                spec_tag_lookup(self@, repo@) == spec_tag_lookup(self@.skip(i as int), repo@),
            decreases self.entries.len() - i,
        {
            proof {
                assert(self@.skip(i as int)[0] == self@[i as int]);
                assert(self@.skip(i as int).drop_first() =~= self@.skip(i as int + 1));
            }
            if crate::util::str_eq(self.entries[i].repo.as_str(), repo) {
                return Some(self.entries[i].tag.clone());
            }
            i = i + 1;
        }
        proof {
            assert(self@.skip(i as int).len() == 0);
        }
        None
    }

    /// Copy this policy; the copy has the same view.
    pub fn duplicate(&self) -> (r: DefaultTags)
        ensures
            r@ == self@,
    {
        let mut out: Vec<TagEntry> = Vec::new();
        let mut i: usize = 0;
        while i < self.entries.len()
            invariant
                0 <= i <= self.entries@.len(),
                out@.len() == i,
                forall|j: int| 0 <= j < i ==> out@[j]@ == self.entries@[j]@,
            decreases self.entries.len() - i,
        {
            let e = &self.entries[i];
            out.push(TagEntry { repo: e.repo.clone(), tag: e.tag.clone() });
            i = i + 1;
        }
        let r = DefaultTags { entries: out };
        proof {
            assert(r@ =~= self@);
        }
        r
    }
}

} // verus!
