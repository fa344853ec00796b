use vstd::prelude::*;
use crate::config::tag::{self, Tag, TagSet, is_valid_tag};
use crate::strutil::{self, split_chars, views_of};

verus! {

broadcast use vstd::seq_lib::group_seq_properties;

/// A tag selection expression, e.g. `foo` or `foo+bar+baz`: the conjunction
/// of the named tags. A target satisfies the expression when its tag set is
/// a superset of the expression's tags.
#[derive(Debug)]
pub struct TagSelection(TagSet);

/// The tag names named by the parts of a selection expression; empty parts
/// (from doubled or leading `+`) name nothing.
pub open spec fn tags_of_parts(parts: Seq<Seq<char>>) -> Set<Seq<char>>
    decreases parts.len(),
{
    if parts.len() == 0 {
        Set::empty()
    } else if parts.last().len() > 0 {
        tags_of_parts(parts.drop_last()).insert(parts.last())
    } else {
        tags_of_parts(parts.drop_last())
    }
}

/// Every non-empty part is a well-formed tag name.
pub open spec fn parts_valid(parts: Seq<Seq<char>>) -> bool {
    forall|i: int| 0 <= i < parts.len() && #[trigger] parts[i].len() > 0 ==> is_valid_tag(
        parts[i],
    )
}

/// The error that validating the tag name `p` reports: the first
/// character when it may not open a name, else an offending later
/// character.
pub open spec fn spec_tag_error_for(p: Seq<char>, e: tag::FromStringError) -> bool {
    match e {
        tag::FromStringError::MustStartAlphabetic(c) => p.len() > 0 && c == p[0]
            && !tag::is_tag_start(c),
        tag::FromStringError::InvalidCharacter(c) => exists|k: int|
            1 <= k < p.len() && c == p[k] && !tag::is_tag_char(#[trigger] p[k]),
    }
}

/// The set of tags a selection expression denotes.
pub open spec fn spec_selection(s: Seq<char>) -> Set<Seq<char>> {
    tags_of_parts(split_chars(s, '+'))
}

impl View for TagSelection {
    type V = Set<Seq<char>>;

    closed spec fn view(&self) -> Set<Seq<char>> {
        self.0@
    }
}

impl TagSelection {
    /// The inner set holds each name once.
    pub closed spec fn wf(&self) -> bool {
        self.0.wf()
    }

    /// An empty selection, satisfied by every target.
    pub fn empty() -> (r: TagSelection)
        ensures
            r@ == Set::<Seq<char>>::empty(),
            r.wf(),
    {
        TagSelection(TagSet::new())
    }

    /// Whether a target with the given tags satisfies this expression:
    /// true exactly when the expression's tags are a subset of `values`.
    pub fn matches(&self, values: &TagSet) -> (r: bool)
        ensures
            r == self@.subset_of(values@),
    {
        self.0.is_subset(values)
    }

    /// How many tags the expression names.
    pub fn len(&self) -> (n: usize)
        requires
            self.wf(),
        ensures
            n == self@.len(),
    {
        self.0.len()
    }

    /// Whether the expression names no tags.
    pub fn is_empty(&self) -> (r: bool)
        requires
            self.wf(),
        ensures
            r == (self@.len() == 0),
    {
        self.0.is_empty()
    }

    /// Whether the expression names the given tag.
    pub fn contains(&self, tag: &Tag) -> (r: bool)
        ensures
            r == self@.contains(tag@),
    {
        self.0.contains(tag)
    }

    /// Reads an expression such as `foo+bar`: tag names joined by `+`.
    /// Empty pieces are ignored, so `foo+bar+++baz++` names three tags;
    /// the empty string names none.
    pub fn from_str(value: &str) -> (r: Result<TagSelection, FromStringError>)
        ensures
            r is Ok <==> parts_valid(split_chars(value@, '+')),
            r matches Ok(sel) ==> sel@ == spec_selection(value@) && sel.wf(),
            r matches Err(FromStringError::InvalidTag(e)) ==> exists|i: int|
                {
                    &&& 0 <= i < split_chars(value@, '+').len()
                    &&& (#[trigger] split_chars(value@, '+')[i]).len() > 0
                    &&& !is_valid_tag(split_chars(value@, '+')[i])
                    &&& (forall|j: int|
                        0 <= j < i ==> (#[trigger] split_chars(value@, '+')[j]).len() == 0
                            || is_valid_tag(split_chars(value@, '+')[j]))
                    &&& spec_tag_error_for(split_chars(value@, '+')[i], e)
                },
    {
        let parts = strutil::split_str(value, '+');
        let ghost pviews = views_of(parts@);
        let n = parts.len();
        let mut tags = TagSet::new();
        let mut i: usize = 0;
        proof {
            assert(pviews.len() == parts@.len());
            assert(tags_of_parts(pviews.take(0)) =~= Set::<Seq<char>>::empty());
        }
        while i < n
            invariant
                0 <= i <= n,
                n == parts@.len(),
                pviews == views_of(parts@),
                pviews == split_chars(value@, '+'),
                tags.wf(),
                tags@ == tags_of_parts(pviews.take(i as int)),
                forall|j: int| 0 <= j < i && #[trigger] pviews[j].len() > 0 ==> is_valid_tag(
                    pviews[j],
                ),
            decreases n - i,
        {
            let part: &String = &parts[i];
            proof {
                assert(part@ == pviews[i as int]);
                assert(pviews.take(i as int + 1).drop_last() =~= pviews.take(i as int));
                assert(pviews.take(i as int + 1).last() == pviews[i as int]);
            }
            if part.as_str().unicode_len() > 0 {
                match Tag::from_str(part.as_str()) {
                    Ok(t) => {
                        tags.insert(t);
                    },
                    Err(e) => {
                        proof {
                            assert(pviews[i as int].len() > 0 && !is_valid_tag(pviews[i as int])
                                && spec_tag_error_for(pviews[i as int], e));
                        }
                        return Err(FromStringError::InvalidTag(e));
                    },
                }
            }
            i += 1;
        }
        proof {
            assert(pviews.take(n as int) =~= pviews);
        }
        Ok(TagSelection(tags))
    }

    /// The tags the expression names, in first-appearance order.
    pub fn items(&self) -> (r: &Vec<Tag>)
        ensures
            tag::tag_views(r@).to_set() == self@,
    {
        self.0.items()
    }
}

/// Matching a list of selection expressions at once.
pub trait TagSelectionUtils {
    /// Whether the tag set passes the expression list.
    fn matches_tags(&self, values: &TagSet) -> bool;
}

/// Some expression of the list is satisfied by `values`.
pub open spec fn spec_any_selection_matches(sels: Seq<TagSelection>, values: Set<Seq<char>>) -> bool {
    exists|i: int| 0 <= i < sels.len() && (#[trigger] sels[i]@).subset_of(values)
}

/// The tag dimension of selection: an empty expression list selects every
/// target; otherwise some expression must be satisfied.
pub open spec fn spec_selections_match(sels: Seq<TagSelection>, values: Set<Seq<char>>) -> bool {
    sels.len() == 0 || spec_any_selection_matches(sels, values)
}

impl TagSelectionUtils for Vec<TagSelection> {
    /// Whether the tag set passes the expression list: an empty list
    /// matches every target; otherwise the expressions are alternatives,
    /// their tags conjunctions.
    fn matches_tags(&self, values: &TagSet) -> (r: bool)
        ensures
            r == spec_selections_match(self@, values@),
    {
        let n = self.len();
        if n == 0 {
            return true;
        }
        let mut i: usize = 0;
        while i < n
            invariant
                0 <= i <= n,
                n == self@.len(),
                forall|j: int| 0 <= j < i ==> !(#[trigger] self@[j]@).subset_of(values@),
            decreases n - i,
        {
            if self[i].matches(values) {
                return true;
            }
            i += 1;
        }
        false
    }
}

/// The ways a selection expression can be rejected.
#[derive(Debug, Clone, Copy, PartialEq, Eq, Structural)]
pub enum FromStringError {
    /// One of the expression's tag names is not well formed.
    InvalidTag(tag::FromStringError),
}

} // verus!
