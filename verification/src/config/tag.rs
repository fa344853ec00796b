use vstd::prelude::*;
use vstd::string::StringExecFns;

verus! {

broadcast use vstd::seq_lib::group_seq_properties;

/// A tag: a short label attached to a target configuration.
///
/// A non-empty tag starts with an ASCII alphabetic character, followed by
/// ASCII alphanumeric characters, `-` or `_`. The empty tag is a degenerate
/// always-true tag used as a default.
#[derive(Debug)]
pub struct Tag(String);

impl Clone for Tag {
    fn clone(&self) -> (r: Self)
        ensures
            r@ == self@,
    {
        Tag(self.0.clone())
    }
}

impl View for Tag {
    type V = Seq<char>;

    closed spec fn view(&self) -> Seq<char> {
        self.0@
    }
}

/// Holds of the characters that may open a non-empty tag.
pub open spec fn is_tag_start(c: char) -> bool {
    ('a' <= c && c <= 'z') || ('A' <= c && c <= 'Z')
}

/// Holds of the characters that may follow the first character of a tag.
pub open spec fn is_tag_char(c: char) -> bool {
    is_tag_start(c) || ('0' <= c && c <= '9') || c == '-' || c == '_'
}

/// A tag name is empty, or alphabetic followed by alphanumerics, `-` or `_`.
pub open spec fn is_valid_tag(s: Seq<char>) -> bool {
    s.len() == 0 || (is_tag_start(s[0]) && forall|i: int|
        1 <= i < s.len() ==> is_tag_char(#[trigger] s[i]))
}

impl Tag {
    /// Wraps a string as a tag without validating it.
    pub fn new_unchecked(value: &str) -> (t: Tag)
        ensures
            t@ == value@,
    {
        Tag(value.to_owned())
    }

    /// Exposes the tag's name.
    pub fn as_str(&self) -> (s: &str)
        ensures
            s@ == self@,
    {
        self.0.as_str()
    }

    /// Validates a tag name, reporting the first offending character.
    pub fn from_str(value: &str) -> (r: Result<Tag, FromStringError>)
        ensures
            r is Ok <==> is_valid_tag(value@),
            r matches Ok(t) ==> t@ == value@,
            r matches Err(FromStringError::MustStartAlphabetic(c)) ==> value@.len() > 0
                && c == value@[0] && !is_tag_start(c),
            r matches Err(FromStringError::InvalidCharacter(c)) ==> exists|i: int|
                1 <= i < value@.len() && c == value@[i] && !is_tag_char(#[trigger] value@[i])
                    && (forall|j: int| 1 <= j < i ==> is_tag_char(#[trigger] value@[j])),
    {
        let len = value.unicode_len();
        if len == 0 {
            return Ok(Tag::new_unchecked(value));
        }

        let first = value.get_char(0);
        let first_ok = ('a' <= first && first <= 'z') || ('A' <= first && first <= 'Z');
        if !first_ok {
            return Err(FromStringError::MustStartAlphabetic(first));
        }

        let mut i: usize = 1;
        while i < len
            invariant
                1 <= i <= len,
                len == value@.len(),
                is_tag_start(value@[0]),
                forall|j: int| 1 <= j < i ==> is_tag_char(#[trigger] value@[j]),
            decreases len - i,
        {
            let c = value.get_char(i);
            let ok = ('a' <= c && c <= 'z') || ('A' <= c && c <= 'Z')
                || ('0' <= c && c <= '9') || c == '-' || c == '_';
            if !ok {
                return Err(FromStringError::InvalidCharacter(c));
            }
            i += 1;
        }

        Ok(Tag::new_unchecked(value))
    }
}

impl PartialEq for Tag {
    fn eq(&self, other: &Tag) -> (r: bool) {
        self.0 == other.0
    }
}

impl vstd::std_specs::cmp::PartialEqSpecImpl for Tag {
    open spec fn obeys_eq_spec() -> bool {
        true
    }

    open spec fn eq_spec(&self, other: &Tag) -> bool {
        self@ == other@
    }
}

impl Eq for Tag {}

/// A set of tags with no repeated name, kept in first-insertion order.
#[derive(Debug)]
pub struct TagSet {
    tags: Vec<Tag>,
}

/// The names of a sequence of tags, in order.
pub open spec fn tag_views(v: Seq<Tag>) -> Seq<Seq<char>> {
    v.map_values(|t: Tag| t@)
}

impl TagSet {
    /// The tag names, in insertion order.
    pub closed spec fn names(&self) -> Seq<Seq<char>> {
        tag_views(self.tags@)
    }

    /// The set holds each name at most once.
    pub closed spec fn wf(&self) -> bool {
        self.names().no_duplicates()
    }

    /// An empty tag set.
    pub fn new() -> (r: TagSet)
        ensures
            r@ == Set::<Seq<char>>::empty(),
            r.wf(),
    {
        let r = TagSet { tags: Vec::new() };
        proof {
            assert(r@ =~= Set::<Seq<char>>::empty());
        }
        r
    }

    /// How many tags the set holds.
    pub fn len(&self) -> (n: usize)
        requires
            self.wf(),
        ensures
            n == self@.len(),
    {
        proof {
            self.names().unique_seq_to_set();
        }
        self.tags.len()
    }

    /// Whether the set holds no tags.
    pub fn is_empty(&self) -> (r: bool)
        requires
            self.wf(),
        ensures
            r == (self@.len() == 0),
    {
        self.len() == 0
    }

    /// Whether the set holds a tag of the given name.
    pub fn contains(&self, tag: &Tag) -> (r: bool)
        ensures
            r == self@.contains(tag@),
    {
        let n = self.tags.len();
        let mut i: usize = 0;
        while i < n
            invariant
                0 <= i <= n,
                n == self.tags@.len(),
                forall|j: int| 0 <= j < i ==> self.names()[j] != tag@,
            decreases n - i,
        {
            if &self.tags[i] == tag {
                proof {
                    assert(self.names()[i as int] == tag@);
                }
                return true;
            }
            i += 1;
        }
        proof {
            assert(!self.names().contains(tag@));
        }
        false
    }

    /// Adds a tag unless one of that name is already present.
    pub fn insert(&mut self, tag: Tag)
        ensures
            old(self).wf() ==> final(self).wf(),
            final(self)@ == old(self)@.insert(tag@),
    {
        let ghost prev = self.names();
        if !self.contains(&tag) {
            let ghost t = tag@;
            self.tags.push(tag);
            proof {
                assert(self.names() =~= prev.push(t));
                assert(self@ =~= old(self)@.insert(t));
            }
        } else {
            proof {
                assert(self@ =~= old(self)@.insert(tag@));
            }
        }
    }

    /// Adds every tag of `other`.
    pub fn union_with(&mut self, other: &TagSet)
        ensures
            old(self).wf() ==> final(self).wf(),
            final(self)@ == old(self)@.union(other@),
    {
        let n = other.tags.len();
        let mut i: usize = 0;
        while i < n
            invariant
                n == other.tags@.len(),
                0 <= i <= n,
                old(self).wf() ==> self.wf(),
                self@ == old(self)@.union(other.names().take(i as int).to_set()),
            decreases n - i,
        {
            let ghost before = self@;
            self.insert(other.tags[i].clone());
            proof {
                assert(other.names().take(i + 1) =~= other.names().take(i as int).push(
                    other.names()[i as int],
                ));
                assert(other.names().take(i + 1).to_set() =~= other.names().take(
                    i as int,
                ).to_set().insert(other.names()[i as int]));
                assert(self@ =~= old(self)@.union(other.names().take(i + 1).to_set()));
            }
            i += 1;
        }
        proof {
            assert(other.names().take(n as int) =~= other.names());
            assert(other.names().to_set() =~= other@);
            assert(self@ =~= old(self)@.union(other@));
        }
    }

    /// Whether every tag of this set is also in `values`.
    pub fn is_subset(&self, values: &TagSet) -> (r: bool)
        ensures
            r == self@.subset_of(values@),
    {
        let n = self.tags.len();
        let mut i: usize = 0;
        while i < n
            invariant
                0 <= i <= n,
                n == self.tags@.len(),
                forall|j: int| 0 <= j < i ==> values@.contains(#[trigger] self.names()[j]),
            decreases n - i,
        {
            if !values.contains(&self.tags[i]) {
                proof {
                    assert(self@.contains(self.names()[i as int]));
                }
                return false;
            }
            i += 1;
        }
        proof {
            assert forall|t: Seq<char>| self@.contains(t) implies values@.contains(t) by {
                let j = choose|j: int| 0 <= j < self.names().len() && self.names()[j] == t;
                assert(values@.contains(self.names()[j]));
            }
        }
        true
    }

    /// The tags themselves, in insertion order.
    pub fn items(&self) -> (r: &Vec<Tag>)
        ensures
            r@.map_values(|t: Tag| t@) == self.names(),
            r@.map_values(|t: Tag| t@).to_set() == self@,
    {
        &self.tags
    }
}

impl View for TagSet {
    type V = Set<Seq<char>>;

    closed spec fn view(&self) -> Set<Seq<char>> {
        self.names().to_set()
    }
}

impl Clone for TagSet {
    fn clone(&self) -> (r: Self)
        ensures
            r@ == self@,
            r.wf() == self.wf(),
    {
        let n = self.tags.len();
        let mut tags: Vec<Tag> = Vec::new();
        let mut i: usize = 0;
        while i < n
            invariant
                0 <= i <= n,
                n == self.tags@.len(),
                tag_views(tags@) =~= self.names().take(i as int),
            decreases n - i,
        {
            let ghost prev = tags@;
            let t = self.tags[i].clone();
            let ghost tv = t@;
            proof {
                assert(tv == self.names()[i as int]);
                assert(tag_views(prev).len() == prev.len());
                assert(prev.len() == i as int);
            }
            tags.push(t);
            proof {
                assert forall|j: int| 0 <= j < tags@.len() implies #[trigger] tag_views(tags@)[j]
                    == self.names().take(i as int + 1)[j] by {
                    if j < i as int {
                        assert(tags@[j] == prev[j]);
                        assert(tag_views(prev)[j] == self.names().take(i as int)[j]);
                    } else {
                        assert(tags@[j]@ == tv);
                    }
                }
                assert(tag_views(tags@) =~= self.names().take(i as int + 1));
            }
            i += 1;
        }
        let r = TagSet { tags };
        proof {
            assert(r.names() =~= self.names());
            assert(r@ =~= self@);
        }
        r
    }
}

/// The ways a tag name can be rejected.
#[derive(Debug, Clone, Copy, PartialEq, Eq, Structural)]
pub enum FromStringError {
    /// The name does not begin with an ASCII alphabetic character.
    MustStartAlphabetic(char),
    /// The name holds a character that is not alphanumeric, `-` or `_`.
    InvalidCharacter(char),
}

/// The reported line for each rejection.
pub open spec fn spec_tag_error_message(e: FromStringError) -> Seq<char> {
    match e {
        FromStringError::MustStartAlphabetic(c) =>
            "Tag name must begin with an alphabetic character, got '"@ + seq![c] + "'"@,
        FromStringError::InvalidCharacter(c) =>
            "Tag name must contain only alphanumeric characters, '-' or '_', got '"@ + seq![c]
                + "'"@,
    }
}

impl FromStringError {
    /// One concise line saying why the tag name was rejected.
    pub fn message(&self) -> (r: String)
        ensures
            r@ == spec_tag_error_message(*self),
    {
        let mut r = String::new();
        match self {
            FromStringError::MustStartAlphabetic(c) => {
                r.append("Tag name must begin with an alphabetic character, got '");
                crate::strutil::string_push(&mut r, *c);
                r.append("'");
            },
            FromStringError::InvalidCharacter(c) => {
                r.append("Tag name must contain only alphanumeric characters, '-' or '_', got '");
                crate::strutil::string_push(&mut r, *c);
                r.append("'");
            },
        }
        proof {
            assert(r@ =~= spec_tag_error_message(*self));
        }
        r
    }
}

} // verus!
