//! Tags: colon-separated paths of segments.
//!
//! Single segment:    `["kyc"]`                      is written `kyc:`
//! Key-value:         `["project", "income"]`        is written `project:income`
//! Hierarchical:      `["debit", "expenses", "food"]` is written `debit:expenses:food`

use vstd::prelude::*;

use crate::text::{chars_of, free_of, join, join_strings, lemma_words_join, lemma_words_shape,
    lemma_words_single, lemma_words_trailing, texts, words, words_of, Delimiter};

verus! {

/// A tag: a non-empty path of non-empty segments.
#[derive(Debug, PartialEq, Eq)]
pub struct Tag(Vec<String>);

impl View for Tag {
    type V = Seq<Seq<char>>;

    closed spec fn view(&self) -> Seq<Seq<char>> {
        texts(self.0@)
    }
}

impl Tag {
    /// Every tag has at least one segment and no empty one.
    #[verifier::type_invariant]
    spec fn well_formed(self) -> bool {
        valid_segments(texts(self.0@))
    }
}

impl Clone for Tag {
    fn clone(&self) -> (r: Self)
        ensures
            r@ == self@,
    {
        proof {
            use_type_invariant(self);
        }
        let segments = self.0.clone();
        proof {
            assert forall|i: int| 0 <= i < segments@.len() implies segments@[i] == self.0@[i] by {
                assert(cloned::<String>(self.0[i], segments[i]));
            }
            assert(texts(segments@) =~= texts(self.0@));
        }
        Tag(segments)
    }
}

/// No segment holds a colon.
pub open spec fn colon_free(segs: Seq<Seq<char>>) -> bool {
    forall|k: int| 0 <= k < segs.len() ==> free_of(#[trigger] segs[k], Delimiter::Colon)
}

/// What `Tag::new` accepts: at least one segment, and no segment empty.
pub open spec fn valid_segments(segs: Seq<Seq<char>>) -> bool {
    &&& segs.len() > 0
    &&& forall|k: int| 0 <= k < segs.len() ==> (#[trigger] segs[k]).len() > 0
}

/// Segments that a token can carry: valid, and without a colon in any of them.
pub open spec fn token_segments(segs: Seq<Seq<char>>) -> bool {
    &&& valid_segments(segs)
    &&& forall|k: int| 0 <= k < segs.len() ==> free_of(#[trigger] segs[k], Delimiter::Colon)
}

/// The segments that a token denotes: its non-empty colon-separated parts,
/// or nothing when it has none.
pub open spec fn parse_token(token: Seq<char>) -> Option<Seq<Seq<char>>> {
    let w = words(token, Delimiter::Colon);
    if w.len() == 0 {
        None
    } else {
        Some(w)
    }
}

/// The token that writes out a tag: a single segment gets a trailing colon,
/// longer paths are joined by colons.
pub open spec fn token_text(segs: Seq<Seq<char>>) -> Seq<char> {
    if segs.len() == 1 {
        segs[0].push(':')
    } else {
        join(segs, seq![':'])
    }
}

impl Tag {
    /// A tag of the given segments, or nothing when there is no segment or
    /// one of them is empty.
    pub fn new(segments: Vec<String>) -> (r: Option<Self>)
        ensures
            r is Some <==> valid_segments(texts(segments@)),
            r matches Some(t) ==> t@ == texts(segments@),
    {
        if segments.len() == 0 {
            return None;
        }
        let mut i: usize = 0;
        while i < segments.len()
            invariant
                i <= segments@.len(),
                forall|k: int| 0 <= k < i ==> (#[trigger] texts(segments@)[k]).len() > 0,
            decreases segments@.len() - i,
        {
            if segments[i].as_str().is_empty() {
                assert(texts(segments@)[i as int].len() == 0);
                return None;
            }
            i = i + 1;
        }
        Some(Tag(segments))
    }

    /// The segments of the tag, in order.
    pub fn segments(&self) -> (r: &[String])
        ensures
            texts(r@) == self@,
            valid_segments(self@),
    {
        proof {
            use_type_invariant(self);
        }
        self.0.as_slice()
    }

    /// Parses a single tag token (e.g. `"kyc:"`, `"project:income"`): its
    /// non-empty colon-separated parts, or nothing when it has none.
    pub fn parse(token: &str) -> (r: Option<Self>)
        ensures
            r matches Some(t) ==> parse_token(token@) == Some(t@),
            r is None ==> parse_token(token@) is None,
            r matches Some(t) ==> token_segments(t@),
    {
        let v = chars_of(token);
        let segments = words_of(token, &v, 0, v.len(), Delimiter::Colon);
        proof {
            assert(v@.subrange(0, v@.len() as int) =~= v@);
            lemma_words_shape(v@, Delimiter::Colon, Delimiter::Colon);
        }
        Self::new(segments)
    }

    /// The token that writes out this tag.
    pub fn to_token(&self) -> (r: String)
        ensures
            r@ == token_text(self@),
            valid_segments(self@),
            colon_free(self@) ==> parse_token(r@) == Some(self@),
    {
        proof {
            reveal_strlit(":");
            use_type_invariant(self);
            if colon_free(self@) {
                lemma_token_roundtrip(self@);
            }
        }
        if self.0.len() == 1 {
            let mut s = self.0[0].clone();
            s.append(":");
            assert(texts(self.0@)[0] == self.0@[0]@);
            assert(s@ =~= self@[0].push(':'));
            s
        } else {
            let s = join_strings(&self.0, ":");
            assert(":"@ =~= seq![':']);
            s
        }
    }
}

/// The tokens of the given tags, in order.
pub fn tokens_of(tags: &[Tag]) -> (r: Vec<String>)
    ensures
        texts(r@) == tags@.map_values(|t: Tag| t@).map_values(|g: Seq<Seq<char>>| token_text(g)),
        forall|k: int| 0 <= k < tags@.len() ==> valid_segments(#[trigger] tags@[k]@),
{
    let mut r: Vec<String> = Vec::new();
    let mut k: usize = 0;
    while k < tags.len()
        invariant
            k <= tags@.len(),
            r@.len() == k,
            forall|j: int| 0 <= j < k ==> (#[trigger] texts(r@)[j]) == token_text(tags@[j]@),
            forall|j: int| 0 <= j < k ==> valid_segments(#[trigger] tags@[j]@),
        decreases tags@.len() - k,
    {
        let t = tags[k].to_token();
        let ghost before = r@;
        let ghost tv = t@;
        r.push(t);
        proof {
            assert(r@[k as int]@ == tv);
            assert forall|j: int| 0 <= j < k + 1 implies (#[trigger] texts(r@)[j]) == token_text(tags@[j]@) by {
                if j < k {
                    assert(r@[j] == before[j]);
                    assert(texts(before)[j] == token_text(tags@[j]@));
                    assert(texts(before)[j] == before[j]@);
                    assert(texts(r@)[j] == r@[j]@);
                } else {
                    assert(texts(r@)[j] == r@[j]@);
                }
            }
        }
        k = k + 1;
    }
    assert(texts(r@) =~= tags@.map_values(|t: Tag| t@).map_values(|g: Seq<Seq<char>>| token_text(g)));
    r
}

/// Writing out a tag and parsing the token gives the tag back, for segments
/// that hold no colon.
pub proof fn lemma_token_roundtrip(segs: Seq<Seq<char>>)
    requires
        token_segments(segs),
    ensures
        parse_token(token_text(segs)) == Some(segs),
{
    if segs.len() == 1 {
        lemma_words_trailing(segs[0], ':', Delimiter::Colon);
        lemma_words_single(segs[0], Delimiter::Colon);
        assert(seq![segs[0]] =~= segs);
    } else {
        lemma_words_join(segs, ':', Delimiter::Colon);
    }
}

/// A token that the format writes is written again, unchanged, after
/// parsing it.
pub proof fn lemma_token_text_fixpoint(segs: Seq<Seq<char>>)
    requires
        token_segments(segs),
    ensures
        parse_token(token_text(segs)) matches Some(p) && token_text(p) == token_text(segs),
{
    lemma_token_roundtrip(segs);
}

} // verus!
