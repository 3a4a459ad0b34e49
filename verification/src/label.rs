//! Extended labels: a human-readable description plus structured tags,
//! written into the BIP329 `label` string field.
//!
//! Format: `"description ; tag1 tag2:val tag3:a:b"`.
//! Without ` ; ` the whole string is a description and there are no tags.

use vstd::prelude::*;

use crate::tag::{colon_free, valid_segments, lemma_token_roundtrip, tokens_of, parse_token, token_segments, token_text, Tag};
use crate::text::{chars_of, is_delimiter, is_space, lemma_first_separator, lemma_join_shape, lemma_words_join, separator_at, lemma_trim_idempotent, lemma_words_shape, find_separator, first_separator, free_of, join, join_strings,
    separator, texts, trim, trim_bounds, words, words_of, Delimiter};

verus! {

/// A description and the tags that go with it.
#[derive(Debug, Clone, PartialEq, Eq)]
pub struct Label {
    pub description: Option<String>,
    pub tags: Vec<Tag>,
}

/// The views of a sequence of tags.
pub open spec fn tag_views(tags: Seq<Tag>) -> Seq<Seq<Seq<char>>> {
    tags.map_values(|t: Tag| t@)
}

pub open spec fn option_text(s: Option<String>) -> Option<Seq<char>> {
    match s {
        Some(t) => Some(t@),
        None => None,
    }
}

impl View for Label {
    type V = (Option<Seq<char>>, Seq<Seq<Seq<char>>>);

    open spec fn view(&self) -> (Option<Seq<char>>, Seq<Seq<Seq<char>>>) {
        (option_text(self.description), tag_views(self.tags@))
    }
}

/// A text, or nothing when it is empty.
pub open spec fn nonblank(d: Seq<char>) -> Option<Seq<char>> {
    if d.len() == 0 {
        None
    } else {
        Some(d)
    }
}

/// The tags that a list of tokens denotes; tokens that denote none are dropped.
pub open spec fn tags_of_tokens(tokens: Seq<Seq<char>>) -> Seq<Seq<Seq<char>>>
    decreases tokens.len(),
{
    if tokens.len() == 0 {
        seq![]
    } else {
        let r = tags_of_tokens(tokens.drop_last());
        match parse_token(tokens.last()) {
            Some(t) => r.push(t),
            None => r,
        }
    }
}

/// What a BIP329 `label` string denotes: the trimmed text before the first
/// ` ; ` as description (none when blank), and the tags of the
/// whitespace-separated tokens after it.
pub open spec fn parse_label(s: Seq<char>) -> (Option<Seq<char>>, Seq<Seq<Seq<char>>>) {
    match first_separator(s) {
        None => (nonblank(trim(s)), seq![]),
        Some(i) => (
            nonblank(trim(s.take(i))),
            tags_of_tokens(words(s.skip(i + 3), Delimiter::Whitespace)),
        ),
    }
}

/// The BIP329 `label` string of a description and tags: nothing when both
/// are empty, the trimmed description when there are no tags, and otherwise
/// the description, ` ; ` and the tokens separated by single spaces.
pub open spec fn label_text(description: Option<Seq<char>>, tags: Seq<Seq<Seq<char>>>) -> Option<
    Seq<char>,
> {
    let d = trim(
        match description {
            Some(d) => d,
            None => seq![],
        },
    );
    if tags.len() == 0 {
        nonblank(d)
    } else {
        let t = join(tags.map_values(|g: Seq<Seq<char>>| token_text(g)), seq![' ']);
        if d.len() == 0 {
            Some(separator() + t)
        } else {
            Some(d + separator() + t)
        }
    }
}

/// Tags that survive being written into a label: valid segments without
/// colons or whitespace.
pub open spec fn label_tags(tags: Seq<Seq<Seq<char>>>) -> bool {
    forall|k: int|
        0 <= k < tags.len() ==> {
            &&& token_segments(#[trigger] tags[k])
            &&& forall|j: int| 0 <= j < tags[k].len() ==> free_of(#[trigger] tags[k][j], Delimiter::Whitespace)
        }
}

impl Label {
    /// The label with no description and no tags.
    pub fn empty() -> (r: Self)
        ensures
            r@ == (None::<Seq<char>>, Seq::<Seq<Seq<char>>>::empty()),
    {
        let r = Label { description: None, tags: Vec::new() };
        assert(tag_views(r.tags@) =~= Seq::<Seq<Seq<char>>>::empty());
        r
    }
}


/// The tags of the given tokens, in order; tokens that denote no tag are dropped.
pub fn parse_tags(tokens: &Vec<String>) -> (r: Vec<Tag>)
    ensures
        tag_views(r@) == tags_of_tokens(texts(tokens@)),
        forall|i: int| 0 <= i < r@.len() ==> token_segments(#[trigger] tag_views(r@)[i]),
        (forall|k: int| 0 <= k < tokens@.len() ==> free_of(#[trigger] texts(tokens@)[k], Delimiter::Whitespace))
            ==> label_tags(tag_views(r@)),
{
    let ghost spaceless = forall|k: int| 0 <= k < tokens@.len() ==> free_of(#[trigger] texts(tokens@)[k], Delimiter::Whitespace);
    let mut r: Vec<Tag> = Vec::new();
    let mut k: usize = 0;
    while k < tokens.len()
        invariant
            k <= tokens@.len(),
            spaceless == forall|j: int| 0 <= j < tokens@.len() ==> free_of(#[trigger] texts(tokens@)[j], Delimiter::Whitespace),
            tag_views(r@) == tags_of_tokens(texts(tokens@).take(k as int)),
            forall|i: int| 0 <= i < r@.len() ==> token_segments(#[trigger] tag_views(r@)[i]),
            spaceless ==> label_tags(tag_views(r@)),
        decreases tokens@.len() - k,
    {
        let ghost before = r@;
        let ghost done = texts(tokens@).take(k as int);
        let ghost next = texts(tokens@).take(k + 1);
        proof {
            assert(next.drop_last() =~= done);
            assert(next.last() == tokens@[k as int]@);
        }
        match Tag::parse(tokens[k].as_str()) {
            Some(t) => {
                proof {
                    lemma_words_shape(tokens@[k as int]@, Delimiter::Colon, Delimiter::Whitespace);
                    if spaceless {
                        assert(free_of(texts(tokens@)[k as int], Delimiter::Whitespace));
                    }
                }
                r.push(t);
                proof {
                    assert(tag_views(r@) =~= tag_views(before).push(t@));
                    assert forall|i: int| 0 <= i < r@.len() implies token_segments(#[trigger] tag_views(r@)[i]) by {
                        if i < before.len() {
                            assert(tag_views(r@)[i] == tag_views(before)[i]);
                        }
                    }
                    if spaceless {
                        assert forall|i: int| 0 <= i < tag_views(r@).len() implies {
                            &&& token_segments(#[trigger] tag_views(r@)[i])
                            &&& forall|j: int| 0 <= j < tag_views(r@)[i].len() ==> free_of(#[trigger] tag_views(r@)[i][j], Delimiter::Whitespace)
                        } by {
                            if i < before.len() {
                                assert(tag_views(r@)[i] == tag_views(before)[i]);
                            }
                        }
                    }
                }
            },
            None => {},
        }
        k = k + 1;
    }
    proof {
        assert(texts(tokens@).take(k as int) =~= texts(tokens@));
    }
    r
}

impl Label {
    /// Parses a BIP329 `label` string: the trimmed text before the first
    /// ` ; ` is the description (none when blank), the whitespace-separated
    /// tokens after it are the tags (tokens that denote no tag are dropped).
    pub fn parse(s: &str) -> (r: Self)
        ensures
            r@ == parse_label(s@),
            r.description matches Some(d) ==> d@.len() > 0 && trim(d@) == d@,
            label_tags(r@.1),
    {
        let v = chars_of(s);
        let n: usize = v.len();
        match find_separator(&v) {
            None => {
                let (a, b): (usize, usize) = trim_bounds(&v, 0, n);
                proof {
                    assert(v@.subrange(0, n as int) =~= s@);
                    lemma_trim_idempotent(s@);
                }
                let description = if a == b {
                    None
                } else {
                    Some(s.substring_char(a, b).to_owned())
                };
                let r = Label { description, tags: Vec::new() };
                assert(tag_views(r.tags@) =~= Seq::<Seq<Seq<char>>>::empty());
                r
            },
            Some(i) => {
                let (a, b): (usize, usize) = trim_bounds(&v, 0, i);
                proof {
                    assert(v@.subrange(0, i as int) =~= s@.take(i as int));
                    lemma_trim_idempotent(s@.take(i as int));
                }
                let description = if a == b {
                    None
                } else {
                    Some(s.substring_char(a, b).to_owned())
                };
                let tokens = words_of(s, &v, i + 3, n, Delimiter::Whitespace);
                proof {
                    assert(v@.subrange(i + 3, n as int) =~= s@.skip(i + 3));
                    lemma_words_shape(s@.skip(i + 3), Delimiter::Whitespace, Delimiter::Whitespace);
                }
                let tags = parse_tags(&tokens);
                Label { description, tags }
            },
        }
    }
}


impl Label {
    /// Writes the label as a BIP329 `label` string; nothing when the
    /// trimmed description is blank and there are no tags.
    pub fn to_bip329_string(&self) -> (r: Option<String>)
        ensures
            option_text(r) == label_text(self@.0, self@.1),
            (self@.0 matches Some(d) ==> label_description(d)) && carried_tags(self@.1) ==> parse_label(
                text_or_empty(option_text(r)),
            ) == self@,
    {
        proof {
            reveal_strlit("");
            reveal_strlit(" ");
            reveal_strlit(" ; ");
        }
        let tokens = tokens_of(self.tags.as_slice());
        proof {
            if (self@.0 matches Some(d) ==> label_description(d)) && carried_tags(self@.1) {
                assert forall|k: int| 0 <= k < self@.1.len() implies {
                    &&& token_segments(#[trigger] self@.1[k])
                    &&& forall|j: int| 0 <= j < self@.1[k].len() ==> free_of(#[trigger] self@.1[k][j], Delimiter::Whitespace)
                } by {
                    assert(self@.1[k] == self.tags@[k]@);
                    assert(valid_segments(self.tags@[k]@));
                }
                lemma_label_roundtrip(self@.0, self@.1);
            }
        }
        let d: &str = match &self.description {
            Some(d) => d.as_str(),
            None => "",
        };
        assert(d@ == match self@.0 { Some(x) => x, None => Seq::<char>::empty() });
        let v = chars_of(d);
        let (a, b): (usize, usize) = trim_bounds(&v, 0, v.len());
        assert(v@.subrange(0, v@.len() as int) =~= d@);
        if self.tags.len() == 0 {
            if a == b {
                None
            } else {
                Some(d.substring_char(a, b).to_owned())
            }
        } else {
            let tag_str = join_strings(&tokens, " ");
            assert(" "@ =~= seq![' ']);
            assert(" ; "@ =~= separator());
            if a == b {
                let mut out = String::from_str(" ; ");
                out.append(tag_str.as_str());
                Some(out)
            } else {
                let mut out = d.substring_char(a, b).to_owned();
                out.append(" ; ");
                out.append(tag_str.as_str());
                Some(out)
            }
        }
    }
}

/// A text, or the empty text when there is none.
pub open spec fn text_or_empty(s: Option<Seq<char>>) -> Seq<char> {
    match s {
        Some(t) => t,
        None => seq![],
    }
}

/// Tags whose segments hold neither a colon nor whitespace.
pub open spec fn carried_tags(tags: Seq<Seq<Seq<char>>>) -> bool {
    forall|k: int|
        0 <= k < tags.len() ==> {
            &&& colon_free(#[trigger] tags[k])
            &&& forall|j: int| 0 <= j < tags[k].len() ==> free_of(#[trigger] tags[k][j], Delimiter::Whitespace)
        }
}

/// A description that survives being written into a label: not empty,
/// trimmed, and holding no ` ; `, not even across its end when one follows.
pub open spec fn label_description(d: Seq<char>) -> bool {
    &&& d.len() > 0
    &&& trim(d) == d
    &&& forall|i: int| 0 <= i < d.len() ==> !separator_at(d + separator(), i)
}

proof fn lemma_token_shape(segs: Seq<Seq<char>>)
    requires
        token_segments(segs),
        forall|j: int| 0 <= j < segs.len() ==> free_of(#[trigger] segs[j], Delimiter::Whitespace),
    ensures
        token_text(segs).len() > 0,
        free_of(token_text(segs), Delimiter::Whitespace),
{
    if segs.len() == 1 {
        let t = segs[0].push(':');
        assert(free_of(segs[0], Delimiter::Whitespace));
        assert forall|i: int| 0 <= i < t.len() implies !is_delimiter(Delimiter::Whitespace, #[trigger] t[i]) by {
            if i < segs[0].len() {
                assert(t[i] == segs[0][i]);
            } else {
                assert(t[i] == ':');
                assert(!is_space(':'));
            }
        }
    } else {
        assert(segs[0].len() > 0);
        assert(free_of(seq![':'], Delimiter::Whitespace)) by {
            assert(!is_space(':'));
        }
        lemma_join_shape(segs, seq![':'], Delimiter::Whitespace);
    }
}

/// Writing tags out as tokens and parsing the tokens gives the tags back,
/// for tags whose segments hold no colon.
pub proof fn lemma_tags_of_tokens_roundtrip(tags: Seq<Seq<Seq<char>>>)
    requires
        forall|k: int| 0 <= k < tags.len() ==> token_segments(#[trigger] tags[k]),
    ensures
        tags_of_tokens(tags.map_values(|g: Seq<Seq<char>>| token_text(g))) == tags,
    decreases tags.len(),
{
    let tokens = tags.map_values(|g: Seq<Seq<char>>| token_text(g));
    if tags.len() == 0 {
        assert(tokens =~= Seq::<Seq<char>>::empty());
    } else {
        let init = tags.drop_last();
        assert forall|k: int| 0 <= k < init.len() implies token_segments(#[trigger] init[k]) by {
            assert(init[k] == tags[k]);
        }
        lemma_tags_of_tokens_roundtrip(init);
        assert(tokens.drop_last() =~= init.map_values(|g: Seq<Seq<char>>| token_text(g)));
        assert(token_segments(tags[tags.len() - 1]));
        lemma_token_roundtrip(tags.last());
        assert(tokens.last() == token_text(tags.last()));
        assert(init.push(tags.last()) =~= tags);
    }
}

/// Writing a label out and parsing the string gives the label back, for a
/// description and tags that the format can carry.
pub proof fn lemma_label_roundtrip(description: Option<Seq<char>>, tags: Seq<Seq<Seq<char>>>)
    requires
        description matches Some(d) ==> label_description(d),
        label_tags(tags),
    ensures
        parse_label(
            match label_text(description, tags) {
                Some(t) => t,
                None => seq![],
            },
        ) == (description, tags),
{
    let e = Seq::<char>::empty();
    let dd = match description {
        Some(d) => d,
        None => e,
    };
    assert(trim(e) =~= e);
    assert(trim(dd) == dd);
    if tags.len() == 0 {
        let s = match label_text(description, tags) {
            Some(t) => t,
            None => e,
        };
        assert(s == dd);
        assert(!exists|i: int| separator_at(s, i)) by {
            if exists|i: int| separator_at(s, i) {
                let i = choose|i: int| separator_at(s, i);
                assert(separator_at(dd + separator(), i));
            }
        }
        assert(tags =~= Seq::<Seq<Seq<char>>>::empty());
    } else {
        let tokens = tags.map_values(|g: Seq<Seq<char>>| token_text(g));
        let t = join(tokens, seq![' ']);
        let s = dd + separator() + t;
        if dd.len() == 0 {
            assert(separator() + t =~= s);
        }
        assert(label_text(description, tags) == Some(s));
        let n: int = dd.len() as int;
        assert(separator_at(s, n));
        assert forall|j: int| 0 <= j < n implies !separator_at(s, j) by {
            let ds = dd + separator();
            assert(s[j] == ds[j]);
            assert(s[j + 1] == ds[j + 1]);
            assert(s[j + 2] == ds[j + 2]);
            assert(!separator_at(ds, j));
        }
        lemma_first_separator(s, n);
        assert(s.take(n) =~= dd);
        assert(s.skip(n + 3) =~= t);
        assert forall|k: int| 0 <= k < tokens.len() implies (#[trigger] tokens[k]).len() > 0
            && free_of(tokens[k], Delimiter::Whitespace) by {
            assert(token_segments(tags[k]));
            lemma_token_shape(tags[k]);
        }
        lemma_words_join(tokens, ' ', Delimiter::Whitespace);
        assert forall|k: int| 0 <= k < tags.len() implies token_segments(#[trigger] tags[k]) by {}
        lemma_tags_of_tokens_roundtrip(tags);
    }
}

/// A label string that the format writes is written again, unchanged,
/// after parsing it.
pub proof fn lemma_label_text_fixpoint(description: Option<Seq<char>>, tags: Seq<Seq<Seq<char>>>)
    requires
        description matches Some(d) ==> label_description(d),
        label_tags(tags),
    ensures
        ({
            let p = parse_label(
                match label_text(description, tags) {
                    Some(t) => t,
                    None => seq![],
                },
            );
            label_text(p.0, p.1) == label_text(description, tags)
        }),
{
    lemma_label_roundtrip(description, tags);
}

} // verus!
