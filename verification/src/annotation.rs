//! Annotations: what the tool stores about one piece of Bitcoin data.

use vstd::prelude::*;

use crate::label::{option_text, tag_views};
use crate::tag::Tag;
use crate::text::chars_of;

verus! {

/// An annotation on one reference of one kind.
#[derive(Debug, Clone, PartialEq, Eq)]
pub struct Annotation {
    pub record_type: RecordType,
    pub ref_: String,
    pub description: Option<String>,
    pub origin: Option<String>,
    pub spendable: Option<bool>,
    pub tags: Vec<Tag>,
}

impl View for Annotation {
    type V = (RecordType, Seq<char>, Option<Seq<char>>, Option<Seq<char>>, Option<bool>, Seq<Seq<Seq<char>>>);

    open spec fn view(&self) -> Self::V {
        (
            self.record_type,
            self.ref_@,
            option_text(self.description),
            option_text(self.origin),
            self.spendable,
            tag_views(self.tags@),
        )
    }
}

/// The kinds of data that BIP329 labels.
#[derive(Debug, Clone, Copy, PartialEq, Eq, Structural)]
pub enum RecordType {
    Tx,
    Addr,
    Pubkey,
    Input,
    Output,
    Xpub,
}

/// The name of a record type, as BIP329 writes it.
pub open spec fn record_type_name(t: RecordType) -> Seq<char> {
    match t {
        RecordType::Tx => seq!['t', 'x'],
        RecordType::Addr => seq!['a', 'd', 'd', 'r'],
        RecordType::Pubkey => seq!['p', 'u', 'b', 'k', 'e', 'y'],
        RecordType::Input => seq!['i', 'n', 'p', 'u', 't'],
        RecordType::Output => seq!['o', 'u', 't', 'p', 'u', 't'],
        RecordType::Xpub => seq!['x', 'p', 'u', 'b'],
    }
}

/// A text that names no record type.
#[derive(Debug, Clone, PartialEq, Eq)]
pub struct UnknownRecordType {
    pub text: String,
}

/// Whether two texts are equal.
pub fn text_equals(a: &str, b: &str) -> (r: bool)
    ensures
        r == (a@ == b@),
{
    let x = chars_of(a);
    let y = chars_of(b);
    if x.len() != y.len() {
        return false;
    }
    let mut i: usize = 0;
    while i < x.len()
        invariant
            x@ == a@,
            y@ == b@,
            x@.len() == y@.len(),
            i <= x@.len(),
            forall|j: int| 0 <= j < i ==> x@[j] == y@[j],
        decreases x@.len() - i,
    {
        if x[i] != y[i] {
            return false;
        }
        i = i + 1;
    }
    assert(a@ =~= b@);
    true
}

impl RecordType {
    /// The name of the record type: `tx`, `addr`, `pubkey`, `input`, `output` or `xpub`.
    pub fn as_str(&self) -> (r: &'static str)
        ensures
            r@ == record_type_name(*self),
    {
        proof {
            reveal_strlit("tx");
            reveal_strlit("addr");
            reveal_strlit("pubkey");
            reveal_strlit("input");
            reveal_strlit("output");
            reveal_strlit("xpub");
        }
        match self {
            RecordType::Tx => {
                assert("tx"@ =~= record_type_name(RecordType::Tx));
                "tx"
            },
            RecordType::Addr => {
                assert("addr"@ =~= record_type_name(RecordType::Addr));
                "addr"
            },
            RecordType::Pubkey => {
                assert("pubkey"@ =~= record_type_name(RecordType::Pubkey));
                "pubkey"
            },
            RecordType::Input => {
                assert("input"@ =~= record_type_name(RecordType::Input));
                "input"
            },
            RecordType::Output => {
                assert("output"@ =~= record_type_name(RecordType::Output));
                "output"
            },
            RecordType::Xpub => {
                assert("xpub"@ =~= record_type_name(RecordType::Xpub));
                "xpub"
            },
        }
    }

    /// The name of the record type as an owned string.
    pub fn to_string(&self) -> (r: String)
        ensures
            r@ == record_type_name(*self),
    {
        self.as_str().to_owned()
    }

    /// The record type that `s` names, or an error that carries `s`.
    pub fn from_str(s: &str) -> (r: Result<RecordType, UnknownRecordType>)
        ensures
            r matches Ok(t) ==> record_type_named(s@) == Some(t),
            r is Err <==> record_type_named(s@) is None,
            r matches Err(e) ==> e.text@ == s@,
    {
        let all = [
            RecordType::Tx,
            RecordType::Addr,
            RecordType::Pubkey,
            RecordType::Input,
            RecordType::Output,
            RecordType::Xpub,
        ];
        proof {
            if exists|t: RecordType| record_type_name(t) == s@ {
                let u = choose|t: RecordType| record_type_name(t) == s@;
                assert forall|t: RecordType| record_type_name(t) == s@ implies t == u by {
                    lemma_record_type_names_distinct(t, u);
                }
            }
        }
        let mut i: usize = 0;
        while i < 6
            invariant
                i <= 6,
                all@ == seq![
                    RecordType::Tx,
                    RecordType::Addr,
                    RecordType::Pubkey,
                    RecordType::Input,
                    RecordType::Output,
                    RecordType::Xpub,
                ],
                forall|j: int| 0 <= j < i ==> record_type_name(#[trigger] all@[j]) != s@,
            decreases 6 - i,
        {
            let t = all[i];
            if text_equals(t.as_str(), s) {
                proof {
                    let u = choose|u: RecordType| record_type_name(u) == s@;
                    lemma_record_type_names_distinct(t, u);
                }
                return Ok(t);
            }
            i = i + 1;
        }
        assert forall|t: RecordType| record_type_name(t) != s@ by {
            match t {
                RecordType::Tx => assert(all@[0] == t),
                RecordType::Addr => assert(all@[1] == t),
                RecordType::Pubkey => assert(all@[2] == t),
                RecordType::Input => assert(all@[3] == t),
                RecordType::Output => assert(all@[4] == t),
                RecordType::Xpub => assert(all@[5] == t),
            }
        }
        Err(UnknownRecordType { text: s.to_owned() })
    }
}

/// Distinct record types have distinct names.
pub proof fn lemma_record_type_names_distinct(a: RecordType, b: RecordType)
    ensures
        record_type_name(a) == record_type_name(b) ==> a == b,
{
    if record_type_name(a) == record_type_name(b) {
        let x = record_type_name(a);
        let y = record_type_name(b);
        assert(x.len() == y.len());
        assert(x[0] == y[0]);
        if x.len() > 1 {
            assert(x[1] == y[1]);
        }
    }
}

/// The record type that `text` names, if any.
pub open spec fn record_type_named(text: Seq<char>) -> Option<RecordType> {
    if exists|t: RecordType| record_type_name(t) == text {
        Some(choose|t: RecordType| record_type_name(t) == text)
    } else {
        None
    }
}

/// A record type's name names that record type.
pub proof fn lemma_record_type_named(t: RecordType)
    ensures
        record_type_named(record_type_name(t)) == Some(t),
{
    let u = choose|u: RecordType| record_type_name(u) == record_type_name(t);
    lemma_record_type_names_distinct(u, t);
}

} // verus!
