//! The command line of `bdk-label`, as plain values.

use vstd::prelude::*;

use std::path::PathBuf;

use crate::annotation::RecordType;

verus! {

#[verifier::external_type_specification]
#[verifier::external_body]
pub struct ExPathBuf(PathBuf);

/// The whole command line.
pub struct Cli {
    /// Path to the labels database.
    pub db: Option<PathBuf>,
    pub command: Command,
}

/// The subcommands.
pub enum Command {
    /// Import BIP329 JSONL from stdin or a file.
    Import {
        /// Path to the JSONL file; stdin when absent.
        file: Option<PathBuf>,
        /// Wallet to associate with all imported annotations; defaults to
        /// the file name's stem, required when reading stdin.
        wallet: Option<String>,
    },
    /// Create a new annotation.
    Add {
        annotation: AnnotationRef,
        wallet: String,
        description: Option<String>,
        origin: Option<String>,
        tags: Vec<String>,
        spendable: bool,
        not_spendable: bool,
    },
    /// Set the description (and optionally origin) on an annotation.
    Describe { annotation: AnnotationRef, description: String, origin: Option<String> },
    /// Add tags to an annotation.
    Tag { annotation: AnnotationRef, tags: Vec<String> },
    /// Remove tags from an annotation, or delete it entirely with `force`.
    Rm { annotation: AnnotationRef, tags: Vec<String>, force: bool },
    /// Export annotations as BIP329 JSONL.
    Export { filter: AnnotationFilter },
    /// Query and list stored annotations.
    List { filter: AnnotationFilter },
}

/// Identifies a single annotation; the command line sets exactly one field.
#[derive(Debug, Clone)]
pub struct AnnotationRef {
    pub tx: Option<String>,
    pub addr: Option<String>,
    pub pubkey: Option<String>,
    pub input: Option<String>,
    pub output: Option<String>,
    pub xpub: Option<String>,
}

/// Optional filters for list and export; zero or more may be set.
#[derive(Debug, Clone)]
pub struct AnnotationFilter {
    pub tx: bool,
    pub addr: bool,
    pub pubkey: bool,
    pub input: bool,
    pub output: bool,
    pub xpub: bool,
    pub origin: Option<String>,
    pub wallet: Option<String>,
    pub tags: Vec<String>,
}

/// The first field of `r` that is set, in the order tx, addr, pubkey,
/// input, output, xpub, with the record type it names.
pub open spec fn first_ref(r: AnnotationRef) -> Option<(RecordType, Seq<char>)> {
    if r.tx is Some {
        Some((RecordType::Tx, r.tx->0@))
    } else if r.addr is Some {
        Some((RecordType::Addr, r.addr->0@))
    } else if r.pubkey is Some {
        Some((RecordType::Pubkey, r.pubkey->0@))
    } else if r.input is Some {
        Some((RecordType::Input, r.input->0@))
    } else if r.output is Some {
        Some((RecordType::Output, r.output->0@))
    } else if r.xpub is Some {
        Some((RecordType::Xpub, r.xpub->0@))
    } else {
        None
    }
}

/// The record type of the first flag of `f` that is set, in the order tx,
/// addr, pubkey, input, output, xpub.
pub open spec fn first_flag(f: AnnotationFilter) -> Option<RecordType> {
    if f.tx {
        Some(RecordType::Tx)
    } else if f.addr {
        Some(RecordType::Addr)
    } else if f.pubkey {
        Some(RecordType::Pubkey)
    } else if f.input {
        Some(RecordType::Input)
    } else if f.output {
        Some(RecordType::Output)
    } else if f.xpub {
        Some(RecordType::Xpub)
    } else {
        None
    }
}

impl AnnotationRef {
    /// Whether any field is set, so that `split` has something to name.
    pub fn is_set(&self) -> (r: bool)
        ensures
            r == first_ref(*self) is Some,
            r <==> (self.tx is Some || self.addr is Some || self.pubkey is Some || self.input is Some
                || self.output is Some || self.xpub is Some),
    {
        self.tx.is_some() || self.addr.is_some() || self.pubkey.is_some() || self.input.is_some()
            || self.output.is_some() || self.xpub.is_some()
    }

    /// The record type and reference that the set field names.
    pub fn split(&self) -> (r: (RecordType, &str))
        requires
            first_ref(*self) is Some,
        ensures
            first_ref(*self) == Some((r.0, r.1@)),
            r.0 == RecordType::Tx ==> (self.tx matches Some(v) && v@ == r.1@),
            r.0 == RecordType::Addr ==> (self.addr matches Some(v) && v@ == r.1@),
            r.0 == RecordType::Pubkey ==> (self.pubkey matches Some(v) && v@ == r.1@),
            r.0 == RecordType::Input ==> (self.input matches Some(v) && v@ == r.1@),
            r.0 == RecordType::Output ==> (self.output matches Some(v) && v@ == r.1@),
            r.0 == RecordType::Xpub ==> (self.xpub matches Some(v) && v@ == r.1@),
    {
        if let Some(v) = &self.tx {
            return (RecordType::Tx, v.as_str());
        }
        if let Some(v) = &self.addr {
            return (RecordType::Addr, v.as_str());
        }
        if let Some(v) = &self.pubkey {
            return (RecordType::Pubkey, v.as_str());
        }
        if let Some(v) = &self.input {
            return (RecordType::Input, v.as_str());
        }
        if let Some(v) = &self.output {
            return (RecordType::Output, v.as_str());
        }
        let v = self.xpub.as_ref().unwrap();
        (RecordType::Xpub, v.as_str())
    }
}

/// The record type that a filter asks for, if any.
pub fn filter_record_type(filter: &AnnotationFilter) -> (r: Option<RecordType>)
    ensures
        r == first_flag(*filter),
        r is None <==> !(filter.tx || filter.addr || filter.pubkey || filter.input || filter.output
            || filter.xpub),
        r == Some(RecordType::Tx) ==> filter.tx,
        r == Some(RecordType::Addr) ==> filter.addr,
        r == Some(RecordType::Pubkey) ==> filter.pubkey,
        r == Some(RecordType::Input) ==> filter.input,
        r == Some(RecordType::Output) ==> filter.output,
        r == Some(RecordType::Xpub) ==> filter.xpub,
{
    if filter.tx {
        Some(RecordType::Tx)
    } else if filter.addr {
        Some(RecordType::Addr)
    } else if filter.pubkey {
        Some(RecordType::Pubkey)
    } else if filter.input {
        Some(RecordType::Input)
    } else if filter.output {
        Some(RecordType::Output)
    } else if filter.xpub {
        Some(RecordType::Xpub)
    } else {
        None
    }
}

/// A reference names the record type of the field that is set, with that
/// field's text; when the command line sets more than one (it sets exactly
/// one), the first in the order tx, addr, pubkey, input, output, xpub wins.
/// Nothing is named exactly when no field is set.
pub proof fn lemma_ref_names_its_field(r: AnnotationRef)
    ensures
        first_ref(r) is Some <==> (r.tx is Some || r.addr is Some || r.pubkey is Some || r.input is Some
            || r.output is Some || r.xpub is Some),
        r.tx matches Some(v) ==> first_ref(r) == Some((RecordType::Tx, v@)),
        r.tx is None ==> (r.addr matches Some(v) ==> first_ref(r) == Some((RecordType::Addr, v@))),
        r.tx is None && r.addr is None ==> (r.pubkey matches Some(v) ==> first_ref(r) == Some(
            (RecordType::Pubkey, v@),
        )),
        r.tx is None && r.addr is None && r.pubkey is None ==> (r.input matches Some(v) ==> first_ref(r)
            == Some((RecordType::Input, v@))),
        r.tx is None && r.addr is None && r.pubkey is None && r.input is None ==> (
        r.output matches Some(v) ==> first_ref(r) == Some((RecordType::Output, v@))),
        r.tx is None && r.addr is None && r.pubkey is None && r.input is None && r.output is None ==> (
        r.xpub matches Some(v) ==> first_ref(r) == Some((RecordType::Xpub, v@))),
{
}

/// Each type flag of a filter selects its own record type; when more than
/// one is set, the first in the order tx, addr, pubkey, input, output, xpub
/// wins, and with none set nothing is selected.
pub proof fn lemma_flag_selects_its_type(f: AnnotationFilter)
    ensures
        first_flag(f) is None <==> !(f.tx || f.addr || f.pubkey || f.input || f.output || f.xpub),
        f.tx ==> first_flag(f) == Some(RecordType::Tx),
        !f.tx && f.addr ==> first_flag(f) == Some(RecordType::Addr),
        !f.tx && !f.addr && f.pubkey ==> first_flag(f) == Some(RecordType::Pubkey),
        !f.tx && !f.addr && !f.pubkey && f.input ==> first_flag(f) == Some(RecordType::Input),
        !f.tx && !f.addr && !f.pubkey && !f.input && f.output ==> first_flag(f) == Some(
            RecordType::Output,
        ),
        !f.tx && !f.addr && !f.pubkey && !f.input && !f.output && f.xpub ==> first_flag(f) == Some(
            RecordType::Xpub,
        ),
{
}

} // verus!
