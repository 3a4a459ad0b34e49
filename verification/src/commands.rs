//! The decisions of the `bdk-label` commands, apart from their input and output.

use vstd::prelude::*;

use crate::annotation::{record_type_name, Annotation, RecordType};
use crate::label::{option_text, parse_tags, tags_of_tokens};
use crate::tag::{token_text, tokens_of};
use crate::text::{join, join_strings, texts};

verus! {

/// Why a command cannot go on.
#[derive(Debug, Clone, PartialEq, Eq)]
pub enum CommandError {
    /// Reading stdin, there is no wallet name to give the imported annotations.
    WalletRequired,
    /// Neither tags to remove nor `force` to delete the whole annotation.
    ForceRequired,
}

/// What `rm` does.
#[derive(Debug, Clone, Copy, PartialEq, Eq)]
pub enum Removal {
    /// Remove the given tags from the annotation.
    Tags,
    /// Delete the annotation with all its tags.
    Annotation,
}

pub open spec fn or_else(a: Option<String>, b: Option<String>) -> Option<String> {
    match a {
        Some(x) => Some(x),
        None => b,
    }
}

/// The wallet that imported annotations go to: the one given, else the
/// stem of the file read; reading stdin, one of them is required.
pub fn import_wallet(
    wallet: Option<String>,
    file_stem: Option<String>,
    reads_file: bool,
) -> (r: Result<Option<String>, CommandError>)
    ensures
        r is Err <==> !reads_file && or_else(wallet, file_stem) is None,
        r matches Err(e) ==> e == CommandError::WalletRequired,
        r matches Ok(w) ==> w == or_else(wallet, file_stem),
{
    let name = match wallet {
        Some(w) => Some(w),
        None => file_stem,
    };
    if !reads_file && name.is_none() {
        return Err(CommandError::WalletRequired);
    }
    Ok(name)
}

/// What `rm` does: remove the tags given, or delete the whole annotation
/// when none are given and `force` is set.
pub fn removal(tags: &Vec<String>, force: bool) -> (r: Result<Removal, CommandError>)
    ensures
        tags@.len() > 0 ==> r == Ok::<Removal, CommandError>(Removal::Tags),
        tags@.len() == 0 && force ==> r == Ok::<Removal, CommandError>(Removal::Annotation),
        tags@.len() == 0 && !force ==> r == Err::<Removal, CommandError>(CommandError::ForceRequired),
{
    if tags.len() > 0 {
        Ok(Removal::Tags)
    } else if force {
        Ok(Removal::Annotation)
    } else {
        Err(CommandError::ForceRequired)
    }
}

/// The spendable flag of `add`: set by `--spendable`, cleared by
/// `--not-spendable`, absent when neither is given.
pub fn spendable_flag(spendable: bool, not_spendable: bool) -> (r: Option<bool>)
    ensures
        r == if spendable {
            Some(true)
        } else if not_spendable {
            Some(false)
        } else {
            None::<bool>
        },
{
    if spendable {
        Some(true)
    } else if not_spendable {
        Some(false)
    } else {
        None
    }
}

/// The annotation that `add` creates; tag tokens that denote no tag are dropped.
pub fn new_annotation(
    record_type: RecordType,
    ref_: &str,
    description: Option<String>,
    origin: Option<String>,
    tags: &Vec<String>,
    spendable: bool,
    not_spendable: bool,
) -> (a: Annotation)
    ensures
        a@ == (
            record_type,
            ref_@,
            option_text(description),
            option_text(origin),
            if spendable {
                Some(true)
            } else if not_spendable {
                Some(false)
            } else {
                None::<bool>
            },
            tags_of_tokens(texts(tags@)),
        ),
{
    Annotation {
        record_type,
        ref_: ref_.to_owned(),
        description,
        origin,
        spendable: spendable_flag(spendable, not_spendable),
        tags: parse_tags(tags),
    }
}

/// The line that `list` prints for an annotation: the type's name, the
/// reference, the description (`-` when absent), the tokens in brackets when there are tags, and the origin when there is one.
pub open spec fn annotation_line(
    a: (RecordType, Seq<char>, Option<Seq<char>>, Option<Seq<char>>, Option<bool>, Seq<Seq<Seq<char>>>),
) -> Seq<char> {
    let name = record_type_name(a.0);
    name + "  "@ + a.1 + "  "@ + match a.2 {
        Some(d) => d,
        None => "-"@,
    } + if a.5.len() == 0 {
        Seq::<char>::empty()
    } else {
        "  ["@ + join(a.5.map_values(|g: Seq<Seq<char>>| token_text(g)), ", "@) + "]"@
    } + match a.3 {
        Some(o) => "  origin:"@ + o,
        None => Seq::<char>::empty(),
    }
}

/// The line that `list` prints for an annotation.
pub fn format_annotation(a: &Annotation) -> (r: String)
    ensures
        r@ == annotation_line(a@),
{
    let name = a.record_type.as_str();
    let mut line = String::from_str(name);
    line.append("  ");
    line.append(a.ref_.as_str());
    line.append("  ");
    match &a.description {
        Some(d) => line.append(d.as_str()),
        None => line.append("-"),
    }
    if a.tags.len() > 0 {
        let tokens = tokens_of(a.tags.as_slice());
        let joined = join_strings(&tokens, ", ");
        line.append("  [");
        line.append(joined.as_str());
        line.append("]");
    }
    match &a.origin {
        Some(o) => {
            line.append("  origin:");
            line.append(o.as_str());
        },
        None => {},
    }
    line
}

/// How the printed line is made, part by part: the type's name, the
/// reference and the description (`-` when there is none), each after two
/// spaces; then the tokens in brackets exactly when there are tags; then
/// `  origin:` and the origin exactly when there is one, with or without
/// tags. The spendable flag is not printed.
pub proof fn lemma_line_parts(
    a: (RecordType, Seq<char>, Option<Seq<char>>, Option<Seq<char>>, Option<bool>, Seq<Seq<Seq<char>>>),
)
    ensures
        annotation_line((a.0, a.1, a.2, None, a.4, seq![])) == record_type_name(a.0) + "  "@ + a.1
            + "  "@ + match a.2 {
            Some(d) => d,
            None => "-"@,
        },
        a.5.len() > 0 ==> annotation_line((a.0, a.1, a.2, None, a.4, a.5)) == annotation_line(
            (a.0, a.1, a.2, None, a.4, seq![]),
        ) + "  ["@ + join(a.5.map_values(|g: Seq<Seq<char>>| token_text(g)), ", "@) + "]"@,
        a.5.len() == 0 ==> annotation_line((a.0, a.1, a.2, None, a.4, a.5)) == annotation_line(
            (a.0, a.1, a.2, None, a.4, seq![]),
        ),
        a.3 matches Some(o) ==> annotation_line(a) == annotation_line((a.0, a.1, a.2, None, a.4, a.5))
            + "  origin:"@ + o,
        a.3 is None ==> annotation_line(a) == annotation_line((a.0, a.1, a.2, None, a.4, a.5)),
        annotation_line(a) == annotation_line((a.0, a.1, a.2, a.3, None, a.5)),
{
    let e: Seq<Seq<Seq<char>>> = seq![];
    assert(e.len() == 0);
    if a.5.len() == 0 {
        assert(a.5 =~= e);
    }
}

} // verus!
