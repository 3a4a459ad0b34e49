//! What the label store computes around its SQL: the statements and their
//! parameters, and the annotations that rows stand for.

use vstd::prelude::*;

use crate::annotation::{lemma_record_type_named, record_type_named, record_type_name, Annotation, RecordType, UnknownRecordType};
use crate::label::{lemma_tags_of_tokens_roundtrip, option_text, parse_tags, tags_of_tokens};
use crate::tag::{token_segments, token_text, tokens_of, Tag};
use crate::text::texts;

verus! {

/// A SQL statement and the text parameters bound to its `?` places, in order.
pub struct Statement {
    pub sql: String,
    pub params: Vec<String>,
}

/// `s` written `n` times.
pub open spec fn repeated(s: Seq<char>, n: nat) -> Seq<char>
    decreases n,
{
    if n == 0 {
        seq![]
    } else {
        repeated(s, (n - 1) as nat) + s
    }
}

pub open spec fn when(b: bool, s: Seq<char>) -> Seq<char> {
    if b {
        s
    } else {
        seq![]
    }
}

/// The query of `list`: every record, narrowed by type, origin and wallet
/// when they are given and by one clause per tag (all must match), ordered
/// by type and reference.
pub open spec fn list_sql(has_type: bool, has_origin: bool, has_wallet: bool, n_tags: nat) -> Seq<
    char,
> {
    "SELECT id, type, ref, description, origin, spendable FROM records WHERE 1=1"@ + when(
        has_type,
        " AND type = ?"@,
    ) + when(has_origin, " AND origin = ?"@) + when(has_wallet, " AND wallet = ?"@) + repeated(
        " AND id IN (SELECT record_id FROM tags WHERE token = ?)"@,
        n_tags,
    ) + " ORDER BY type, ref"@
}

pub open spec fn optional_param(p: Option<Seq<char>>) -> Seq<Seq<char>> {
    match p {
        Some(x) => seq![x],
        None => seq![],
    }
}

/// The parameters of the `list` query: the type's name, the origin, the
/// wallet (each when given), then the token of every tag.
pub open spec fn list_params(
    record_type: Option<RecordType>,
    origin: Option<Seq<char>>,
    wallet: Option<Seq<char>>,
    tags: Seq<Seq<Seq<char>>>,
) -> Seq<Seq<char>> {
    optional_param(
        match record_type {
            Some(t) => Some(record_type_name(t)),
            None => None,
        },
    ) + optional_param(origin) + optional_param(wallet) + tags.map_values(
        |g: Seq<Seq<char>>| token_text(g),
    )
}

pub open spec fn str_text(s: Option<&str>) -> Option<Seq<char>> {
    match s {
        Some(t) => Some(t@),
        None => None,
    }
}

/// The query and parameters that `list` runs for the given filters.
pub fn list_query(
    record_type: Option<RecordType>,
    origin: Option<&str>,
    wallet: Option<&str>,
    tags: &[Tag],
) -> (r: Statement)
    ensures
        r.sql@ == list_sql(record_type is Some, origin is Some, wallet is Some, tags@.len()),
        texts(r.params@) == list_params(
            record_type,
            str_text(origin),
            str_text(wallet),
            tags@.map_values(|t: Tag| t@),
        ),
{
    let mut sql = String::from_str(
        "SELECT id, type, ref, description, origin, spendable FROM records WHERE 1=1",
    );
    let mut params: Vec<String> = Vec::new();
    if let Some(t) = record_type {
        sql.append(" AND type = ?");
        params.push(t.to_string());
    }
    assert(texts(params@) =~= optional_param(
        match record_type {
            Some(t) => Some(record_type_name(t)),
            None => None,
        },
    ));
    let ghost p1 = texts(params@);
    if let Some(o) = origin {
        sql.append(" AND origin = ?");
        params.push(o.to_owned());
    }
    assert(texts(params@) =~= p1 + optional_param(str_text(origin)));
    let ghost p2 = texts(params@);
    if let Some(w) = wallet {
        sql.append(" AND wallet = ?");
        params.push(w.to_owned());
    }
    assert(texts(params@) =~= p2 + optional_param(str_text(wallet)));
    let ghost head = sql@;
    let ghost p3 = texts(params@);
    let tokens = tokens_of(tags);
    let mut k: usize = 0;
    while k < tags.len()
        invariant
            k <= tags@.len(),
            texts(tokens@) == tags@.map_values(|t: Tag| t@).map_values(|g: Seq<Seq<char>>| token_text(g)),
            sql@ == head + repeated(" AND id IN (SELECT record_id FROM tags WHERE token = ?)"@, k as nat),
            texts(params@) == p3 + texts(tokens@).take(k as int),
            params@.len() == p3.len() + k,
        decreases tags@.len() - k,
    {
        sql.append(" AND id IN (SELECT record_id FROM tags WHERE token = ?)");
        let ghost before = params@;
        assert(texts(tokens@).len() == tokens@.len());
        let c = tokens[k].clone();
        assert(c@ == texts(tokens@)[k as int]);
        params.push(c);
        proof {
            assert(params@ == before.push(c));
            assert(texts(params@).len() == p3.len() + k + 1);
            assert(texts(params@)[p3.len() + k] == c@);
            assert(tokens@.len() == tags@.len());
            let rhs = p3 + texts(tokens@).take(k + 1);
            let prev = p3 + texts(tokens@).take(k as int);
            assert forall|j: int| 0 <= j < p3.len() + k implies texts(params@)[j] == rhs[j] by {
                assert(params@[j] == before[j]);
                assert(texts(before)[j] == prev[j]);
                if j < p3.len() {
                    assert(rhs[j] == p3[j]);
                    assert(prev[j] == p3[j]);
                } else {
                    assert(rhs[j] == texts(tokens@)[j - p3.len()]);
                    assert(prev[j] == texts(tokens@)[j - p3.len()]);
                }
            }
            assert(rhs[p3.len() + k] == texts(tokens@)[k as int]);
            assert(texts(params@) =~= p3 + texts(tokens@).take(k + 1));
        }
        k = k + 1;
    }
    sql.append(" ORDER BY type, ref");
    proof {
        assert(texts(tokens@).take(k as int) =~= texts(tokens@));
    }
    Statement { sql, params }
}

/// The value that the `spendable` column stores: 1, 0, or NULL.
pub fn spendable_column(spendable: Option<bool>) -> (r: Option<i64>)
    ensures
        r == column_of_spendable(spendable),
{
    match spendable {
        Some(true) => Some(1),
        Some(false) => Some(0),
        None => None,
    }
}

/// The annotation that a stored record stands for: its type read from
/// `type_text`, its `spendable` column read as a flag (any value but 0 is
/// true), its tags parsed from the stored tokens (tokens that denote no tag
/// are dropped).
pub fn annotation_from_row(
    type_text: &str,
    ref_: String,
    description: Option<String>,
    origin: Option<String>,
    spendable: Option<i64>,
    tokens: &Vec<String>,
) -> (r: Result<Annotation, UnknownRecordType>)
    ensures
        r is Err <==> record_type_named(type_text@) is None,
        r matches Err(e) ==> e.text@ == type_text@,
        r matches Ok(a) ==> {
            &&& record_type_named(type_text@) == Some(a.record_type)
            &&& a@.1 == ref_@
            &&& a@.2 == option_text(description)
            &&& a@.3 == option_text(origin)
            &&& a@.4 == spendable_of_column(spendable)
            &&& a@.5 == tags_of_tokens(texts(tokens@))
        },
{
    let record_type = match RecordType::from_str(type_text) {
        Ok(t) => t,
        Err(e) => return Err(e),
    };
    let flag = match spendable {
        Some(s) => Some(s != 0),
        None => None,
    };
    Ok(
        Annotation {
            record_type,
            ref_,
            description,
            origin,
            spendable: flag,
            tags: parse_tags(tokens),
        },
    )
}

/// The statement that `describe` runs: it sets the description, and the
/// origin when one is given, of the record of the given type and reference.
pub fn description_update(
    record_type: RecordType,
    ref_: &str,
    description: &str,
    origin: Option<&str>,
) -> (r: Statement)
    ensures
        r.sql@ == if origin is Some {
            "UPDATE records SET description = ?1, origin = ?2 WHERE type = ?3 AND ref = ?4"@
        } else {
            "UPDATE records SET description = ?1 WHERE type = ?2 AND ref = ?3"@
        },
        texts(r.params@) == seq![description@] + optional_param(str_text(origin)) + seq![
            record_type_name(record_type),
            ref_@,
        ],
{
    let mut params: Vec<String> = Vec::new();
    params.push(description.to_owned());
    let sql = match origin {
        Some(o) => {
            params.push(o.to_owned());
            String::from_str(
                "UPDATE records SET description = ?1, origin = ?2 WHERE type = ?3 AND ref = ?4",
            )
        },
        None => String::from_str("UPDATE records SET description = ?1 WHERE type = ?2 AND ref = ?3"),
    };
    params.push(record_type.to_string());
    params.push(ref_.to_owned());
    assert(texts(params@) =~= seq![description@] + optional_param(str_text(origin)) + seq![
        record_type_name(record_type),
        ref_@,
    ]);
    Statement { sql, params }
}


/// The flag that a `spendable` column value stands for: any value but 0 is true.
pub open spec fn spendable_of_column(c: Option<i64>) -> Option<bool> {
    match c {
        Some(s) => Some(s != 0),
        None => None,
    }
}

/// The `spendable` column value that a flag is stored as.
pub open spec fn column_of_spendable(b: Option<bool>) -> Option<i64> {
    match b {
        Some(true) => Some(1i64),
        Some(false) => Some(0i64),
        None => None,
    }
}

/// What is stored of an annotation reads back as the annotation: the type
/// from its name, the spendable flag from its column value, the tags from
/// their tokens (for tags whose segments hold no colon).
pub proof fn lemma_stored_annotation_reads_back(
    t: RecordType,
    spendable: Option<bool>,
    tags: Seq<Seq<Seq<char>>>,
)
    requires
        forall|k: int| 0 <= k < tags.len() ==> token_segments(#[trigger] tags[k]),
    ensures
        record_type_named(record_type_name(t)) == Some(t),
        spendable_of_column(column_of_spendable(spendable)) == spendable,
        tags_of_tokens(tags.map_values(|g: Seq<Seq<char>>| token_text(g))) == tags,
{
    lemma_record_type_named(t);
    lemma_tags_of_tokens_roundtrip(tags);
}

proof fn lemma_repeated_len(s: Seq<char>, n: nat)
    ensures
        repeated(s, n).len() == n * s.len(),
    decreases n,
{
    if n > 0 {
        lemma_repeated_len(s, (n - 1) as nat);
        assert((n - 1) * s.len() + s.len() == n * s.len()) by (nonlinear_arith);
        assert(repeated(s, n) == repeated(s, (n - 1) as nat) + s);
    } else {
        assert(n * s.len() == 0) by (nonlinear_arith)
            requires
                n == 0,
        ;
    }
}

proof fn lemma_repeated_at(s: Seq<char>, n: nat, k: int)
    requires
        0 <= k < n,
    ensures
        repeated(s, n).subrange(k * s.len(), k * s.len() + s.len()) == s,
    decreases n,
{
    lemma_repeated_len(s, (n - 1) as nat);
    let prev = repeated(s, (n - 1) as nat);
    assert(repeated(s, n) == prev + s);
    if k == n - 1 {
        assert(k * s.len() == prev.len());
        assert((prev + s).subrange(k * s.len(), k * s.len() + s.len()) =~= s);
    } else {
        lemma_repeated_at(s, (n - 1) as nat, k);
        assert(k * s.len() + s.len() <= prev.len()) by (nonlinear_arith)
            requires
                k < n - 1,
                0 <= k,
                prev.len() == (n - 1) * s.len(),
        ;
        assert(0 <= k * s.len()) by (nonlinear_arith)
            requires
                0 <= k,
        ;
        assert((prev + s).subrange(k * s.len(), k * s.len() + s.len()) =~= prev.subrange(
            k * s.len(),
            k * s.len() + s.len(),
        ));
    }
}

/// The `list` query, clause by clause, and the parameter that each `?`
/// binds: it selects every record, then narrows by the type, the origin
/// and the wallet, each exactly when it is given and whatever the others
/// are, then by one clause per tag (all must match), and orders by type and
/// reference; the parameters are the type's name, the origin, the wallet
/// (each when given) and every tag's token, in the order of their `?`.
pub proof fn lemma_list_query_filters(
    record_type: Option<RecordType>,
    origin: Option<Seq<char>>,
    wallet: Option<Seq<char>>,
    tags: Seq<Seq<Seq<char>>>,
)
    ensures
        ({
            let sql = list_sql(record_type is Some, origin is Some, wallet is Some, tags.len());
            let params = list_params(record_type, origin, wallet, tags);
            let nt: int = if record_type is Some { 1 } else { 0 };
            let no: int = if origin is Some { 1 } else { 0 };
            let nw: int = if wallet is Some { 1 } else { 0 };
            let at_origin: int = 75 + 13 * nt;
            let at_wallet: int = at_origin + 15 * no;
            let at_tags: int = at_wallet + 15 * nw;
            &&& sql.len() == at_tags + 55 * tags.len() + 19
            &&& sql.subrange(0, 75)
                == "SELECT id, type, ref, description, origin, spendable FROM records WHERE 1=1"@
            &&& sql.subrange(sql.len() - 19, sql.len() as int) == " ORDER BY type, ref"@
            &&& params.len() == nt + no + nw + tags.len()
            &&& record_type matches Some(t) ==> sql.subrange(75, 88) == " AND type = ?"@ && params[0]
                == record_type_name(t)
            &&& origin matches Some(o) ==> sql.subrange(at_origin, at_origin + 15) == " AND origin = ?"@
                && params[nt] == o
            &&& wallet matches Some(w) ==> sql.subrange(at_wallet, at_wallet + 15) == " AND wallet = ?"@
                && params[nt + no] == w
            &&& forall|i: int|
                0 <= i < tags.len() ==> sql.subrange(at_tags + 55 * i, at_tags + 55 * i + 55)
                    == " AND id IN (SELECT record_id FROM tags WHERE token = ?)"@ && params[nt + no + nw
                    + i] == token_text(#[trigger] tags[i])
        }),
{
    reveal_strlit("SELECT id, type, ref, description, origin, spendable FROM records WHERE 1=1");
    reveal_strlit(" AND type = ?");
    reveal_strlit(" AND origin = ?");
    reveal_strlit(" AND wallet = ?");
    reveal_strlit(" AND id IN (SELECT record_id FROM tags WHERE token = ?)");
    reveal_strlit(" ORDER BY type, ref");
    let base = "SELECT id, type, ref, description, origin, spendable FROM records WHERE 1=1"@;
    let ct = when(record_type is Some, " AND type = ?"@);
    let co = when(origin is Some, " AND origin = ?"@);
    let cw = when(wallet is Some, " AND wallet = ?"@);
    let tag_clause = " AND id IN (SELECT record_id FROM tags WHERE token = ?)"@;
    let ctags = repeated(tag_clause, tags.len());
    let order = " ORDER BY type, ref"@;
    let sql = list_sql(record_type is Some, origin is Some, wallet is Some, tags.len());
    let head = base + ct + co + cw;
    assert(sql == head + ctags + order);
    lemma_repeated_len(tag_clause, tags.len());
    assert(sql.subrange(0, 75) =~= base);
    assert(sql.subrange(sql.len() - 19, sql.len() as int) =~= order);
    assert(sql.subrange(75, 75 + ct.len() as int) =~= ct);
    assert(sql.subrange((base.len() + ct.len()) as int, (base.len() + ct.len() + co.len()) as int) =~= co);
    assert(sql.subrange((base + ct + co).len() as int, head.len() as int) =~= cw);
    assert forall|i: int| 0 <= i < tags.len() implies #[trigger] sql.subrange(
        head.len() + 55 * i,
        head.len() + 55 * i + 55,
    ) == tag_clause by {
        lemma_repeated_at(tag_clause, tags.len(), i);
        assert(i * 55 + 55 <= ctags.len()) by (nonlinear_arith)
            requires
                i < tags.len(),
                ctags.len() == tags.len() * 55,
        ;
        assert(sql.subrange(head.len() + 55 * i, head.len() + 55 * i + 55) =~= ctags.subrange(
            i * 55,
            i * 55 + 55,
        ));
    }
    let pt = optional_param(
        match record_type {
            Some(t) => Some(record_type_name(t)),
            None => None,
        },
    );
    let po = optional_param(origin);
    let pw = optional_param(wallet);
    let ptags = tags.map_values(|g: Seq<Seq<char>>| token_text(g));
    let params = list_params(record_type, origin, wallet, tags);
    assert(params == pt + po + pw + ptags);
    assert forall|i: int| 0 <= i < tags.len() implies params[pt.len() + po.len() + pw.len() + i]
        == token_text(#[trigger] tags[i]) by {}
}

} // verus!
