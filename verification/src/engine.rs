//! The query engine: compiles a query once and filters the keyed record
//! collections of a [`StorageData`] with it, returning matching records
//! unmodified, or only their unique ids.

use vstd::prelude::*;
use crate::expr::{Expr, SpecExpr, expr_view};
use crate::eval::{eval_expr, evaluate};
use crate::model::{FolderModel, TagModel, SnippetModel, StorageData};
use crate::parse::{SyntaxError, parse_query, spec_parse_query};
use crate::record::Queryable;
use crate::text::str_eq;

verus! {

/// The records of a keyed collection, in collection order.
pub open spec fn values_of<T>(data: Seq<(String, T)>) -> Seq<T> {
    data.map_values(|p: (String, T)| p.1)
}

/// The predicate an expression imposes on one record kind.
pub open spec fn match_pred<T: Queryable>(e: SpecExpr) -> spec_fn(T) -> bool {
    |t: T| eval_expr(e, t.record_view())
}

/// The records of `data` the expression matches, in collection order.
pub open spec fn matching<T: Queryable>(data: Seq<(String, T)>, e: SpecExpr) -> Seq<T> {
    values_of(data).filter(match_pred(e))
}

/// The ids of a sequence of records.
pub open spec fn ids_of<T: Queryable>(s: Seq<T>) -> Seq<Seq<char>> {
    s.map_values(|t: T| t.id_view())
}

/// The records a sequence of references points at.
pub open spec fn derefs<T>(s: Seq<&T>) -> Seq<T> {
    s.map_values(|t: &T| *t)
}

/// Filtering a sequence extended by one element keeps the element exactly
/// when the predicate holds of it.
pub proof fn lemma_filter_push<A>(s: Seq<A>, pred: spec_fn(A) -> bool, x: A)
    ensures
        s.push(x).filter(pred) == (if pred(x) {
            s.filter(pred).push(x)
        } else {
            s.filter(pred)
        }),
{
    reveal_with_fuel(Seq::filter, 2);
    assert(s.push(x).drop_last() =~= s);
    assert(s.push(x).last() == x);
    assert(s.push(x).filter(pred) == (if pred(x) {
        s.filter(pred).push(x)
    } else {
        s.filter(pred)
    }));
}

/// Filters a keyed collection with a compiled expression: the sub-sequence
/// of records the expression matches, unmodified and in collection order.
#[verifier::loop_isolation(false)]
pub fn execute_query<'a, T: Queryable>(data: &'a Vec<(String, T)>, expr: &Expr) -> (res: Vec<
    &'a T,
>)
    ensures
        derefs(res@) == matching(data@, expr_view(*expr)),
{
    let ghost e = expr_view(*expr);
    let mut res: Vec<&'a T> = Vec::new();
    proof {
        assert(data@.take(0) =~= Seq::<(String, T)>::empty());
        assert(values_of(data@.take(0)) =~= Seq::<T>::empty());
        assert(derefs(res@) =~= matching(data@.take(0), e));
    }
    let mut i: usize = 0;
    while i < data.len()
        invariant
            i <= data.len(),
            derefs(res@) == matching(data@.take(i as int), e),
        decreases data.len() - i,
    {
        let t = &data[i].1;
        let rec = t.to_record();
        let ghost prev = res@;
        let keep = evaluate(expr, &rec);
        if keep {
            res.push(t);
        }
        proof {
            let tv = data@[i as int].1;
            assert(values_of(data@.take(i as int + 1)) =~= values_of(data@.take(i as int)).push(
                tv,
            ));
            lemma_filter_push(values_of(data@.take(i as int)), match_pred::<T>(e), tv);
            assert(match_pred::<T>(e)(tv) == eval_expr(e, tv.record_view()));
            if keep {
                assert(derefs(res@) =~= derefs(prev).push(tv));
            }
        }
        i = i + 1;
    }
    proof {
        assert(data@.take(data.len() as int) =~= data@);
    }
    res
}

/// Filters a keyed collection and projects only the unique ids of the
/// matching records, in collection order.
#[verifier::loop_isolation(false)]
pub fn execute_query_ids<T: Queryable>(data: &Vec<(String, T)>, expr: &Expr) -> (res: Vec<String>)
    ensures
        res.deep_view() == ids_of(matching(data@, expr_view(*expr))),
{
    let refs = execute_query(data, expr);
    let ghost sel = matching(data@, expr_view(*expr));
    let mut res: Vec<String> = Vec::new();
    proof {
        assert(res.deep_view() =~= ids_of(sel.take(0)));
    }
    let mut j: usize = 0;
    while j < refs.len()
        invariant
            j <= refs.len(),
            refs@.len() == sel.len(),
            derefs(refs@) == sel,
            res.deep_view() == ids_of(sel.take(j as int)),
        decreases refs.len() - j,
    {
        let ghost prev = res.deep_view();
        res.push(refs[j].id_string());
        proof {
            assert(derefs(refs@)[j as int] == sel[j as int]);
            assert(ids_of(sel.take(j as int + 1)) =~= ids_of(sel.take(j as int)).push(
                sel[j as int].id_view(),
            ));
            assert(res.deep_view() =~= prev.push(sel[j as int].id_view()));
        }
        j = j + 1;
    }
    proof {
        assert(sel.take(sel.len() as int) =~= sel);
    }
    res
}

/// Whether some string of `ids` equals `s`.
#[verifier::loop_isolation(false)]
fn vec_contains_str(ids: &Vec<String>, s: &str) -> (r: bool)
    ensures
        r == ids.deep_view().contains(s@),
{
    let mut i: usize = 0;
    while i < ids.len()
        invariant
            i <= ids.len(),
            forall|m: int| 0 <= m < i ==> ids.deep_view()[m] != s@,
        decreases ids.len() - i,
    {
        if str_eq(ids[i].as_str(), s) {
            proof {
                assert(ids.deep_view()[i as int] == s@);
            }
            return true;
        }
        i = i + 1;
    }
    false
}

/// Whether some tag of `tags` occurs in `ids`.
#[verifier::loop_isolation(false)]
fn any_tag_in(tags: &Vec<String>, ids: &Vec<String>) -> (r: bool)
    ensures
        r == (exists|k: int|
            0 <= k < tags.deep_view().len() && ids.deep_view().contains(
                #[trigger] tags.deep_view()[k],
            )),
{
    let mut k: usize = 0;
    while k < tags.len()
        invariant
            k <= tags.len(),
            forall|m: int|
                0 <= m < k ==> !ids.deep_view().contains(#[trigger] tags.deep_view()[m]),
        decreases tags.len() - k,
    {
        if vec_contains_str(ids, tags[k].as_str()) {
            proof {
                assert(ids.deep_view().contains(tags.deep_view()[k as int]));
            }
            return true;
        }
        k = k + 1;
    }
    false
}

/// The engine: holds one loaded database and answers queries against it.
pub struct QueryEngine {
    pub data: StorageData,
}

impl QueryEngine {
    /// An engine over an already-loaded database.
    pub fn new(data: StorageData) -> (s: Self)
        ensures
            s.data == data,
    {
        QueryEngine { data }
    }
}

/// What a query returns: the matching records of one kind, borrowed from
/// the engine unmodified, or only their unique ids.
#[derive(Debug)]
pub enum QueryOutput<'a> {
    Folders(Vec<&'a FolderModel>),
    Tags(Vec<&'a TagModel>),
    Snippets(Vec<&'a SnippetModel>),
    Ids(Vec<String>),
}

/// Runs a query over the folder collection.
pub fn query_folders<'a>(engine: &'a QueryEngine, query: &str, return_ids: bool) -> (r: Result<
    QueryOutput<'a>,
    SyntaxError,
>)
    ensures
        match r {
            Ok(out) => spec_parse_query(query@) matches Some(e) && (if return_ids {
                out matches QueryOutput::Ids(v) && v.deep_view() == ids_of(
                    matching(engine.data.folders@, e),
                )
            } else {
                out matches QueryOutput::Folders(v) && derefs(v@) == matching(
                    engine.data.folders@,
                    e,
                )
            }),
            Err(err) => spec_parse_query(query@) is None,
        },
{
    let expr = match parse_query(query) {
        Ok(e) => e,
        Err(err) => {
            return Err(err);
        },
    };
    if return_ids {
        Ok(QueryOutput::Ids(execute_query_ids(&engine.data.folders, &expr)))
    } else {
        Ok(QueryOutput::Folders(execute_query(&engine.data.folders, &expr)))
    }
}

/// Runs a query over the tag collection.
pub fn query_tags<'a>(engine: &'a QueryEngine, query: &str, return_ids: bool) -> (r: Result<
    QueryOutput<'a>,
    SyntaxError,
>)
    ensures
        match r {
            Ok(out) => spec_parse_query(query@) matches Some(e) && (if return_ids {
                out matches QueryOutput::Ids(v) && v.deep_view() == ids_of(
                    matching(engine.data.tags@, e),
                )
            } else {
                out matches QueryOutput::Tags(v) && derefs(v@) == matching(engine.data.tags@, e)
            }),
            Err(err) => spec_parse_query(query@) is None,
        },
{
    let expr = match parse_query(query) {
        Ok(e) => e,
        Err(err) => {
            return Err(err);
        },
    };
    if return_ids {
        Ok(QueryOutput::Ids(execute_query_ids(&engine.data.tags, &expr)))
    } else {
        Ok(QueryOutput::Tags(execute_query(&engine.data.tags, &expr)))
    }
}

/// The predicate a snippet query imposes: the expression must match, the
/// snippet's folder must be among the pre-resolved folder ids (when a
/// folder sub-query was given), and some tag of the snippet must be among
/// the pre-resolved tag ids (when a tag sub-query was given).
pub open spec fn snippet_pred(
    e: SpecExpr,
    fids: Option<Seq<Seq<char>>>,
    tids: Option<Seq<Seq<char>>>,
) -> spec_fn(SnippetModel) -> bool {
    |s: SnippetModel|
        eval_expr(e, s.record_view()) && (match fids {
            Option::Some(ids) => ids.contains(s.folderId@),
            Option::None => true,
        }) && (match tids {
            Option::Some(ids) => exists|k: int|
                0 <= k < s.tagsIds.deep_view().len() && ids.contains(
                    #[trigger] s.tagsIds.deep_view()[k],
                ),
            Option::None => true,
        })
}

/// The snippets selected by a query with optional folder and tag
/// sub-queries, in collection order.
pub open spec fn matching_snippets(
    data: Seq<(String, SnippetModel)>,
    e: SpecExpr,
    fids: Option<Seq<Seq<char>>>,
    tids: Option<Seq<Seq<char>>>,
) -> Seq<SnippetModel> {
    values_of(data).filter(snippet_pred(e, fids, tids))
}

/// View of an optional sub-query argument.
pub open spec fn opt_query_view(o: Option<&String>) -> Option<Seq<char>> {
    match o {
        Option::Some(s) => Option::Some(s@),
        Option::None => Option::None,
    }
}

/// The sub-query outcome: `None` when the sub-query is malformed, else the
/// parsed expression (or `None` inside when no sub-query was given).
pub open spec fn spec_opt_parse(oq: Option<Seq<char>>) -> Option<Option<SpecExpr>> {
    match oq {
        Option::None => Option::Some(Option::None),
        Option::Some(q) => match spec_parse_query(q) {
            Option::Some(e) => Option::Some(Option::Some(e)),
            Option::None => Option::None,
        },
    }
}

/// What a snippet query selects: `None` when the query or a sub-query is
/// malformed, else the selected snippets in collection order.
pub open spec fn spec_query_snippets(
    data: StorageData,
    q: Seq<char>,
    fq: Option<Seq<char>>,
    tq: Option<Seq<char>>,
) -> Option<Seq<SnippetModel>> {
    match (spec_parse_query(q), spec_opt_parse(fq), spec_opt_parse(tq)) {
        (Option::Some(e), Option::Some(fo), Option::Some(to)) => {
            let fids = match fo {
                Option::Some(fe) => Option::Some(ids_of(matching(data.folders@, fe))),
                Option::None => Option::None,
            };
            let tids = match to {
                Option::Some(te) => Option::Some(ids_of(matching(data.tags@, te))),
                Option::None => Option::None,
            };
            Option::Some(matching_snippets(data.snippets@, e, fids, tids))
        },
        _ => Option::None,
    }
}

/// Runs a query over the snippet collection. A folder sub-query restricts
/// matches to snippets whose folder the sub-query selects; a tag sub-query
/// restricts matches to snippets carrying a tag the sub-query selects.
#[verifier::loop_isolation(false)]
pub fn query_snippets<'a>(
    engine: &'a QueryEngine,
    query: &str,
    return_ids: bool,
    folder: Option<&String>,
    tag: Option<&String>,
) -> (r: Result<QueryOutput<'a>, SyntaxError>)
    ensures
        match r {
            Ok(out) => spec_query_snippets(
                engine.data,
                query@,
                opt_query_view(folder),
                opt_query_view(tag),
            ) matches Some(sel) && (if return_ids {
                out matches QueryOutput::Ids(v) && v.deep_view() == ids_of(sel)
            } else {
                out matches QueryOutput::Snippets(v) && derefs(v@) == sel
            }),
            Err(err) => spec_query_snippets(
                engine.data,
                query@,
                opt_query_view(folder),
                opt_query_view(tag),
            ) is None,
        },
{
    let expr = match parse_query(query) {
        Ok(e) => e,
        Err(err) => {
            return Err(err);
        },
    };
    let folder_ids: Option<Vec<String>> = match folder {
        Option::Some(fq) => match parse_query(fq.as_str()) {
            Ok(fexpr) => Option::Some(execute_query_ids(&engine.data.folders, &fexpr)),
            Err(err) => {
                return Err(err);
            },
        },
        Option::None => Option::None,
    };
    let tag_ids: Option<Vec<String>> = match tag {
        Option::Some(tq) => match parse_query(tq.as_str()) {
            Ok(texpr) => Option::Some(execute_query_ids(&engine.data.tags, &texpr)),
            Err(err) => {
                return Err(err);
            },
        },
        Option::None => Option::None,
    };
    let ghost e = expr_view(expr);
    let ghost fids = match &folder_ids {
        Option::Some(v) => Option::Some(v.deep_view()),
        Option::None => Option::None,
    };
    let ghost tids = match &tag_ids {
        Option::Some(v) => Option::Some(v.deep_view()),
        Option::None => Option::None,
    };
    let ghost sel = matching_snippets(engine.data.snippets@, e, fids, tids);
    let data = &engine.data.snippets;
    let mut refs: Vec<&'a SnippetModel> = Vec::new();
    proof {
        assert(data@.take(0) =~= Seq::<(String, SnippetModel)>::empty());
        assert(values_of(data@.take(0)) =~= Seq::<SnippetModel>::empty());
        assert(derefs(refs@) =~= matching_snippets(data@.take(0), e, fids, tids));
    }
    let mut i: usize = 0;
    while i < data.len()
        invariant
            i <= data.len(),
            derefs(refs@) == matching_snippets(data@.take(i as int), e, fids, tids),
        decreases data.len() - i,
    {
        let s = &data[i].1;
        let rec = s.to_record();
        let ghost prev = refs@;
        let keep0 = evaluate(&expr, &rec);
        let keep1 = if keep0 {
            match &folder_ids {
                Option::Some(fv) => vec_contains_str(fv, s.folderId.as_str()),
                Option::None => true,
            }
        } else {
            false
        };
        let keep = if keep1 {
            match &tag_ids {
                Option::Some(tv) => any_tag_in(&s.tagsIds, tv),
                Option::None => true,
            }
        } else {
            false
        };
        if keep {
            refs.push(s);
        }
        proof {
            let tv = data@[i as int].1;
            assert(keep == snippet_pred(e, fids, tids)(tv));
            assert(values_of(data@.take(i as int + 1)) =~= values_of(data@.take(i as int)).push(
                tv,
            ));
            lemma_filter_push(values_of(data@.take(i as int)), snippet_pred(e, fids, tids), tv);
            if keep {
                assert(derefs(refs@) =~= derefs(prev).push(tv));
            }
        }
        i = i + 1;
    }
    proof {
        assert(data@.take(data.len() as int) =~= data@);
        assert(derefs(refs@) == sel);
    }
    if return_ids {
        let mut out: Vec<String> = Vec::new();
        proof {
            assert(out.deep_view() =~= ids_of(sel.take(0)));
        }
        let mut j: usize = 0;
        while j < refs.len()
            invariant
                j <= refs.len(),
                refs@.len() == sel.len(),
                derefs(refs@) == sel,
                out.deep_view() == ids_of(sel.take(j as int)),
            decreases refs.len() - j,
        {
            let ghost prev = out.deep_view();
            out.push(refs[j].id_string());
            proof {
                assert(derefs(refs@)[j as int] == sel[j as int]);
                assert(ids_of(sel.take(j as int + 1)) =~= ids_of(sel.take(j as int)).push(
                    sel[j as int].id_view(),
                ));
                assert(out.deep_view() =~= prev.push(sel[j as int].id_view()));
            }
            j = j + 1;
        }
        proof {
            assert(sel.take(sel.len() as int) =~= sel);
        }
        Ok(QueryOutput::Ids(out))
    } else {
        Ok(QueryOutput::Snippets(refs))
    }
}

} // verus!
